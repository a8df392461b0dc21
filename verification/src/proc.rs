//! Process-viewer logic: sort modes, file-descriptor classification, and the
//! readers of `/proc` records (`stat`, `status`, `meminfo`, `cpuinfo`,
//! `cmdline`) and of `/etc/passwd`, each taking the record's text.
use vstd::prelude::*;
use crate::fields::{field_i32, field_i32_at, field_num, field_u32, field_u64, second_u32, second_u64};
use crate::keymap::{KeyCode, KeyModifiers};
use crate::num::{dec, dec2, dec_chars, parse_radix, parse_unsigned, push_dec, push_dec2};
use crate::order::{is_stable_sort_of, kvs, stable_sort_by_keys, KeyView, SortKey};
use crate::text::{
    chars_of, copy_chars, find, lossy_text, utf8_lossy, find_char, has_prefix, lines, push_all, rfind, rfind_char,
    slice_chars, split_char, split_lines, split_on, split_words, starts_with, starts_with_str,
    string_of, views, words,
};

verus! {

// ── Sort modes ───────────────────────────────────────────────────────────

/// The column the process list is sorted by.
#[derive(Clone, Copy, PartialEq, Eq, Debug, Structural)]
pub enum ProcSortMode {
    Cpu,
    Mem,
    Pid,
    User,
    Command,
}

/// The label of a sort mode.
pub open spec fn proc_sort_label(m: ProcSortMode) -> Seq<char> {
    match m {
        ProcSortMode::Cpu => "CPU"@,
        ProcSortMode::Mem => "MEM"@,
        ProcSortMode::Pid => "PID"@,
        ProcSortMode::User => "USER"@,
        ProcSortMode::Command => "CMD"@,
    }
}

impl ProcSortMode {
    /// Whether the mode starts ascending: CPU and memory start descending
    /// (largest first), the others ascending.
    pub fn default_asc(self) -> (r: bool)
        ensures
            r == !(self is Cpu || self is Mem),
    {
        match self {
            ProcSortMode::Cpu | ProcSortMode::Mem => false,
            _ => true,
        }
    }

    /// The column label shown for the mode.
    pub fn label(self) -> (r: &'static str)
        ensures
            r@ == proc_sort_label(self),
    {
        match self {
            ProcSortMode::Cpu => "CPU",
            ProcSortMode::Mem => "MEM",
            ProcSortMode::Pid => "PID",
            ProcSortMode::User => "USER",
            ProcSortMode::Command => "CMD",
        }
    }
}

/// The signal menu shown for one process.
pub struct ProcSignalMenu {
    pub cursor: usize,
    pub pid: u32,
    pub proc_name: String,
}

/// Number of entries of the signal menu.
pub open spec fn signal_count_spec() -> nat {
    6
}

/// Number of entries of the signal menu.
pub fn signal_count() -> (r: usize)
    ensures
        r == signal_count_spec(),
{
    6
}

/// The direct key of signal menu entry `i`.
pub open spec fn signal_key(i: nat) -> char {
    if i == 0 {
        'h'
    } else if i == 1 {
        'i'
    } else if i == 2 {
        'k'
    } else if i == 3 {
        't'
    } else if i == 4 {
        'c'
    } else {
        's'
    }
}

/// The name shown for signal menu entry `i`.
pub open spec fn signal_name(i: nat) -> Seq<char> {
    if i == 0 {
        "SIGHUP  ( 1)"@
    } else if i == 1 {
        "SIGINT  ( 2)"@
    } else if i == 2 {
        "SIGKILL ( 9)"@
    } else if i == 3 {
        "SIGTERM (15)"@
    } else if i == 4 {
        "SIGCONT (18)"@
    } else {
        "SIGSTOP (20)"@
    }
}

/// The description shown for signal menu entry `i`.
pub open spec fn signal_desc(i: nat) -> Seq<char> {
    if i == 0 {
        "reload / restart"@
    } else if i == 1 {
        "interrupt (Ctrl+C)"@
    } else if i == 2 {
        "force kill"@
    } else if i == 3 {
        "terminate"@
    } else if i == 4 {
        "continue"@
    } else {
        "stop"@
    }
}

/// Entry `i` of the signal menu: (signal number, direct key, name, description).
pub fn signal_item(i: usize) -> (r: (i32, char, &'static str, &'static str))
    requires
        i < signal_count_spec(),
    ensures
        r.0 == signal_number(i as nat),
        r.1 == signal_key(i as nat),
        r.2@ == signal_name(i as nat),
        r.3@ == signal_desc(i as nat),
{
    if i == 0 {
        (1, 'h', "SIGHUP  ( 1)", "reload / restart")
    } else if i == 1 {
        (2, 'i', "SIGINT  ( 2)", "interrupt (Ctrl+C)")
    } else if i == 2 {
        (9, 'k', "SIGKILL ( 9)", "force kill")
    } else if i == 3 {
        (15, 't', "SIGTERM (15)", "terminate")
    } else if i == 4 {
        (18, 'c', "SIGCONT (18)", "continue")
    } else {
        (20, 's', "SIGSTOP (20)", "stop")
    }
}

/// The signal sent by menu entry `i`.
pub open spec fn signal_number(i: nat) -> i32 {
    if i == 0 {
        1
    } else if i == 1 {
        2
    } else if i == 2 {
        9
    } else if i == 3 {
        15
    } else if i == 4 {
        18
    } else {
        20
    }
}

/// The first menu entry whose direct key is `c`.
pub open spec fn signal_entry_of_key(c: char) -> Option<nat> {
    if c == 'h' {
        Some(0)
    } else if c == 'i' {
        Some(1)
    } else if c == 'k' {
        Some(2)
    } else if c == 't' {
        Some(3)
    } else if c == 'c' {
        Some(4)
    } else if c == 's' {
        Some(5)
    } else {
        None
    }
}

/// What a key does in the signal menu.
#[derive(Clone, Copy, PartialEq, Eq, Debug, Structural)]
pub enum SignalMenuAction {
    /// The menu stays open.
    Stay,
    /// The menu closes without sending anything.
    Close,
    /// Send signal `sig` to the menu's process, then close the menu.
    Send { sig: i32 },
}

/// The signal menu keys: Esc closes; up or `k` and down or `j` move the
/// highlight; Enter sends the highlighted signal; another key sends the
/// signal whose direct key it is (`k` and `j` move, so they send nothing).
pub open spec fn signal_menu_step(cursor: nat, code: KeyCode, mods: KeyModifiers) -> (nat, SignalMenuAction) {
    let plain = mods.bits == 0;
    match code {
        KeyCode::Esc => (cursor, SignalMenuAction::Close),
        KeyCode::Up => (if cursor > 0 { (cursor - 1) as nat } else { cursor }, SignalMenuAction::Stay),
        KeyCode::Down => (if cursor + 1 < signal_count_spec() { cursor + 1 } else { cursor }, SignalMenuAction::Stay),
        KeyCode::Enter => if plain {
            (cursor, SignalMenuAction::Send { sig: signal_number(cursor) })
        } else {
            (cursor, SignalMenuAction::Stay)
        },
        KeyCode::Char(c) => if !plain {
            (cursor, SignalMenuAction::Stay)
        } else if c == 'k' {
            (if cursor > 0 { (cursor - 1) as nat } else { cursor }, SignalMenuAction::Stay)
        } else if c == 'j' {
            (if cursor + 1 < signal_count_spec() { cursor + 1 } else { cursor }, SignalMenuAction::Stay)
        } else {
            match signal_entry_of_key(c) {
                Some(i) => (cursor, SignalMenuAction::Send { sig: signal_number(i) }),
                None => (cursor, SignalMenuAction::Stay),
            }
        },
        _ => (cursor, SignalMenuAction::Stay),
    }
}

impl ProcSignalMenu {
    /// Handles a key in the signal menu (see [`signal_menu_step`]); the
    /// caller sends the signal and closes the menu as the action says.
    pub fn handle_key(&mut self, code: KeyCode, mods: KeyModifiers) -> (r: SignalMenuAction)
        requires
            old(self).cursor < signal_count_spec(),
        ensures
            (final(self).cursor as nat, r) == signal_menu_step(old(self).cursor as nat, code, mods),
            final(self).cursor < signal_count_spec(),
            final(self).pid == old(self).pid,
            final(self).proc_name@ == old(self).proc_name@,
    {
        let plain = mods.bits == 0;
        let n = signal_count();
        match code {
            KeyCode::Esc => SignalMenuAction::Close,
            KeyCode::Up => {
                if self.cursor > 0 {
                    self.cursor = self.cursor - 1;
                }
                SignalMenuAction::Stay
            },
            KeyCode::Down => {
                if self.cursor + 1 < n {
                    self.cursor = self.cursor + 1;
                }
                SignalMenuAction::Stay
            },
            KeyCode::Enter => if plain {
                let (sig, _, _, _) = signal_item(self.cursor);
                SignalMenuAction::Send { sig }
            } else {
                SignalMenuAction::Stay
            },
            KeyCode::Char(c) => if !plain {
                SignalMenuAction::Stay
            } else if c == 'k' {
                if self.cursor > 0 {
                    self.cursor = self.cursor - 1;
                }
                SignalMenuAction::Stay
            } else if c == 'j' {
                if self.cursor + 1 < n {
                    self.cursor = self.cursor + 1;
                }
                SignalMenuAction::Stay
            } else {
                let mut i: usize = 0;
                let mut found: Option<i32> = None;
                while i < n
                    invariant
                        n == signal_count_spec(),
                        i <= n,
                        found is None ==> forall|j: nat| j < i ==> signal_key(j) != c,
                        found matches Some(sig) ==> (signal_entry_of_key(c) matches Some(e) && sig == signal_number(e)),
                    decreases n - i,
                {
                    let (sig, key, _, _) = signal_item(i);
                    if found.is_none() && key == c {
                        found = Some(sig);
                    }
                    i += 1;
                }
                match found {
                    Some(sig) => SignalMenuAction::Send { sig },
                    None => {
                        assert(signal_key(0) != c && signal_key(1) != c && signal_key(2) != c && signal_key(3) != c
                            && signal_key(4) != c && signal_key(5) != c);
                        SignalMenuAction::Stay
                    },
                }
            },
            _ => SignalMenuAction::Stay,
        }
    }
}

/// The message after a signal was sent.
pub open spec fn signal_sent_text(sig: nat, name: Seq<char>, pid: nat) -> Seq<char> {
    "Sent signal "@ + dec(sig) + " to "@ + name + " (PID "@ + dec(pid) + ")"@
}

/// The message after signal `sig` was sent to process `pid` named `name`.
pub fn signal_sent_message(sig: i32, name: &str, pid: u32) -> (r: String)
    requires
        sig >= 0,
    ensures
        r@ == signal_sent_text(sig as nat, name@, pid as nat),
{
    let mut v = chars_of("Sent signal ");
    push_dec(&mut v, sig as u64);
    push_all(&mut v, &chars_of(" to "));
    push_all(&mut v, &chars_of(name));
    push_all(&mut v, &chars_of(" (PID "));
    push_dec(&mut v, pid as u64);
    push_all(&mut v, &chars_of(")"));
    string_of(&v)
}

// ── The process list ─────────────────────────────────────────────────────

/// One row of the process list. The CPU and memory shares are kept as the
/// bit patterns of their `f32` percentages (`f32::to_bits`;
/// `f32::from_bits` gives the percentage back); [`share_order`] orders
/// them as the numbers are ordered.
pub struct ProcEntry {
    pub pid: u32,
    pub user: String,
    pub cpu_bits: u32,
    pub mem_bits: u32,
    /// Virtual size in KiB.
    pub vsz: u64,
    /// Resident size in KiB.
    pub rss: u64,
    pub stat: String,
    pub command: String,
}

/// The bit pattern `bits` of an `f32` is a NaN: all exponent bits set and
/// a non-zero fraction, whatever the sign.
pub open spec fn is_nan_bits(bits: u32) -> bool {
    bits % 0x8000_0000 > 0x7F80_0000
}

/// The place of the `f32` with bit pattern `bits` in the order of the
/// numbers. In IEEE 754 the patterns of the non-negative numbers grow with
/// the number and those of the negative numbers shrink with it (the sign
/// bit being the top bit), so the non-negative ones are moved above the
/// negative ones and the negative ones are turned around; `-0.0` takes the
/// place of `0.0`. For two numbers that are not NaN, `a < b` exactly when
/// `share_order(a) < share_order(b)`, and `a == b` exactly when the places
/// are equal.
pub open spec fn share_order(bits: u32) -> nat {
    if bits == 0x8000_0000 {
        0x8000_0000
    } else if bits > 0x8000_0000 {
        (0xFFFF_FFFF - bits) as nat
    } else {
        (bits + 0x8000_0000) as nat
    }
}

/// Executable form of [`share_order`].
pub fn share_order_of(bits: u32) -> (r: u64)
    ensures
        r == share_order(bits),
{
    if bits == 0x8000_0000 {
        0x8000_0000
    } else if bits > 0x8000_0000 {
        (0xFFFF_FFFFu32 - bits) as u64
    } else {
        bits as u64 + 0x8000_0000
    }
}

/// Whether the bit pattern is that of a NaN (see [`is_nan_bits`]).
pub fn nan_bits(bits: u32) -> (r: bool)
    ensures
        r == is_nan_bits(bits),
{
    bits % 0x8000_0000 > 0x7F80_0000
}

/// The processes can be sorted in `mode`: when a share is the sort value,
/// none of them is NaN (the numbers are then totally ordered).
pub open spec fn sortable(es: Seq<ProcEntry>, mode: ProcSortMode) -> bool {
    &&& mode is Cpu ==> forall|i: int| 0 <= i < es.len() ==> !is_nan_bits(#[trigger] es[i].cpu_bits)
    &&& mode is Mem ==> forall|i: int| 0 <= i < es.len() ==> !is_nan_bits(#[trigger] es[i].mem_bits)
}

/// The value a process is sorted by in a mode: a share by its place among
/// the numbers (see [`share_order`]), the pid as a number, the user or the
/// command as text (compared as `String`s are).
pub open spec fn proc_key(e: ProcEntry, mode: ProcSortMode) -> KeyView {
    match mode {
        ProcSortMode::Cpu => (seq![], seq![], share_order(e.cpu_bits)),
        ProcSortMode::Mem => (seq![], seq![], share_order(e.mem_bits)),
        ProcSortMode::Pid => (seq![], seq![], e.pid as nat),
        ProcSortMode::User => (e.user@, seq![], 0nat),
        ProcSortMode::Command => (e.command@, seq![], 0nat),
    }
}

/// The sort values of a list of processes.
pub open spec fn proc_keys(es: Seq<ProcEntry>, mode: ProcSortMode) -> Seq<KeyView> {
    es.map_values(|e: ProcEntry| proc_key(e, mode))
}

fn proc_sort_key(e: &ProcEntry, mode: ProcSortMode) -> (r: SortKey)
    ensures
        r.kv() == proc_key(*e, mode),
{
    match mode {
        ProcSortMode::Cpu => SortKey { major: Vec::new(), minor: Vec::new(), num: share_order_of(e.cpu_bits) },
        ProcSortMode::Mem => SortKey { major: Vec::new(), minor: Vec::new(), num: share_order_of(e.mem_bits) },
        ProcSortMode::Pid => SortKey { major: Vec::new(), minor: Vec::new(), num: e.pid as u64 },
        ProcSortMode::User => SortKey { major: chars_of(e.user.as_str()), minor: Vec::new(), num: 0 },
        ProcSortMode::Command => SortKey { major: chars_of(e.command.as_str()), minor: Vec::new(), num: 0 },
    }
}

/// The items of `v` in the opposite order.
fn reversed<T>(v: Vec<T>) -> (r: Vec<T>)
    ensures
        r@ == v@.reverse(),
{
    let ghost orig = v@;
    let mut src = v;
    let mut out: Vec<T> = Vec::new();
    while src.len() > 0
        invariant
            src@ == orig.take(src@.len() as int),
            src@.len() <= orig.len(),
            out@ == orig.skip(src@.len() as int).reverse(),
        decreases src@.len(),
    {
        let ghost k = src@.len();
        let x = src.pop().unwrap();
        out.push(x);
        assert(src@ =~= orig.take(k - 1));
        assert(out@ =~= orig.skip(k - 1).reverse());
    }
    assert(orig.skip(0) =~= orig);
    out
}

/// Sorts the process list by the column of `mode` (equal values keep their
/// order), then turns the list around when `asc` does not hold. A NaN
/// share would leave the numbers without a total order, on which the
/// standard sort may panic; such lists are left out.
pub fn sort_proc_entries(entries: &mut Vec<ProcEntry>, mode: ProcSortMode, asc: bool)
    requires
        sortable(old(entries)@, mode),
    ensures
        is_stable_sort_of(
            if asc {
                final(entries)@
            } else {
                final(entries)@.reverse()
            },
            old(entries)@,
            proc_keys(old(entries)@, mode),
            false,
        ),
{
    let mut es: Vec<ProcEntry> = Vec::new();
    core::mem::swap(&mut es, entries);
    let mut keys: Vec<SortKey> = Vec::new();
    let mut i: usize = 0;
    while i < es.len()
        invariant
            i <= es.len(),
            kvs(keys@) == proc_keys(es@.take(i as int), mode),
        decreases es.len() - i,
    {
        let k = proc_sort_key(&es[i], mode);
        let ghost before = kvs(keys@);
        keys.push(k);
        assert(kvs(keys@) =~= proc_keys(es@.take(i + 1), mode)) by {
            assert(kvs(keys@) =~= before.push(proc_key(es@[i as int], mode)));
        }
        i += 1;
    }
    assert(es@.take(es.len() as int) =~= es@);
    let ghost orig = es@;
    let sorted = stable_sort_by_keys(es, keys, false);
    if asc {
        *entries = sorted;
    } else {
        let ghost s = sorted@;
        let r = reversed(sorted);
        assert(r@.reverse() =~= s);
        *entries = r;
    }
}

// ── File descriptors ─────────────────────────────────────────────────────

/// What an open file descriptor refers to.
#[derive(Clone, Copy, Debug, PartialEq, Eq, Structural)]
pub enum FdType {
    Stdin,
    Stdout,
    Stderr,
    File,
    Socket,
    Pipe,
    Anon,
    Other,
}

/// The six-column tag of a descriptor kind.
pub open spec fn fd_tag(t: FdType) -> Seq<char> {
    match t {
        FdType::Stdin => "stdin "@,
        FdType::Stdout => "stdout"@,
        FdType::Stderr => "stderr"@,
        FdType::File => "file  "@,
        FdType::Socket => "socket"@,
        FdType::Pipe => "pipe  "@,
        FdType::Anon => "anon  "@,
        FdType::Other => "other "@,
    }
}

impl FdType {
    /// The six-column tag shown for the kind.
    pub fn tag(&self) -> (r: &'static str)
        ensures
            r@ == fd_tag(*self),
    {
        match self {
            FdType::Stdin => "stdin ",
            FdType::Stdout => "stdout",
            FdType::Stderr => "stderr",
            FdType::File => "file  ",
            FdType::Socket => "socket",
            FdType::Pipe => "pipe  ",
            FdType::Anon => "anon  ",
            FdType::Other => "other ",
        }
    }
}

/// One open descriptor of a process.
pub struct FdEntry {
    pub fd: u32,
    pub fd_type: FdType,
    pub target: String,
}

/// The kind of descriptor `fd` whose link target is `target`: sockets,
/// pipes and anonymous inodes by their prefix, absolute paths as a standard
/// stream (descriptors 0 to 2) or a file, anything else as other.
pub open spec fn fd_class(fd: u32, target: Seq<char>) -> FdType {
    if has_prefix(target, "socket:"@) {
        FdType::Socket
    } else if has_prefix(target, "pipe:"@) {
        FdType::Pipe
    } else if has_prefix(target, "anon_inode:"@) {
        FdType::Anon
    } else if target.len() > 0 && target[0] == '/' {
        if fd == 0 {
            FdType::Stdin
        } else if fd == 1 {
            FdType::Stdout
        } else if fd == 2 {
            FdType::Stderr
        } else {
            FdType::File
        }
    } else {
        FdType::Other
    }
}

/// Classifies descriptor `fd` by its link target.
pub fn classify_fd(fd: u32, target: &str) -> (r: FdType)
    ensures
        r == fd_class(fd, target@),
{
    let t = chars_of(target);
    if starts_with_str(&t, "socket:") {
        FdType::Socket
    } else if starts_with_str(&t, "pipe:") {
        FdType::Pipe
    } else if starts_with_str(&t, "anon_inode:") {
        FdType::Anon
    } else if t.len() > 0 && t[0] == '/' {
        if fd == 0 {
            FdType::Stdin
        } else if fd == 1 {
            FdType::Stdout
        } else if fd == 2 {
            FdType::Stderr
        } else {
            FdType::File
        }
    } else {
        FdType::Other
    }
}

/// The descriptors listed by a `/proc/<pid>/fd` directory, given as (entry
/// name, link target) pairs in directory order: names that are not a `u32`
/// are skipped.
pub open spec fn fd_entries_of(raw: Seq<(String, String)>) -> Seq<FdEntry>
    decreases raw.len(),
{
    if raw.len() == 0 {
        seq![]
    } else {
        let rest = fd_entries_of(raw.drop_last());
        let (name, target) = raw.last();
        match parse_unsigned(name@, 10, u32::MAX as nat) {
            Some(v) => rest.push(
                FdEntry { fd: v as u32, fd_type: fd_class(v as u32, target@), target: target },
            ),
            None => rest,
        }
    }
}

/// Sort keys that order descriptors by number.
pub open spec fn fd_keys(es: Seq<FdEntry>) -> Seq<KeyView> {
    es.map_values(|e: FdEntry| (seq![], seq![], e.fd as nat))
}

/// The descriptor list of `get_fd_list`: entries whose name is a number,
/// classified, then sorted by descriptor number (stable).
pub fn build_fd_list(raw: Vec<(String, String)>) -> (r: Vec<FdEntry>)
    ensures
        is_stable_sort_of(r@, fd_entries_of(raw@), fd_keys(fd_entries_of(raw@)), false),
{
    let ghost raw0 = raw@;
    let mut raw = raw;
    let mut items: Vec<FdEntry> = Vec::new();
    let mut keys: Vec<SortKey> = Vec::new();
    let mut i: usize = 0;
    let n = raw.len();
    while raw.len() > 0
        invariant
            n == raw0.len(),
            raw@ == raw0.skip(i as int),
            i + raw@.len() == n,
            items@ == fd_entries_of(raw0.take(i as int)),
            kvs(keys@) == fd_keys(items@),
        decreases raw@.len(),
    {
        let (name, target) = raw.remove(0);
        let ghost pair = raw0[i as int];
        assert(raw0.take(i + 1).drop_last() =~= raw0.take(i as int));
        assert(raw0.take(i + 1).last() == pair);
        let nv = chars_of(name.as_str());
        let tv = target.as_str();
        match parse_radix(&nv, 10, u32::MAX as u64) {
            Some(v) => {
                let fd = v as u32;
                let t = classify_fd(fd, tv);
                let ghost old_items = items@;
                let ghost old_keys = kvs(keys@);
                items.push(FdEntry { fd, fd_type: t, target });
                keys.push(SortKey { major: Vec::new(), minor: Vec::new(), num: fd as u64 });
                assert(kvs(keys@) =~= fd_keys(items@)) by {
                    assert(kvs(keys@) =~= old_keys.push((seq![], seq![], fd as nat)));
                    assert(fd_keys(items@) =~= fd_keys(old_items).push((seq![], seq![], fd as nat)));
                }
            },
            None => {},
        }
        i += 1;
        assert(raw@ =~= raw0.skip(i as int));
    }
    assert(raw0.take(n as int) =~= raw0);
    stable_sort_by_keys(items, keys, false)
}

// ── /proc/<pid>/stat ─────────────────────────────────────────────────────

/// Position of the `(` before the command name, 0 when there is none.
pub open spec fn comm_start(s: Seq<char>) -> int {
    if find_char(s, '(') >= 0 {
        find_char(s, '(')
    } else {
        0
    }
}

/// Position of the last `)`, 0 when there is none.
pub open spec fn comm_end(s: Seq<char>) -> int {
    if rfind_char(s, ')') >= 0 {
        rfind_char(s, ')')
    } else {
        0
    }
}

/// The command name of a `stat` line: between the first `(` and the last `)`.
pub open spec fn stat_comm(s: Seq<char>) -> Seq<char> {
    if comm_end(s) > comm_start(s) {
        s.subrange(comm_start(s) + 1, comm_end(s))
    } else {
        seq![]
    }
}

/// The fields of a `stat` line after the command name.
pub open spec fn stat_fields(s: Seq<char>) -> Seq<Seq<char>> {
    if comm_end(s) + 1 < s.len() {
        words(s.subrange(comm_end(s) + 1, s.len() as int))
    } else {
        seq![]
    }
}

/// A `stat` line on which the byte slicing of the reader stays on character
/// boundaries: it fails only when a slice starts right after a first
/// character that takes several bytes.
pub open spec fn stat_line_sliceable(s: Seq<char>) -> bool {
    s.len() == 0 || (s[0] as u32) < 0x80 || (rfind_char(s, ')') >= 0 && find_char(s, '(') >= 0)
}

/// Parses a `/proc/<pid>/stat` line into (command, state, utime, stime,
/// starttime); a missing state reads `?`, missing numbers read 0.
pub fn parse_stat_line(s: &str) -> (r: (String, String, u64, u64, u64))
    requires
        stat_line_sliceable(s@),
    ensures
        r.0@ == stat_comm(s@),
        r.1@ == (if stat_fields(s@).len() > 0 {
            stat_fields(s@)[0]
        } else {
            "?"@
        }),
        r.2 as nat == field_num(stat_fields(s@), 11, u64::MAX as nat, 0),
        r.3 as nat == field_num(stat_fields(s@), 12, u64::MAX as nat, 0),
        r.4 as nat == field_num(stat_fields(s@), 19, u64::MAX as nat, 0),
{
    let c = chars_of(s);
    let cs: usize = match find(&c, '(') {
        Some(i) => i,
        None => 0,
    };
    let ce: usize = match rfind(&c, ')') {
        Some(i) => i,
        None => 0,
    };
    let comm = if ce > cs {
        slice_chars(&c, cs + 1, ce)
    } else {
        Vec::new()
    };
    let after = if c.len() > 0 && ce < c.len() - 1 {
        slice_chars(&c, ce + 1, c.len())
    } else {
        Vec::new()
    };
    let fields = split_words(&after);
    proof {
        if !(ce + 1 < c.len()) {
            assert(words(seq![]) =~= seq![]);
        }
    }
    assert(views(fields@) == stat_fields(s@));
    let state = if fields.len() > 0 {
        assert(views(fields@)[0] == fields@[0]@);
        copy_chars(&fields[0])
    } else {
        chars_of("?")
    };
    let utime = field_u64(&fields, 11, 0);
    let stime = field_u64(&fields, 12, 0);
    let start = field_u64(&fields, 19, 0);
    (string_of(&comm), string_of(&state), utime, stime, start)
}

/// The name of a terminal from its `tty_nr`: 0 is `?`, major 136 is
/// `pts/N`, major 4 is `ttyN` below minor 64 and `ttyS(N-64)` above,
/// anything else `major:minor`.
pub open spec fn tty_name(tty_nr: i32) -> Seq<char> {
    if tty_nr == 0 {
        "?"@
    } else {
        let t = tty_nr as u32;
        let minor = (t & 0xff) | ((t >> 20u32) << 8u32);
        let major = (t >> 8u32) & 0xfff;
        if major == 136 {
            "pts/"@ + dec(minor as nat)
        } else if major == 4 && minor < 64 {
            "tty"@ + dec(minor as nat)
        } else if major == 4 {
            "ttyS"@ + dec((minor - 64) as nat)
        } else {
            dec(major as nat) + ":"@ + dec(minor as nat)
        }
    }
}

/// Decodes a `tty_nr` field into a terminal name.
pub fn decode_tty(tty_nr: i32) -> (r: String)
    ensures
        r@ == tty_name(tty_nr),
{
    if tty_nr == 0 {
        return string_of(&chars_of("?"));
    }
    let t = tty_nr as u32;
    let minor = (t & 0xff) | ((t >> 20u32) << 8u32);
    let major = (t >> 8u32) & 0xfff;
    let mut out: Vec<char>;
    if major == 136 {
        out = chars_of("pts/");
        push_dec(&mut out, minor as u64);
    } else if major == 4 && minor < 64 {
        out = chars_of("tty");
        push_dec(&mut out, minor as u64);
    } else if major == 4 {
        out = chars_of("ttyS");
        push_dec(&mut out, (minor - 64) as u64);
    } else {
        out = dec_chars(major as u64);
        let colon = chars_of(":");
        push_all(&mut out, &colon);
        push_dec(&mut out, minor as u64);
    }
    string_of(&out)
}

/// The parent pid and terminal name from a `stat` line: the fields after
/// the last `)`; no `)` gives `(0, "?")`.
pub open spec fn ppid_tty_of(s: Seq<char>) -> (nat, Seq<char>) {
    if rfind_char(s, ')') < 0 {
        (0, "?"@)
    } else {
        let ws = words(s.subrange(rfind_char(s, ')') + 1, s.len() as int));
        (field_num(ws, 1, u32::MAX as nat, 0), tty_name(field_i32(ws, 4, 0) as i32))
    }
}

/// Reads the parent pid and terminal of a `/proc/<pid>/stat` line.
pub fn parse_ppid_tty(stat: &str) -> (r: (u32, String))
    ensures
        r.0 as nat == ppid_tty_of(stat@).0,
        r.1@ == ppid_tty_of(stat@).1,
{
    let c = chars_of(stat);
    match rfind(&c, ')') {
        None => (0, string_of(&chars_of("?"))),
        Some(i) => {
            let after = if i < c.len() {
                slice_chars(&c, i + 1, c.len())
            } else {
                Vec::new()
            };
            let ws = split_words(&after);
            let ppid = field_u32(&ws, 1, 0);
            let tty = field_i32_at(&ws, 4, 0);
            (ppid, decode_tty(tty))
        },
    }
}

/// `secs` as `HH:MM:SS`, prefixed by `Nd ` when at least one day long.
pub open spec fn elapsed_text(secs: nat) -> Seq<char> {
    let d = secs / 86400;
    let h = (secs % 86400) / 3600;
    let m = (secs % 3600) / 60;
    let s = secs % 60;
    let hms = dec2(h) + ":"@ + dec2(m) + ":"@ + dec2(s);
    if d > 0 {
        dec(d) + "d "@ + hms
    } else {
        hms
    }
}

/// Formats an elapsed time in seconds.
pub fn format_elapsed(secs: u64) -> (r: String)
    ensures
        r@ == elapsed_text(secs as nat),
{
    let d = secs / 86400;
    let h = (secs % 86400) / 3600;
    let m = (secs % 3600) / 60;
    let s = secs % 60;
    let colon = chars_of(":");
    let mut out: Vec<char> = Vec::new();
    if d > 0 {
        push_dec(&mut out, d);
        let sep = chars_of("d ");
        push_all(&mut out, &sep);
    }
    push_dec2(&mut out, h);
    push_all(&mut out, &colon);
    push_dec2(&mut out, m);
    push_all(&mut out, &colon);
    push_dec2(&mut out, s);
    let ghost hms = dec2(h as nat) + ":"@ + dec2(m as nat) + ":"@ + dec2(s as nat);
    if d > 0 {
        assert(out@ =~= dec(d as nat) + "d "@ + hms);
    } else {
        assert(out@ =~= hms);
    }
    string_of(&out)
}

// ── /proc/<pid>/status, /proc/meminfo, /proc/cpuinfo ─────────────────────

/// (uid, VmSize, VmRSS) read from the lines of a `status` record; the last
/// matching line counts, missing values are 0.
pub open spec fn status_fields_of(ls: Seq<Seq<char>>) -> (nat, nat, nat)
    decreases ls.len(),
{
    if ls.len() == 0 {
        (0, 0, 0)
    } else {
        let (u, v, r) = status_fields_of(ls.drop_last());
        let l = ls.last();
        if has_prefix(l, "Uid:"@) {
            (second_u32(l, 0), v, r)
        } else if has_prefix(l, "VmSize:"@) {
            (u, second_u64(l, 0), r)
        } else if has_prefix(l, "VmRSS:"@) {
            (u, v, second_u64(l, 0))
        } else {
            (u, v, r)
        }
    }
}

/// Second word of `line` as a `u64`, or `default`.
fn second_word_u64(line: &Vec<char>, default: u64) -> (r: u64)
    ensures
        r as nat == second_u64(line@, default as nat),
{
    let ws = split_words(line);
    field_u64(&ws, 1, default)
}

/// Second word of `line` as a `u32`, or `default`.
fn second_word_u32(line: &Vec<char>, default: u32) -> (r: u32)
    ensures
        r as nat == second_u32(line@, default as nat),
{
    let ws = split_words(line);
    field_u32(&ws, 1, default)
}

/// Reads (uid, VmSize in KB, VmRSS in KB) from a `/proc/<pid>/status` text.
pub fn parse_status_fields(content: &str) -> (r: (u32, u64, u64))
    ensures
        (r.0 as nat, r.1 as nat, r.2 as nat) == status_fields_of(lines(content@)),
{
    let c = chars_of(content);
    let ls = split_lines(&c);
    let mut uid: u32 = 0;
    let mut vsz: u64 = 0;
    let mut rss: u64 = 0;
    let mut i: usize = 0;
    while i < ls.len()
        invariant
            i <= ls.len(),
            views(ls@) == lines(content@),
            (uid as nat, vsz as nat, rss as nat) == status_fields_of(views(ls@).take(i as int)),
        decreases ls.len() - i,
    {
        let l = &ls[i];
        assert(views(ls@).take(i + 1).drop_last() =~= views(ls@).take(i as int));
        assert(views(ls@).take(i + 1).last() == l@);
        if starts_with_str(l, "Uid:") {
            uid = second_word_u32(l, 0);
        } else if starts_with_str(l, "VmSize:") {
            vsz = second_word_u64(l, 0);
        } else if starts_with_str(l, "VmRSS:") {
            rss = second_word_u64(l, 0);
        }
        i += 1;
    }
    assert(views(ls@).take(ls.len() as int) =~= views(ls@));
    (uid, vsz, rss)
}

/// The value of the first line starting with `key`, or `absent`; `bad` when
/// that line's second word does not parse.
pub open spec fn first_keyed(ls: Seq<Seq<char>>, key: Seq<char>, max: nat, bad: nat, absent: nat) -> nat
    decreases ls.len(),
{
    if ls.len() == 0 {
        absent
    } else if has_prefix(ls[0], key) {
        field_num(words(ls[0]), 1, max, bad)
    } else {
        first_keyed(ls.drop_first(), key, max, bad, absent)
    }
}

/// The value of the first line of `content` that starts with `key`.
fn first_keyed_value(content: &str, key: &str, max: u64, bad: u64, absent: u64) -> (r: u64)
    ensures
        r as nat == first_keyed(lines(content@), key@, max as nat, bad as nat, absent as nat),
        bad <= max && absent <= max ==> r <= max,
{
    let c = chars_of(content);
    let ls = split_lines(&c);
    let k = chars_of(key);
    let mut i: usize = 0;
    assert(views(ls@).skip(0) =~= views(ls@));
    while i < ls.len()
        invariant
            i <= ls.len(),
            views(ls@) == lines(content@),
            k@ == key@,
            first_keyed(lines(content@), key@, max as nat, bad as nat, absent as nat)
                == first_keyed(views(ls@).skip(i as int), key@, max as nat, bad as nat, absent as nat),
        decreases ls.len() - i,
    {
        assert(views(ls@).skip(i as int)[0] == ls@[i as int]@);
        assert(views(ls@).skip(i as int).drop_first() =~= views(ls@).skip(i + 1));
        if starts_with(&ls[i], &k) {
            let ws = split_words(&ls[i]);
            assert(views(ws@) == words(views(ls@).skip(i as int)[0]));
            if 1 < ws.len() {
                assert(views(ws@)[1] == ws@[1]@);
                return match parse_radix(&ws[1], 10, max) {
                    Some(v) => v,
                    None => bad,
                };
            }
            return bad;
        }
        i += 1;
    }
    absent
}

/// `MemTotal` in KB from a `/proc/meminfo` text, 0 when absent.
pub fn parse_mem_total_kb(content: &str) -> (r: u64)
    ensures
        r as nat == first_keyed(lines(content@), "MemTotal:"@, u64::MAX as nat, 0, 0),
{
    first_keyed_value(content, "MemTotal:", u64::MAX, 0, 0)
}

/// The byte counts of `/proc/meminfo` lines (the second word, in KiB,
/// times 1024): the last `MemTotal`, `MemAvailable`, `SwapTotal` and
/// `SwapFree` seen, 0 for those absent.
pub open spec fn meminfo_fields_of(ls: Seq<Seq<char>>) -> (nat, nat, nat, nat)
    decreases ls.len(),
{
    if ls.len() == 0 {
        (0, 0, 0, 0)
    } else {
        let (t, a, st, sf) = meminfo_fields_of(ls.drop_last());
        let l = ls.last();
        let b = second_u64(l, 0) * 1024;
        if has_prefix(l, "MemTotal:"@) {
            (b, a, st, sf)
        } else if has_prefix(l, "MemAvailable:"@) {
            (t, b, st, sf)
        } else if has_prefix(l, "SwapTotal:"@) {
            (t, a, b, sf)
        } else if has_prefix(l, "SwapFree:"@) {
            (t, a, st, b)
        } else {
            (t, a, st, sf)
        }
    }
}

/// Every line's value, in bytes, fits in a `u64`.
pub open spec fn meminfo_fits(ls: Seq<Seq<char>>) -> bool {
    forall|i: int| 0 <= i < ls.len() ==> #[trigger] second_u64(ls[i], 0) * 1024 <= u64::MAX
}

/// `a - b`, or 0 when `b` is larger.
pub open spec fn sat_sub(a: nat, b: nat) -> nat {
    if a >= b { (a - b) as nat } else { 0 }
}

/// Memory in use, memory, swap in use and swap, in bytes, from the lines of
/// `/proc/meminfo`: all 0 when there is no memory total.
pub open spec fn meminfo_summary(ls: Seq<Seq<char>>) -> (nat, nat, nat, nat) {
    let (t, a, st, sf) = meminfo_fields_of(ls);
    if t > 0 {
        (sat_sub(t, a), t, sat_sub(st, sf), st)
    } else {
        (0, 0, 0, 0)
    }
}

/// Whether every value of a `/proc/meminfo` text fits in a `u64` once
/// counted in bytes (see [`meminfo_fits`]).
pub fn meminfo_in_range(content: &str) -> (r: bool)
    ensures
        r == meminfo_fits(lines(content@)),
{
    let ls = split_lines(&chars_of(content));
    let mut i: usize = 0;
    while i < ls.len()
        invariant
            i <= ls.len(),
            views(ls@) == lines(content@),
            forall|k: int| 0 <= k < i ==> #[trigger] second_u64(views(ls@)[k], 0) * 1024 <= u64::MAX,
        decreases ls.len() - i,
    {
        assert(views(ls@)[i as int] == ls@[i as int]@);
        let v = second_word_u64(&ls[i], 0);
        if v > 0x3f_ffff_ffff_ffff {
            assert(second_u64(views(ls@)[i as int], 0) * 1024 > u64::MAX);
            return false;
        }
        i += 1;
    }
    true
}

/// Memory in use, memory, swap in use and swap, in bytes, from a
/// `/proc/meminfo` text (see [`meminfo_summary`]).
pub fn parse_meminfo(content: &str) -> (r: (u64, u64, u64, u64))
    requires
        meminfo_fits(lines(content@)),
    ensures
        (r.0 as nat, r.1 as nat, r.2 as nat, r.3 as nat) == meminfo_summary(lines(content@)),
{
    let ls = split_lines(&chars_of(content));
    let mut t: u64 = 0;
    let mut a: u64 = 0;
    let mut st: u64 = 0;
    let mut sf: u64 = 0;
    let mut i: usize = 0;
    while i < ls.len()
        invariant
            i <= ls.len(),
            views(ls@) == lines(content@),
            meminfo_fits(views(ls@)),
            (t as nat, a as nat, st as nat, sf as nat) == meminfo_fields_of(views(ls@).take(i as int)),
        decreases ls.len() - i,
    {
        let l = &ls[i];
        assert(views(ls@).take(i + 1).drop_last() =~= views(ls@).take(i as int));
        assert(views(ls@).take(i + 1).last() == l@);
        assert(views(ls@)[i as int] == l@);
        let v = second_word_u64(l, 0);
        assert(second_u64(views(ls@)[i as int], 0) * 1024 <= u64::MAX);
        let b = v * 1024;
        if starts_with_str(l, "MemTotal:") {
            t = b;
        } else if starts_with_str(l, "MemAvailable:") {
            a = b;
        } else if starts_with_str(l, "SwapTotal:") {
            st = b;
        } else if starts_with_str(l, "SwapFree:") {
            sf = b;
        }
        i += 1;
    }
    assert(views(ls@).take(ls.len() as int) =~= views(ls@));
    if t > 0 {
        (if t >= a { t - a } else { 0 }, t, if st >= sf { st - sf } else { 0 }, st)
    } else {
        (0, 0, 0, 0)
    }
}

/// The runs of non-zero bytes of `b` (after the bytes `cur` already
/// gathered), in order: the arguments of a `/proc/<pid>/cmdline` record.
pub open spec fn nul_runs(b: Seq<u8>, cur: Seq<u8>) -> Seq<Seq<u8>>
    decreases b.len(),
{
    if b.len() == 0 {
        if cur.len() > 0 { seq![cur] } else { seq![] }
    } else if b[0] == 0 {
        (if cur.len() > 0 { seq![cur] } else { seq![] }) + nul_runs(b.skip(1), seq![])
    } else {
        nul_runs(b.skip(1), cur.push(b[0]))
    }
}

/// The texts `parts` joined with single spaces.
pub open spec fn joined(parts: Seq<Seq<char>>) -> Seq<char>
    decreases parts.len(),
{
    if parts.len() == 0 {
        seq![]
    } else if parts.len() == 1 {
        parts[0]
    } else {
        joined(parts.drop_last()) + seq![' '] + parts.last()
    }
}

/// The command line of a process: its arguments, each decoded as
/// `from_utf8_lossy` does, joined with spaces.
pub open spec fn cmdline_of(b: Seq<u8>) -> Seq<char> {
    joined(nul_runs(b, seq![]).map_values(|r: Seq<u8>| utf8_lossy(r)))
}

/// The command line from the bytes of a `/proc/<pid>/cmdline` record (see
/// [`cmdline_of`]).
pub fn cmdline_text(bytes: &[u8]) -> (r: String)
    ensures
        r@ == cmdline_of(bytes@),
{
    let ghost all = bytes@;
    let ghost mut done: Seq<Seq<u8>> = seq![];
    let mut out: Vec<char> = Vec::new();
    let mut cur: Vec<u8> = Vec::new();
    let mut any = false;
    let mut i: usize = 0;
    assert(all.skip(0) =~= all);
    while i < bytes.len()
        invariant
            i <= bytes@.len(),
            all == bytes@,
            done + nul_runs(all.skip(i as int), cur@) == nul_runs(all, seq![]),
            out@ == joined(done.map_values(|r: Seq<u8>| utf8_lossy(r))),
            any == (done.len() > 0),
        decreases bytes.len() - i,
    {
        let b = bytes[i];
        assert(all.skip(i as int)[0] == b);
        assert(all.skip(i as int).skip(1) =~= all.skip(i + 1));
        if b == 0 {
            if cur.len() > 0 {
                let t = lossy_text(cur.as_slice());
                let tc = chars_of(t.as_str());
                let ghost before = done.map_values(|r: Seq<u8>| utf8_lossy(r));
                if any {
                    out.push(' ');
                }
                push_all(&mut out, &tc);
                any = true;
                proof {
                    let nd = done.push(cur@);
                    assert(nd.map_values(|r: Seq<u8>| utf8_lossy(r)) =~= before.push(utf8_lossy(cur@)));
                    assert(nd.map_values(|r: Seq<u8>| utf8_lossy(r)).drop_last() =~= before);
                    if done.len() == 0 {
                        assert(out@ =~= joined(nd.map_values(|r: Seq<u8>| utf8_lossy(r))));
                    } else {
                        assert(out@ =~= joined(nd.map_values(|r: Seq<u8>| utf8_lossy(r))));
                    }
                    assert(done + nul_runs(all.skip(i as int), cur@) =~= nd + nul_runs(all.skip(i + 1), seq![]));
                    done = nd;
                }
            } else {
                assert(done + nul_runs(all.skip(i as int), cur@) =~= done + nul_runs(all.skip(i + 1), seq![]));
            }
            cur = Vec::new();
        } else {
            cur.push(b);
        }
        i += 1;
    }
    if cur.len() > 0 {
        let t = lossy_text(cur.as_slice());
        let tc = chars_of(t.as_str());
        let ghost before = done.map_values(|r: Seq<u8>| utf8_lossy(r));
        if any {
            out.push(' ');
        }
        push_all(&mut out, &tc);
        proof {
            let nd = done.push(cur@);
            assert(nd.map_values(|r: Seq<u8>| utf8_lossy(r)) =~= before.push(utf8_lossy(cur@)));
            assert(nd.map_values(|r: Seq<u8>| utf8_lossy(r)).drop_last() =~= before);
            assert(out@ =~= joined(nd.map_values(|r: Seq<u8>| utf8_lossy(r))));
            assert(nul_runs(all.skip(i as int), cur@) =~= seq![cur@]);
            assert(done + seq![cur@] =~= nd);
            done = nd;
        }
    } else {
        assert(nul_runs(all.skip(i as int), cur@) =~= seq![]);
        assert(done + seq![] =~= done);
    }
    string_of(&out)
}

/// The thread count from a `/proc/<pid>/status` text: the `Threads:` line,
/// 1 when it is absent or unreadable.
pub fn parse_threads(content: &str) -> (r: u32)
    ensures
        r as nat == first_keyed(lines(content@), "Threads:"@, u32::MAX as nat, 1, 1),
{
    first_keyed_value(content, "Threads:", u32::MAX as u64, 1, 1) as u32
}

/// Number of lines of `ls` that start with `key`.
pub open spec fn count_keyed(ls: Seq<Seq<char>>, key: Seq<char>) -> nat
    decreases ls.len(),
{
    if ls.len() == 0 {
        0
    } else {
        count_keyed(ls.drop_last(), key) + (if has_prefix(ls.last(), key) {
            1nat
        } else {
            0nat
        })
    }
}

/// The CPU count from a `/proc/cpuinfo` text: the number of lines starting
/// with `processor`, taken as a `u32`, and 1 when that is 0.
pub fn parse_cpu_count(content: &str) -> (r: u32)
    ensures
        r == (if (count_keyed(lines(content@), "processor"@) as u32) > 0 {
            count_keyed(lines(content@), "processor"@) as u32
        } else {
            1u32
        }),
{
    let c = chars_of(content);
    let ls = split_lines(&c);
    let k = chars_of("processor");
    let mut n: usize = 0;
    let mut i: usize = 0;
    while i < ls.len()
        invariant
            i <= ls.len(),
            n <= i,
            views(ls@) == lines(content@),
            k@ == "processor"@,
            n as nat == count_keyed(views(ls@).take(i as int), "processor"@),
        decreases ls.len() - i,
    {
        assert(views(ls@).take(i + 1).drop_last() =~= views(ls@).take(i as int));
        assert(views(ls@).take(i + 1).last() == ls@[i as int]@);
        if starts_with(&ls[i], &k) {
            n += 1;
        }
        i += 1;
    }
    assert(views(ls@).take(ls.len() as int) =~= views(ls@));
    let count = n as u32;
    if count > 0 {
        count
    } else {
        1
    }
}

// ── /etc/passwd, /etc/group ──────────────────────────────────────────────

/// The name on the first line of a passwd/group text whose third
/// `:`-separated field is `id`.
pub open spec fn name_for_id(ls: Seq<Seq<char>>, id: nat) -> Option<Seq<char>>
    decreases ls.len(),
{
    if ls.len() == 0 {
        None
    } else {
        let parts = split_on(ls[0], ':');
        if parts.len() > 2 && parse_unsigned(parts[2], 10, u32::MAX as nat) == Some(id) {
            Some(parts[0])
        } else {
            name_for_id(ls.drop_first(), id)
        }
    }
}

/// The name for `id` in a passwd/group text, or `id` in decimal.
pub open spec fn resolved_name(content: Seq<char>, id: nat) -> Seq<char> {
    match name_for_id(lines(content), id) {
        Some(n) => n,
        None => dec(id),
    }
}

/// Looks up a numeric id in the text of `/etc/passwd` or `/etc/group`; an
/// unreadable file is given as empty text.
pub fn resolve_name(content: &str, id: u32) -> (r: String)
    ensures
        r@ == resolved_name(content@, id as nat),
{
    let c = chars_of(content);
    let ls = split_lines(&c);
    let mut i: usize = 0;
    assert(views(ls@).skip(0) =~= views(ls@));
    while i < ls.len()
        invariant
            i <= ls.len(),
            views(ls@) == lines(content@),
            name_for_id(lines(content@), id as nat) == name_for_id(
                views(ls@).skip(i as int),
                id as nat,
            ),
        decreases ls.len() - i,
    {
        assert(views(ls@).skip(i as int)[0] == ls@[i as int]@);
        assert(views(ls@).skip(i as int).drop_first() =~= views(ls@).skip(i + 1));
        let parts = split_char(&ls[i], ':');
        if parts.len() > 2 {
            assert(views(parts@)[2] == parts@[2]@);
            assert(views(parts@)[0] == parts@[0]@);
            match parse_radix(&parts[2], 10, u32::MAX as u64) {
                Some(v) => {
                    if v == id as u64 {
                        return string_of(&parts[0]);
                    }
                },
                None => {},
            }
        }
        i += 1;
    }
    string_of(&dec_chars(id as u64))
}

/// The user name of `uid` from the text of `/etc/passwd`.
pub fn uid_to_username(passwd: &str, uid: u32) -> (r: String)
    ensures
        r@ == resolved_name(passwd@, uid as nat),
{
    resolve_name(passwd, uid)
}


proof fn lemma_rfind_past(x: Seq<char>, q: Seq<char>, c: char)
    requires
        forall|k: int| 0 <= k < q.len() ==> q[k] != c,
    ensures
        rfind_char(x + q, c) == rfind_char(x, c),
    decreases q.len(),
{
    if q.len() > 0 {
        assert((x + q).drop_last() =~= x + q.drop_last());
        assert((x + q).last() == q.last());
        lemma_rfind_past(x, q.drop_last(), c);
    } else {
        assert(x + q =~= x);
    }
}

/// The fields of a `stat` line are the words after its last `)`: whatever
/// comes before it (the pid and the command name, which may itself hold
/// spaces and parentheses) gives no field, and the state is the first word
/// after it.
pub proof fn law_stat_fields_follow_last_paren(p: Seq<char>, q: Seq<char>)
    requires
        forall|k: int| 0 <= k < q.len() ==> q[k] != ')',
    ensures
        stat_fields(p + seq![')'] + q) == words(q),
{
    let s = p + seq![')'] + q;
    let x = p.push(')');
    assert(s =~= x + q);
    lemma_rfind_past(x, q, ')');
    assert(x.last() == ')');
    assert(rfind_char(x, ')') == p.len());
    assert(comm_end(s) == p.len());
    if q.len() > 0 {
        assert(s.subrange(p.len() as int + 1, s.len() as int) =~= q);
    } else {
        assert(words(q) =~= seq![]);
    }
}

} // verus!
