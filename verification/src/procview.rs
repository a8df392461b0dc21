//! The keys of the process viewer: moving in the process and descriptor
//! lists, cycling the sort, and keeping the cursor on the same process
//! when the list is read again.
use vstd::prelude::*;
use crate::keymap::{KeyCode, KeyModifiers};
use crate::proc::{is_nan_bits, nan_bits, share_order, share_order_of, ProcEntry, ProcSortMode};
use crate::style::{plain, with_fg, Color, Style};
use crate::text::chars_of;

verus! {

/// `a - b`, or 0 when `b` is larger.
pub open spec fn sat(a: nat, b: nat) -> nat {
    if a >= b { (a - b) as nat } else { 0 }
}

/// Where a movement key puts the cursor of a list of `n` rows showing `lh`
/// rows at a time: up or `k` and down or `j` by one, `g` to the top, `G`
/// to the bottom, the page keys by `lh` rows; `None` for other keys.
pub open spec fn list_move(cursor: nat, n: nat, lh: nat, code: KeyCode, mods: KeyModifiers) -> Option<nat> {
    let plain = mods.bits == 0;
    let last = sat(n, 1);
    match code {
        KeyCode::Up => Some(if cursor > 0 { (cursor - 1) as nat } else { cursor }),
        KeyCode::Down => Some(if cursor + 1 < n { cursor + 1 } else { cursor }),
        KeyCode::PageUp => Some(sat(cursor, lh)),
        KeyCode::PageDown => Some(if cursor + lh < last { cursor + lh } else { last }),
        KeyCode::Char(c) => if c == 'k' && plain {
            Some(if cursor > 0 { (cursor - 1) as nat } else { cursor })
        } else if c == 'j' && plain {
            Some(if cursor + 1 < n { cursor + 1 } else { cursor })
        } else if c == 'g' && plain {
            Some(0)
        } else if c == 'G' {
            Some(last)
        } else {
            None
        },
        _ => None,
    }
}

/// The cursor after a movement key (see [`list_move`]).
pub fn list_nav(cursor: usize, n: usize, lh: usize, code: KeyCode, mods: KeyModifiers) -> (r: Option<usize>)
    ensures
        match list_move(cursor as nat, n as nat, lh as nat, code, mods) {
            Some(c) => r == Some(c as usize),
            None => r is None,
        },
{
    let plain = mods.bits == 0;
    let last = if n >= 1 { n - 1 } else { 0 };
    let up = if cursor > 0 { cursor - 1 } else { cursor };
    let down = if cursor < n && cursor + 1 < n { cursor + 1 } else { cursor };
    match code {
        KeyCode::Up => Some(up),
        KeyCode::Down => Some(down),
        KeyCode::PageUp => Some(if cursor >= lh { cursor - lh } else { 0 }),
        KeyCode::PageDown => Some(if cursor < last && lh < last - cursor { cursor + lh } else { last }),
        KeyCode::Char(c) => if c == 'k' && plain {
            Some(up)
        } else if c == 'j' && plain {
            Some(down)
        } else if c == 'g' && plain {
            Some(0)
        } else if c == 'G' {
            Some(last)
        } else {
            None
        },
        _ => None,
    }
}

/// What a key does in the process list, besides moving.
#[derive(Clone, Copy, PartialEq, Eq, Debug, Structural)]
pub enum ProcKey {
    Nothing,
    /// Back to the file listing.
    Leave,
    /// Read the process list again.
    Refresh,
    /// Switch between the flat list and the process tree.
    ToggleTree,
    /// Open the signal menu for the process at the cursor.
    Signals,
    /// Show the open files of the process at the cursor.
    Files,
    /// Sort by the next column (see [`next_sort`]).
    NextSort,
    Help,
}

/// The process list keys: Esc or `q` leaves, `r` refreshes, `t` switches
/// the tree, `x` opens the signal menu, Enter or `f` the open files, `s`
/// cycles the sort, F1 shows the help.
pub open spec fn proc_key(code: KeyCode, mods: KeyModifiers) -> ProcKey {
    let plain = mods.bits == 0;
    match code {
        KeyCode::Esc => ProcKey::Leave,
        KeyCode::Enter => if plain { ProcKey::Files } else { ProcKey::Nothing },
        KeyCode::F(n) => if n == 1 && plain { ProcKey::Help } else { ProcKey::Nothing },
        KeyCode::Char(c) => if !plain {
            ProcKey::Nothing
        } else if c == 'q' {
            ProcKey::Leave
        } else if c == 'r' {
            ProcKey::Refresh
        } else if c == 't' {
            ProcKey::ToggleTree
        } else if c == 'x' {
            ProcKey::Signals
        } else if c == 'f' {
            ProcKey::Files
        } else if c == 's' {
            ProcKey::NextSort
        } else {
            ProcKey::Nothing
        },
        _ => ProcKey::Nothing,
    }
}

/// Executable form of [`proc_key`].
pub fn proc_key_of(code: KeyCode, mods: KeyModifiers) -> (r: ProcKey)
    ensures
        r == proc_key(code, mods),
{
    let plain = mods.bits == 0;
    match code {
        KeyCode::Esc => ProcKey::Leave,
        KeyCode::Enter => if plain { ProcKey::Files } else { ProcKey::Nothing },
        KeyCode::F(n) => if n == 1 && plain { ProcKey::Help } else { ProcKey::Nothing },
        KeyCode::Char(c) => if !plain {
            ProcKey::Nothing
        } else if c == 'q' {
            ProcKey::Leave
        } else if c == 'r' {
            ProcKey::Refresh
        } else if c == 't' {
            ProcKey::ToggleTree
        } else if c == 'x' {
            ProcKey::Signals
        } else if c == 'f' {
            ProcKey::Files
        } else if c == 's' {
            ProcKey::NextSort
        } else {
            ProcKey::Nothing
        },
        _ => ProcKey::Nothing,
    }
}

/// The sort after `s`: the next column (CPU, memory, pid, user, command,
/// then CPU again), in that column's starting direction.
pub open spec fn next_sort(mode: ProcSortMode) -> (ProcSortMode, bool) {
    match mode {
        ProcSortMode::Cpu => (ProcSortMode::Mem, false),
        ProcSortMode::Mem => (ProcSortMode::Pid, true),
        ProcSortMode::Pid => (ProcSortMode::User, true),
        ProcSortMode::User => (ProcSortMode::Command, true),
        ProcSortMode::Command => (ProcSortMode::Cpu, false),
    }
}

/// Executable form of [`next_sort`].
pub fn cycle_sort(mode: ProcSortMode) -> (r: (ProcSortMode, bool))
    ensures
        r == next_sort(mode),
{
    let next = match mode {
        ProcSortMode::Cpu => ProcSortMode::Mem,
        ProcSortMode::Mem => ProcSortMode::Pid,
        ProcSortMode::Pid => ProcSortMode::User,
        ProcSortMode::User => ProcSortMode::Command,
        ProcSortMode::Command => ProcSortMode::Cpu,
    };
    (next, next.default_asc())
}

/// The first position of process `pid` in a list.
pub open spec fn pid_position(es: Seq<ProcEntry>, pid: u32) -> Option<int> {
    if exists|i: int| 0 <= i < es.len() && #[trigger] es[i].pid == pid {
        Some(choose|i: int| 0 <= i < es.len() && es[i].pid == pid && (forall|j: int| 0 <= j < i ==> #[trigger] es[j].pid != pid))
    } else {
        None
    }
}

/// The cursor after the list was read again: on the process it was on
/// (`pid`) when that is still listed, else where it was, but within the
/// list.
pub open spec fn cursor_after_refresh(es: Seq<ProcEntry>, pid: Option<u32>, cursor: nat) -> nat {
    let fallback = if cursor < sat(es.len(), 1) { cursor } else { sat(es.len(), 1) };
    match pid {
        Some(p) => match pid_position(es, p) {
            Some(i) => i as nat,
            None => fallback,
        },
        None => fallback,
    }
}

proof fn lemma_pid_position(es: Seq<ProcEntry>, pid: u32, i: int)
    requires
        0 <= i < es.len(),
        es[i].pid == pid,
        forall|j: int| 0 <= j < i ==> #[trigger] es[j].pid != pid,
    ensures
        pid_position(es, pid) == Some(i),
{
    assert(exists|k: int| 0 <= k < es.len() && #[trigger] es[k].pid == pid);
    let k = choose|k: int| 0 <= k < es.len() && es[k].pid == pid && (forall|j: int| 0 <= j < k ==> #[trigger] es[j].pid != pid);
    assert(0 <= k < es.len() && es[k].pid == pid && (forall|j: int| 0 <= j < k ==> #[trigger] es[j].pid != pid)) by {
        assert(0 <= i < es.len() && es[i].pid == pid && (forall|j: int| 0 <= j < i ==> #[trigger] es[j].pid != pid));
    }
    if k < i {
        assert(es[k].pid != pid);
    }
    if i < k {
        assert(es[i].pid != pid);
    }
}

/// The cursor after the process list was read again (see [`cursor_after_refresh`]).
pub fn track_cursor(es: &Vec<ProcEntry>, pid: Option<u32>, cursor: usize) -> (r: usize)
    ensures
        r as nat == cursor_after_refresh(es@, pid, cursor as nat),
{
    let n = es.len();
    let last = if n >= 1 { n - 1 } else { 0 };
    let fallback = if cursor < last { cursor } else { last };
    match pid {
        None => fallback,
        Some(p) => {
            let mut i: usize = 0;
            while i < n
                invariant
                    n == es@.len(),
                    i <= n,
                    pid == Some(p),
                    forall|j: int| 0 <= j < i ==> #[trigger] es@[j].pid != p,
                decreases n - i,
            {
                if es[i].pid == p {
                    proof {
                        lemma_pid_position(es@, p, i as int);
                    }
                    return i;
                }
                i += 1;
            }
            assert(!(exists|k: int| 0 <= k < es@.len() && #[trigger] es@[k].pid == p));
            fallback
        },
    }
}

/// The bit pattern of 50.0 as an `f32`: a share that is not NaN is at
/// least 50% exactly when its place (see [`share_order`]) is at least this
/// one's.
pub const HOT_CPU_BITS: u32 = 0x4248_0000;

/// The CPU share with bit pattern `bits` is at least 50% (a NaN is not).
pub open spec fn is_hot(bits: u32) -> bool {
    !is_nan_bits(bits) && share_order(bits) >= share_order(HOT_CPU_BITS)
}

/// The colour of a process row: red from 50% CPU on, else by state
/// (running yellow, stopped cyan, in disk sleep green, zombie magenta,
/// others white).
pub open spec fn proc_row_style(cpu_bits: u32, stat: Seq<char>) -> Style {
    if is_hot(cpu_bits) {
        with_fg(plain(), Color::Red)
    } else {
        let c = if stat.len() > 0 { stat[0] } else { ' ' };
        if c == 'R' {
            with_fg(plain(), Color::Yellow)
        } else if c == 'T' || c == 't' {
            with_fg(plain(), Color::Cyan)
        } else if c == 'D' {
            with_fg(plain(), Color::Green)
        } else if c == 'Z' {
            with_fg(plain(), Color::Magenta)
        } else {
            with_fg(plain(), Color::White)
        }
    }
}

/// The colour of a process row (see [`proc_row_style`]).
pub fn proc_entry_style(e: &ProcEntry) -> (r: Style)
    ensures
        r == proc_row_style(e.cpu_bits, e.stat@),
{
    if !nan_bits(e.cpu_bits) && share_order_of(e.cpu_bits) >= share_order_of(HOT_CPU_BITS) {
        return Style::new().fg(Color::Red);
    }
    let sc = chars_of(e.stat.as_str());
    let c = if sc.len() > 0 { sc[0] } else { ' ' };
    if c == 'R' {
        Style::new().fg(Color::Yellow)
    } else if c == 'T' || c == 't' {
        Style::new().fg(Color::Cyan)
    } else if c == 'D' {
        Style::new().fg(Color::Green)
    } else if c == 'Z' {
        Style::new().fg(Color::Magenta)
    } else {
        Style::new().fg(Color::White)
    }
}

// ── The viewer's state and its steps ────────────────────────────────────

/// The first visible row after moving the cursor of a list that shows
/// `rows` rows: it follows the cursor just far enough to keep it in view.
pub open spec fn visible_offset(cursor: nat, offset: nat, rows: nat) -> nat {
    if cursor < offset {
        cursor
    } else if rows > 0 && cursor >= offset + rows {
        (cursor + 1 - rows) as nat
    } else {
        offset
    }
}

/// The first visible row that keeps `cursor` in view (see [`visible_offset`]).
pub fn keep_visible(cursor: usize, offset: usize, rows: usize) -> (r: usize)
    ensures
        r as nat == visible_offset(cursor as nat, offset as nat, rows as nat),
{
    if cursor < offset {
        cursor
    } else if rows > 0 && cursor - offset >= rows {
        cursor - rows + 1
    } else {
        offset
    }
}

/// The process viewer's positions and sort: the process list's cursor and
/// first visible row, its sort column and direction, and whether the open
/// files of a process are shown, with that list's cursor and first row.
pub struct ProcNav {
    pub cursor: usize,
    pub offset: usize,
    pub sort: ProcSortMode,
    pub sort_asc: bool,
    pub fd_mode: bool,
    pub fd_cursor: usize,
    pub fd_offset: usize,
}

/// What the caller does after a key in the process viewer.
#[derive(Clone, Copy, PartialEq, Eq, Debug, Structural)]
pub enum ProcStep {
    /// Nothing beyond the new positions.
    Stay,
    /// Go back to the file listing (closing the signal menu).
    Leave,
    /// Read the process list again, keep the cursor on its process (see
    /// [`ProcNav::reloaded`]).
    Refresh,
    /// Read the open files again (see [`ProcNav::files_reloaded`]).
    RefreshFiles,
    /// Open the signal menu for the process at the cursor.
    OpenSignals,
    /// Read the open files of the process at the cursor; the files view is
    /// already open at its top.
    OpenFiles,
    /// Read and sort the process list in the new order; the cursor is
    /// already at the top.
    Resort,
    /// Show the help.
    Help,
}

impl ProcNav {
    /// The viewer as it opens: at the top, sorted by CPU, largest first.
    pub fn new() -> (r: ProcNav)
        ensures
            r.sort is Cpu,
            !r.sort_asc,
            r.cursor == 0 && r.offset == 0,
            !r.fd_mode && r.fd_cursor == 0 && r.fd_offset == 0,
    {
        ProcNav { cursor: 0, offset: 0, sort: ProcSortMode::Cpu, sort_asc: false, fd_mode: false, fd_cursor: 0, fd_offset: 0 }
    }

    /// A key in the process viewer, with `n` processes and `nf` open files
    /// listed and `lh` rows shown. In the open files: the movement keys
    /// move, Esc or `q` goes back to the processes, `r` asks for the files
    /// again, F1 for the help. In the processes: the movement keys move;
    /// Esc or `q` leaves; `r` refreshes; `x` and Enter or `f` act on the
    /// process at the cursor (when there is one); `s` sorts by the next
    /// column in its starting direction, from the top; F1 shows the help.
    /// The list's first row then follows the cursor, except when the list
    /// is to be read again first.
    pub fn step(&mut self, n: usize, nf: usize, lh: usize, code: KeyCode, mods: KeyModifiers) -> (r: ProcStep)
        ensures
            old(self).fd_mode ==> ({
                let mv = list_move(old(self).fd_cursor as nat, nf as nat, lh as nat, code, mods);
                let k = proc_key(code, mods);
                &&& final(self).cursor == old(self).cursor && final(self).offset == old(self).offset
                &&& final(self).sort == old(self).sort && final(self).sort_asc == old(self).sort_asc
                &&& mv matches Some(c) ==> r is Stay && final(self).fd_mode && final(self).fd_cursor == c
                    && final(self).fd_offset == visible_offset(c, old(self).fd_offset as nat, lh as nat)
                &&& (mv is None && k is Refresh) ==> r is RefreshFiles && *final(self) == *old(self)
                &&& (mv is None && !(k is Refresh)) ==> final(self).fd_cursor == old(self).fd_cursor
                    && final(self).fd_offset == visible_offset(old(self).fd_cursor as nat, old(self).fd_offset as nat, lh as nat)
                    && final(self).fd_mode == !(k is Leave)
                    && r == (if k is Help { ProcStep::Help } else { ProcStep::Stay })
            }),
            !old(self).fd_mode ==> ({
                let mv = list_move(old(self).cursor as nat, n as nat, lh as nat, code, mods);
                let k = proc_key(code, mods);
                let at = old(self).cursor < n;
                &&& mv matches Some(c) ==> r is Stay && final(self).cursor == c
                    && final(self).offset == visible_offset(c, old(self).offset as nat, lh as nat)
                    && final(self).sort == old(self).sort && final(self).sort_asc == old(self).sort_asc
                    && !final(self).fd_mode && final(self).fd_cursor == old(self).fd_cursor && final(self).fd_offset == old(self).fd_offset
                &&& (mv is None && k is Refresh) ==> r is Refresh && *final(self) == *old(self)
                &&& (mv is None && k is NextSort) ==> r is Resort && final(self).cursor == 0 && final(self).offset == 0
                    && (final(self).sort, final(self).sort_asc) == next_sort(old(self).sort)
                    && !final(self).fd_mode && final(self).fd_cursor == old(self).fd_cursor && final(self).fd_offset == old(self).fd_offset
                &&& (mv is None && k is Files && at) ==> r is OpenFiles && final(self).fd_mode
                    && final(self).fd_cursor == 0 && final(self).fd_offset == 0
                &&& (mv is None && !(k is Refresh) && !(k is NextSort)) ==> final(self).cursor == old(self).cursor
                    && final(self).offset == visible_offset(old(self).cursor as nat, old(self).offset as nat, lh as nat)
                    && final(self).sort == old(self).sort && final(self).sort_asc == old(self).sort_asc
                &&& (mv is None && !(k is Refresh) && !(k is NextSort) && !(k is Files && at)) ==> !final(self).fd_mode
                    && final(self).fd_cursor == old(self).fd_cursor && final(self).fd_offset == old(self).fd_offset
                    && r == (match k {
                        ProcKey::Leave => ProcStep::Leave,
                        ProcKey::Signals => if at { ProcStep::OpenSignals } else { ProcStep::Stay },
                        ProcKey::Help => ProcStep::Help,
                        _ => ProcStep::Stay,
                    })
            }),
    {
        if self.fd_mode {
            match list_nav(self.fd_cursor, nf, lh, code, mods) {
                Some(c) => {
                    self.fd_cursor = c;
                    self.fd_offset = keep_visible(c, self.fd_offset, lh);
                    ProcStep::Stay
                },
                None => {
                    let k = proc_key_of(code, mods);
                    if k == ProcKey::Refresh {
                        return ProcStep::RefreshFiles;
                    }
                    if k == ProcKey::Leave {
                        self.fd_mode = false;
                    }
                    self.fd_offset = keep_visible(self.fd_cursor, self.fd_offset, lh);
                    if k == ProcKey::Help {
                        ProcStep::Help
                    } else {
                        ProcStep::Stay
                    }
                },
            }
        } else {
            match list_nav(self.cursor, n, lh, code, mods) {
                Some(c) => {
                    self.cursor = c;
                    self.offset = keep_visible(c, self.offset, lh);
                    ProcStep::Stay
                },
                None => {
                    let k = proc_key_of(code, mods);
                    let at = self.cursor < n;
                    let r = match k {
                        ProcKey::Refresh => {
                            return ProcStep::Refresh;
                        },
                        ProcKey::NextSort => {
                            let (m, asc) = cycle_sort(self.sort);
                            self.sort = m;
                            self.sort_asc = asc;
                            self.cursor = 0;
                            self.offset = 0;
                            ProcStep::Resort
                        },
                        ProcKey::Leave => ProcStep::Leave,
                        ProcKey::Signals => if at { ProcStep::OpenSignals } else { ProcStep::Stay },
                        ProcKey::Files => if at {
                            self.fd_cursor = 0;
                            self.fd_offset = 0;
                            self.fd_mode = true;
                            ProcStep::OpenFiles
                        } else {
                            ProcStep::Stay
                        },
                        ProcKey::Help => ProcStep::Help,
                        _ => ProcStep::Stay,
                    };
                    self.offset = keep_visible(self.cursor, self.offset, lh);
                    r
                },
            }
        }
    }

    /// After the process list was read again: the cursor on `cursor` (see
    /// [`track_cursor`]) and the first row following it.
    pub fn reloaded(&mut self, cursor: usize, lh: usize)
        ensures
            final(self).cursor == cursor,
            final(self).offset == visible_offset(cursor as nat, old(self).offset as nat, lh as nat),
            final(self).sort == old(self).sort && final(self).sort_asc == old(self).sort_asc,
            final(self).fd_mode == old(self).fd_mode,
            final(self).fd_cursor == old(self).fd_cursor && final(self).fd_offset == old(self).fd_offset,
    {
        self.cursor = cursor;
        self.offset = keep_visible(cursor, self.offset, lh);
    }

    /// After the open files were read again, `nf` of them: the cursor kept
    /// within the list (on the last file when it shrank) and the first row
    /// following it.
    pub fn files_reloaded(&mut self, nf: usize, lh: usize)
        ensures
            final(self).fd_cursor == (if old(self).fd_cursor < sat(nf as nat, 1) { old(self).fd_cursor as nat } else { sat(nf as nat, 1) }),
            final(self).fd_offset == visible_offset(final(self).fd_cursor as nat, old(self).fd_offset as nat, lh as nat),
            final(self).cursor == old(self).cursor && final(self).offset == old(self).offset,
            final(self).sort == old(self).sort && final(self).sort_asc == old(self).sort_asc,
            final(self).fd_mode == old(self).fd_mode,
    {
        let last = if nf >= 1 { nf - 1 } else { 0 };
        if self.fd_cursor > last {
            self.fd_cursor = last;
        }
        self.fd_offset = keep_visible(self.fd_cursor, self.fd_offset, lh);
    }
}

} // verus!
