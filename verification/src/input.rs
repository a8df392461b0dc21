//! The smaller dialogs of the listing: sorting, the command palette, the
//! incremental search, the command line, the directory jump, and the keys
//! of the tree pane.
use vstd::prelude::*;
use crate::app::{
    is_dotdot, name_is_dotdot, op_targets, App, DialogKind, FileDialog, FileEntry, FuncCmd, FuncDialog,
    SearchState, SortMode,
};
use crate::fs_utils::string_views;
use crate::keymap::{lookup_action, lookup_of, Action, KeyCode, KeyModifiers};
use crate::keys::edit_line;
use crate::text::{
    chars_eq_str, chars_of, contains_run, find, find_char, has_prefix, is_blank, lowercase, occurs_in,
    slice_chars, starts_with_str, string_of, to_lowercase, trim, trim_chars,
};

verus! {

// ── Sorting ──────────────────────────────────────────────────────────────

/// The lines of the sort dialog: name, extension, size, date, none.
pub open spec fn sort_option(i: nat) -> SortMode {
    if i == 0 {
        SortMode::Name
    } else if i == 1 {
        SortMode::Ext
    } else if i == 2 {
        SortMode::Size
    } else if i == 3 {
        SortMode::Date
    } else {
        SortMode::Unsorted
    }
}

fn sort_option_exec(i: usize) -> (r: SortMode)
    ensures
        r == sort_option(i as nat),
{
    if i == 0 {
        SortMode::Name
    } else if i == 1 {
        SortMode::Ext
    } else if i == 2 {
        SortMode::Size
    } else if i == 3 {
        SortMode::Date
    } else {
        SortMode::Unsorted
    }
}

/// The sort dialog line of a mode.
pub open spec fn sort_line(m: SortMode) -> usize {
    match m {
        SortMode::Name => 0,
        SortMode::Ext => 1,
        SortMode::Size => 2,
        SortMode::Date => 3,
        SortMode::Unsorted => 4,
    }
}

/// The sort dialog line that a letter picks (`n`, `x`, `s`, `t`, `u`, in
/// either case).
pub open spec fn sort_letter(c: char) -> Option<usize> {
    if c == 'n' || c == 'N' {
        Some(0)
    } else if c == 'x' || c == 'X' {
        Some(1)
    } else if c == 's' || c == 'S' {
        Some(2)
    } else if c == 't' || c == 'T' {
        Some(3)
    } else if c == 'u' || c == 'U' {
        Some(4)
    } else {
        None
    }
}

/// The sort after choosing mode `m`: the same mode again reverses the
/// order (except for no sort); another mode sorts ascending.
pub open spec fn sort_after(mode: SortMode, asc: bool, m: SortMode) -> (SortMode, bool) {
    if mode == m && m != SortMode::Unsorted {
        (mode, !asc)
    } else {
        (m, true)
    }
}

/// Pressing the same sort key again toggles the direction: after choosing
/// a mode (other than no sort) the list is sorted by it, and choosing it
/// once more keeps the mode and reverses the direction.
pub proof fn law_same_sort_toggles(mode: SortMode, asc: bool, m: SortMode)
    requires
        m != SortMode::Unsorted,
    ensures
        ({
            let first = sort_after(mode, asc, m);
            let second = sort_after(first.0, first.1, m);
            first.0 == m && second.0 == m && second.1 == !first.1
        }),
{
}

/// The sort dialog's step on its line, visibility, sort mode and
/// direction (see [`App::handle_sort_dialog_key`]); the last value says
/// whether the listing must be sorted again.
#[verifier::rlimit(40)]
fn sort_dialog_step(cursor: usize, show: bool, mode: SortMode, asc: bool, code: KeyCode, mods: KeyModifiers) -> (r: (usize, bool, SortMode, bool, bool))
    requires
        cursor < 5,
    ensures
        r.0 < 5,
        ({
            let pick: Option<usize> = match code {
                KeyCode::Enter => if mods.bits == 0 { Some(cursor) } else { None },
                KeyCode::Char(c) => sort_letter(c),
                _ => None,
            };
            if code is Esc {
                !r.4 && !r.1 && r.2 == mode
                    && r.3 == asc && r.0 == cursor
            } else if code is Up || code == KeyCode::Char('k') {
                !r.4 && r.0 == (if cursor > 0 { cursor - 1 } else { 0 })
                    && r.1 == show
                    && r.2 == mode && r.3 == asc
            } else if code is Down || code == KeyCode::Char('j') {
                !r.4 && r.0 == (if cursor + 1 < 5 { cursor + 1 } else { cursor as int })
                    && r.1 == show
                    && r.2 == mode && r.3 == asc
            } else if pick is Some {
                &&& r.4
                &&& !r.1
                &&& r.0 == pick->Some_0
                &&& (r.2, r.3) == sort_after(mode, asc, sort_option(pick->Some_0 as nat))
            } else {
                !r.4 && r.2 == mode && r.3 == asc
                    && r.0 == cursor && r.1 == show
            }
        }),
{
    let mut cursor = cursor;
    let mut show = show;
    let mut mode = mode;
    let mut asc = asc;
    let pick: Option<usize> = match code {
        KeyCode::Esc => {
            show = false;
            return (cursor, show, mode, asc, false);
        },
        KeyCode::Up => {
            if cursor > 0 {
                cursor = cursor - 1;
            }
            return (cursor, show, mode, asc, false);
        },
        KeyCode::Down => {
            if cursor + 1 < 5 {
                cursor = cursor + 1;
            }
            return (cursor, show, mode, asc, false);
        },
        KeyCode::Enter => if mods.bits == 0 {
            Some(cursor)
        } else {
            None
        },
        KeyCode::Char(c) => {
            if c == 'k' {
                if cursor > 0 {
                    cursor = cursor - 1;
                }
                return (cursor, show, mode, asc, false);
            } else if c == 'j' {
                if cursor + 1 < 5 {
                    cursor = cursor + 1;
                }
                return (cursor, show, mode, asc, false);
            } else if c == 'n' || c == 'N' {
                Some(0)
            } else if c == 'x' || c == 'X' {
                Some(1)
            } else if c == 's' || c == 'S' {
                Some(2)
            } else if c == 't' || c == 'T' {
                Some(3)
            } else if c == 'u' || c == 'U' {
                Some(4)
            } else {
                None
            }
        },
        _ => None,
    };
    match pick {
        Some(i) => {
            cursor = i;
            let m = sort_option_exec(i);
            if mode == m && m != SortMode::Unsorted {
                asc = !asc;
            } else {
                mode = m;
                asc = true;
            }
            show = false;
            (cursor, show, mode, asc, true)
        },
        None => (cursor, show, mode, asc, false),
    }
}

impl App {
    /// Opens the sort dialog on the line of the current sort.
    pub fn open_sort_dialog(&mut self)
        ensures
            final(self).show_sort_dialog,
            final(self).sort_cursor == sort_line(old(self).sort_mode),
            *final(self) == (App { show_sort_dialog: true, sort_cursor: final(self).sort_cursor, ..*old(self) }),
            final(self).sort_mode == old(self).sort_mode,
            final(self).sort_asc == old(self).sort_asc,
    {
        self.show_sort_dialog = true;
        self.sort_cursor = match self.sort_mode {
            SortMode::Name => 0,
            SortMode::Ext => 1,
            SortMode::Size => 2,
            SortMode::Date => 3,
            SortMode::Unsorted => 4,
        };
    }

    /// Handles a key in the sort dialog: Esc closes; `k`/`j` and the arrows
    /// move; Enter or a letter chooses a mode (see [`sort_after`]) and
    /// closes. Says whether the listing must be sorted again.
    #[verifier::rlimit(40)]
    #[verifier::spinoff_prover]
    pub fn handle_sort_dialog_key(&mut self, code: KeyCode, mods: KeyModifiers) -> (reload: bool)
        requires
            old(self).sort_cursor < 5,
        ensures
            final(self).sort_cursor < 5,
            *final(self) == (App {
                sort_cursor: final(self).sort_cursor,
                show_sort_dialog: final(self).show_sort_dialog,
                sort_mode: final(self).sort_mode,
                sort_asc: final(self).sort_asc,
                ..*old(self)
            }),
            final(self).entries@ == old(self).entries@,
            ({
                let pick: Option<usize> = match code {
                    KeyCode::Enter => if mods.bits == 0 { Some(old(self).sort_cursor) } else { None },
                    KeyCode::Char(c) => sort_letter(c),
                    _ => None,
                };
                if code is Esc {
                    !reload && !final(self).show_sort_dialog && final(self).sort_mode == old(self).sort_mode
                        && final(self).sort_asc == old(self).sort_asc && final(self).sort_cursor == old(self).sort_cursor
                } else if code is Up || code == KeyCode::Char('k') {
                    !reload && final(self).sort_cursor == (if old(self).sort_cursor > 0 { old(self).sort_cursor - 1 } else { 0 })
                        && final(self).show_sort_dialog == old(self).show_sort_dialog
                        && final(self).sort_mode == old(self).sort_mode && final(self).sort_asc == old(self).sort_asc
                } else if code is Down || code == KeyCode::Char('j') {
                    !reload && final(self).sort_cursor == (if old(self).sort_cursor + 1 < 5 { old(self).sort_cursor + 1 } else { old(self).sort_cursor as int })
                        && final(self).show_sort_dialog == old(self).show_sort_dialog
                        && final(self).sort_mode == old(self).sort_mode && final(self).sort_asc == old(self).sort_asc
                } else if pick is Some {
                    &&& reload
                    &&& !final(self).show_sort_dialog
                    &&& final(self).sort_cursor == pick->Some_0
                    &&& (final(self).sort_mode, final(self).sort_asc) == sort_after(old(self).sort_mode, old(self).sort_asc, sort_option(pick->Some_0 as nat))
                } else {
                    !reload && final(self).sort_mode == old(self).sort_mode && final(self).sort_asc == old(self).sort_asc
                        && final(self).sort_cursor == old(self).sort_cursor && final(self).show_sort_dialog == old(self).show_sort_dialog
                }
            }),
    {
        let r = sort_dialog_step(self.sort_cursor, self.show_sort_dialog, self.sort_mode, self.sort_asc, code, mods);
        self.sort_cursor = r.0;
        self.show_sort_dialog = r.1;
        self.sort_mode = r.2;
        self.sort_asc = r.3;
        r.4
    }
}

// ── The command palette ──────────────────────────────────────────────────

/// The commands of the palette.
pub fn func_cmds() -> (r: Vec<FuncCmd>)
    ensures
        r@.len() == 5,
        r@[0].name@ == "mv"@ && r@[1].name@ == "mkdir"@ && r@[2].name@ == "proc"@ && r@[3].name@ == "q"@
            && r@[4].name@ == "help"@,
        r@[0].args@ == "<name>"@ && r@[1].args@ == "<name>"@ && r@[2].args@ == ""@ && r@[3].args@ == ""@
            && r@[4].args@ == ""@,
        r@[0].desc_en@ == "rename cursor file"@ && r@[1].desc_en@ == "make directory"@ && r@[2].desc_en@
            == "process viewer"@ && r@[3].desc_en@ == "quit"@ && r@[4].desc_en@ == "list commands"@,
        r@[0].desc_ja@ == "カーソルファイルをリネーム"@ && r@[1].desc_ja@ == "ディレクトリ作成"@ && r@[2].desc_ja@
            == "プロセス一覧"@ && r@[3].desc_ja@ == "終了 (quit)"@ && r@[4].desc_ja@ == "コマンド一覧"@,
{
    let mut v: Vec<FuncCmd> = Vec::new();
    v.push(FuncCmd { name: "mv", args: "<name>", desc_ja: "カーソルファイルをリネーム", desc_en: "rename cursor file" });
    v.push(FuncCmd { name: "mkdir", args: "<name>", desc_ja: "ディレクトリ作成", desc_en: "make directory" });
    v.push(FuncCmd { name: "proc", args: "", desc_ja: "プロセス一覧", desc_en: "process viewer" });
    v.push(FuncCmd { name: "q", args: "", desc_ja: "終了 (quit)", desc_en: "quit" });
    v.push(FuncCmd { name: "help", args: "", desc_ja: "コマンド一覧", desc_en: "list commands" });
    v
}

/// The command names of the palette, in order.
pub open spec fn cmd_names() -> Seq<Seq<char>> {
    seq!["mv"@, "mkdir"@, "proc"@, "q"@, "help"@]
}

/// The command word of a palette line: the trimmed line up to its first
/// space.
pub open spec fn cmd_word(line: Seq<char>) -> Seq<char> {
    let t = trim(line);
    let i = find_char(t, ' ');
    if i < 0 {
        t
    } else {
        t.take(i)
    }
}

/// The argument of a palette line: what follows the first space of the
/// trimmed line, trimmed (empty when there is no space).
pub open spec fn cmd_arg(line: Seq<char>) -> Seq<char> {
    let t = trim(line);
    let i = find_char(t, ' ');
    if i < 0 {
        seq![]
    } else {
        trim(t.skip(i + 1))
    }
}

/// The command names that start with `q`, in order, among the first `n`.
pub open spec fn candidates_upto(q: Seq<char>, n: int) -> Seq<Seq<char>>
    decreases n,
{
    if n <= 0 || n > 5 {
        seq![]
    } else if has_prefix(cmd_names()[n - 1], q) {
        candidates_upto(q, n - 1).push(cmd_names()[n - 1])
    } else {
        candidates_upto(q, n - 1)
    }
}

/// The command names that start with `q`, in order.
pub open spec fn candidates(q: Seq<char>) -> Seq<Seq<char>> {
    candidates_upto(q, 5)
}

fn cmd_name(i: usize) -> (r: &'static str)
    requires
        i < 5,
    ensures
        r@ == cmd_names()[i as int],
{
    if i == 0 {
        "mv"
    } else if i == 1 {
        "mkdir"
    } else if i == 2 {
        "proc"
    } else if i == 3 {
        "q"
    } else {
        "help"
    }
}

/// The command names that start with `q`.
pub fn cmd_candidates(q: &Vec<char>) -> (r: Vec<&'static str>)
    ensures
        r@.map_values(|s: &'static str| s@) == candidates(q@),
{
    let mut out: Vec<&'static str> = Vec::new();
    let mut i: usize = 0;
    while i < 5
        invariant
            i <= 5,
            out@.map_values(|s: &'static str| s@) == candidates_upto(q@, i as int),
        decreases 5 - i,
    {
        let name = cmd_name(i);
        let nc = chars_of(name);
        let ghost before = out@.map_values(|s: &'static str| s@);
        if crate::text::starts_with(&nc, q) {
            out.push(name);
            assert(out@.map_values(|s: &'static str| s@) =~= before.push(name@));
        } else {
            assert(out@.map_values(|s: &'static str| s@) =~= before);
        }
        i += 1;
    }
    out
}

/// Splits a palette line into its command word and argument.
pub fn split_cmd_line(line: &Vec<char>) -> (r: (Vec<char>, Vec<char>))
    ensures
        r.0@ == cmd_word(line@),
        r.1@ == cmd_arg(line@),
{
    let t = trim_chars(line);
    let tl = t.len();
    match find(&t, ' ') {
        Some(i) => {
            let w = slice_chars(&t, 0, i);
            let rest = slice_chars(&t, i + 1, tl);
            assert(w@ == t@.take(i as int));
            assert(rest@ == t@.skip(i + 1));
            (w, trim_chars(&rest))
        },
        None => (t, Vec::new()),
    }
}

/// The command a palette line runs: the command word when it names a
/// command, else the highlighted candidate for it, else the word itself;
/// lowercased.
pub open spec fn chosen_cmd(line: Seq<char>, selected: nat) -> Seq<char> {
    let w = cmd_word(line);
    let c = if cmd_names().contains(w) {
        w
    } else if selected < candidates(w).len() {
        candidates(w)[selected as int]
    } else {
        lowercase(w)
    };
    lowercase(c)
}

/// What the command palette leaves to the caller.
#[derive(PartialEq, Eq, Debug)]
pub enum FuncCommand {
    Nothing,
    Quit,
    /// Rename (move) the entry `from` of the current directory to `to`.
    Move { from: String, to: String },
    /// Open the process viewer.
    Proc,
}

/// The palette dialog is consistent: its cursor is within its text.
pub open spec fn func_ok(d: FuncDialog) -> bool {
    d.cursor <= d.input@.len()
}

impl App {
    /// Runs the command of the palette line (see [`chosen_cmd`]): `q` or
    /// `quit` quits; `mv <name>` renames the first operation target; `mkdir
    /// <name>` opens the new directory dialog with the name; `proc` opens
    /// the process viewer; `help` opens an empty palette again; anything
    /// else is reported as unknown.
    #[verifier::rlimit(80)]
    #[verifier::spinoff_prover]
    fn run_palette(&mut self, line: &Vec<char>, selected: usize) -> (r: FuncCommand)
        requires
            old(self).func_dialog is None,
        ensures
            ({
                let cmd = chosen_cmd(line@, selected as nat);
                let arg = cmd_arg(line@);
                let t = op_targets(old(self).entries@, old(self).tagged@, old(self).cursor as nat);
                if cmd == "q"@ || cmd == "quit"@ {
                    r is Quit
                } else if cmd == "mv"@ {
                    if arg.len() == 0 {
                        r is Nothing && (final(self).error_msg matches Some(m) && m@ == "使い方: mv <新しい名前>"@)
                    } else if t.len() == 0 {
                        r is Nothing && (final(self).error_msg matches Some(m) && m@ == "対象ファイルがありません"@)
                    } else {
                        r matches FuncCommand::Move { from, to } && from@ == t[0] && to@ == arg
                    }
                } else if cmd == "mkdir"@ {
                    r is Nothing && (final(self).file_dialog matches Some(d) && d.kind is Mkdir && d.input@ == arg
                        && d.cursor == arg.len() && d.targets@.len() == 0 && d.overwrite is None
                        && !d.conflict_rename && d.error is None && d.dest is None)
                } else if cmd == "proc"@ {
                    r is Proc
                } else if cmd == "help"@ {
                    r is Nothing && (final(self).func_dialog matches Some(d) && d.input@.len() == 0 && d.cursor == 0
                        && d.selected == 0)
                } else {
                    r is Nothing && (final(self).error_msg matches Some(m) && m@ == "不明なコマンド: "@ + cmd)
                }
            }),
            final(self).entries@ == old(self).entries@,
            final(self).cursor == old(self).cursor,
            *final(self) == (App {
                error_msg: final(self).error_msg,
                file_dialog: final(self).file_dialog,
                func_dialog: final(self).func_dialog,
                ..*old(self)
            }),
            final(self).func_dialog matches Some(d) ==> func_ok(d),
    {
        let (w, arg) = split_cmd_line(line);
        let cands = cmd_candidates(&w);
        let ghost wv = w@;
        let mut known = false;
        let mut i: usize = 0;
        while i < 5
            invariant
                i <= 5,
                known == (exists|k: int| 0 <= k < i && cmd_names()[k] == wv),
                w@ == wv,
            decreases 5 - i,
        {
            if crate::text::chars_eq_str(&w, cmd_name(i)) {
                known = true;
            }
            i += 1;
        }
        assert(known == cmd_names().contains(wv)) by {
            if cmd_names().contains(wv) {
                let k = choose|k: int| 0 <= k < 5 && cmd_names()[k] == wv;
                assert(0 <= k < 5 && cmd_names()[k] == wv);
            }
        }
        let c: Vec<char> = if known {
            crate::text::copy_chars(&w)
        } else if selected < cands.len() {
            assert(cands@.map_values(|s: &'static str| s@)[selected as int] == cands@[selected as int]@);
            chars_of(cands[selected])
        } else {
            to_lowercase(&w)
        };
        let cmd = to_lowercase(&c);
        if chars_eq_str(&cmd, "q") || chars_eq_str(&cmd, "quit") {
            FuncCommand::Quit
        } else if chars_eq_str(&cmd, "mv") {
            if arg.len() == 0 {
                self.error_msg = Some(string_of(&chars_of("使い方: mv <新しい名前>")));
                FuncCommand::Nothing
            } else {
                let targets = self.collect_op_targets();
                if targets.len() == 0 {
                    self.error_msg = Some(string_of(&chars_of("対象ファイルがありません")));
                    FuncCommand::Nothing
                } else {
                    let from = targets[0].clone();
                    FuncCommand::Move { from, to: string_of(&arg) }
                }
            }
        } else if chars_eq_str(&cmd, "mkdir") {
            let n = arg.len();
            self.file_dialog = Some(FileDialog {
                kind: DialogKind::Mkdir,
                input: arg,
                cursor: n,
                targets: Vec::new(),
                dest: None,
                conflict_rename: false,
                error: None,
                overwrite: None,
            });
            FuncCommand::Nothing
        } else if chars_eq_str(&cmd, "proc") {
            FuncCommand::Proc
        } else if chars_eq_str(&cmd, "help") {
            self.func_dialog = Some(FuncDialog { input: Vec::new(), cursor: 0, selected: 0 });
            FuncCommand::Nothing
        } else {
            let mut m = chars_of("不明なコマンド: ");
            let ghost head = m@;
            crate::text::push_all(&mut m, &cmd);
            self.error_msg = Some(string_of(&m));
            FuncCommand::Nothing
        }
    }

    /// Handles a key in the command palette: Esc closes; Enter runs the
    /// line; up and down move the highlight among the candidates; Tab
    /// completes the highlighted candidate; other keys edit the line
    /// (changing the text resets the highlight).
    #[verifier::rlimit(80)]
    #[verifier::spinoff_prover]
    pub fn handle_func_dialog_key(&mut self, code: KeyCode, mods: KeyModifiers) -> (r: FuncCommand)
        requires
            old(self).func_dialog matches Some(d) ==> func_ok(d) && d.input@.len() < usize::MAX,
        ensures
            final(self).func_dialog matches Some(d) ==> func_ok(d),
            final(self).entries@ == old(self).entries@,
            *final(self) == (App {
                error_msg: final(self).error_msg,
                file_dialog: final(self).file_dialog,
                func_dialog: final(self).func_dialog,
                ..*old(self)
            }),
            old(self).func_dialog is None ==> r is Nothing && *final(self) == *old(self),
            ({
                let d = old(self).func_dialog->Some_0;
                let nd = final(self).func_dialog->Some_0;
                let cands = candidates(cmd_word(d.input@));
                &&& (old(self).func_dialog is Some && code is Esc) ==> r is Nothing && final(self).func_dialog is None
                &&& (old(self).func_dialog is Some && code is Up) ==> r is Nothing && final(self).func_dialog is Some
                    && nd.selected == (if d.selected > 0 { d.selected - 1 } else { 0 }) && nd.input@ == d.input@
                &&& (old(self).func_dialog is Some && code is Down) ==> r is Nothing && final(self).func_dialog is Some
                    && nd.selected == (if d.selected + 1 < cands.len() { d.selected + 1 } else { d.selected as int })
                    && nd.input@ == d.input@
                &&& (old(self).func_dialog is Some && code is Tab) ==> r is Nothing && final(self).func_dialog is Some
                    && (if d.selected < cands.len() {
                        nd.input@ == cands[d.selected as int] + seq![' '] && nd.cursor == nd.input@.len() && nd.selected == 0
                    } else {
                        nd.input@ == d.input@ && nd.cursor == d.cursor && nd.selected == d.selected
                    })
                &&& (old(self).func_dialog is Some && !(code is Esc || code is Up || code is Down || code is Tab || code is Enter)) ==> (
                    r is Nothing && final(self).func_dialog is Some && match edit_line(d.input@, d.cursor as nat, code, mods) {
                        Some((i, c)) => nd.input@ == i && nd.cursor == c && nd.selected == (if code is Left || code is Right || code is Home || code is End { d.selected } else { 0 }),
                        None => nd.input@ == d.input@ && nd.cursor == d.cursor && nd.selected == d.selected,
                    })
            }),
    {
        let taken = self.func_dialog.take();
        let mut d = match taken {
            None => {
                return FuncCommand::Nothing;
            },
            Some(d) => d,
        };
        match code {
            KeyCode::Esc => FuncCommand::Nothing,
            KeyCode::Enter => {
                if mods.bits == 0 {
                    self.run_palette(&d.input, d.selected)
                } else {
                    self.func_dialog = Some(d);
                    FuncCommand::Nothing
                }
            },
            KeyCode::Up => {
                if d.selected > 0 {
                    d.selected = d.selected - 1;
                }
                self.func_dialog = Some(d);
                FuncCommand::Nothing
            },
            KeyCode::Down => {
                let (w, _) = split_cmd_line(&d.input);
                let n = cmd_candidates(&w).len();
                if d.selected < n && d.selected + 1 < n {
                    d.selected = d.selected + 1;
                }
                self.func_dialog = Some(d);
                FuncCommand::Nothing
            },
            KeyCode::Tab => {
                let (w, _) = split_cmd_line(&d.input);
                let cands = cmd_candidates(&w);
                if d.selected < cands.len() {
                    assert(cands@.map_values(|s: &'static str| s@)[d.selected as int] == cands@[d.selected as int]@);
                    let mut ni = chars_of(cands[d.selected]);
                    ni.push(' ');
                    let n = ni.len();
                    d.input = ni;
                    d.cursor = n;
                    d.selected = 0;
                }
                self.func_dialog = Some(d);
                FuncCommand::Nothing
            },
            _ => {
                let moved = match code {
                    KeyCode::Left | KeyCode::Right | KeyCode::Home | KeyCode::End => true,
                    _ => false,
                };
                let edited = crate::keys::edit_input(&mut d.input, &mut d.cursor, code, mods);
                if edited && !moved {
                    d.selected = 0;
                }
                self.func_dialog = Some(d);
                FuncCommand::Nothing
            },
        }
    }
}

// ── Incremental search ───────────────────────────────────────────────────

/// The positions of the entries among the first `n` whose lowercased name
/// holds the lowercased pattern, `..` excepted.
pub open spec fn substring_hits_upto(es: Seq<FileEntry>, p: Seq<char>, n: int) -> Seq<usize>
    decreases n,
{
    if n <= 0 {
        seq![]
    } else if !is_dotdot(es[n - 1].name@) && occurs_in(lowercase(es[n - 1].name@), lowercase(p)) {
        substring_hits_upto(es, p, n - 1).push((n - 1) as usize)
    } else {
        substring_hits_upto(es, p, n - 1)
    }
}

/// What typing in the search bar finds: entries whose lowercased name
/// holds the lowercased pattern (none for an empty pattern).
pub open spec fn typed_hits(es: Seq<FileEntry>, p: Seq<char>) -> Seq<usize> {
    if p.len() == 0 {
        seq![]
    } else {
        substring_hits_upto(es, p, es.len() as int)
    }
}

/// The search is consistent: its cursor is within its text.
pub open spec fn search_ok(s: SearchState) -> bool {
    s.cursor <= s.input@.len()
}

impl App {
    fn substring_hits(&self, p: &Vec<char>) -> (r: Vec<usize>)
        ensures
            r@ == typed_hits(self.entries@, p@),
    {
        if p.len() == 0 {
            return Vec::new();
        }
        let pl = to_lowercase(p);
        let mut out: Vec<usize> = Vec::new();
        let mut i: usize = 0;
        while i < self.entries.len()
            invariant
                i <= self.entries.len(),
                p@.len() > 0,
                pl@ == lowercase(p@),
                out@ == substring_hits_upto(self.entries@, p@, i as int),
            decreases self.entries.len() - i,
        {
            if !name_is_dotdot(&self.entries[i].name) {
                let nl = to_lowercase(&chars_of(self.entries[i].name.as_str()));
                if contains_run(&nl, &pl) {
                    out.push(i);
                }
            }
            i += 1;
        }
        out
    }

    /// Handles a key while the search bar is open: Esc cancels (the cursor
    /// goes back to where it was); Enter confirms (the pattern is kept for
    /// `n`/`N` and the matches stay highlighted); left and right move in
    /// the pattern; Backspace and typing change it, find the entries whose
    /// names hold it (ignoring case) and put the cursor on the first.
    #[verifier::rlimit(100)]
    #[verifier::spinoff_prover]
    pub fn handle_search_key(&mut self, code: KeyCode, mods: KeyModifiers)
        requires
            old(self).search matches Some(s) ==> search_ok(s) && !s.confirmed && s.input@.len() < usize::MAX,
        ensures
            final(self).search matches Some(s) ==> search_ok(s),
            final(self).entries@ == old(self).entries@,
            *final(self) == (App {
                search: final(self).search,
                cursor: final(self).cursor,
                last_search: final(self).last_search,
                ..*old(self)
            }),
            old(self).search is None ==> *final(self) == *old(self),
            ({
                let s = old(self).search->Some_0;
                let ns = final(self).search->Some_0;
                &&& (old(self).search is Some && code is Esc) ==> final(self).search is None && final(self).cursor == s.origin
                &&& (old(self).search is Some && code is Enter && mods.bits == 0) ==> (final(self).search is Some && ns.confirmed
                    && ns.matches@ == s.matches@ && final(self).last_search@ == s.input@ && final(self).cursor == old(self).cursor)
                &&& (old(self).search is Some && (code is Left || code is Right)) ==> (final(self).search is Some
                    && (ns.input@, ns.cursor as nat) == edit_line(s.input@, s.cursor as nat, code, mods)->Some_0
                    && final(self).cursor == old(self).cursor)
                &&& (old(self).search is Some && (code is Backspace || (code is Char && (mods.bits == 0 || mods.bits == 1)))) ==> (
                    final(self).search is Some
                    && (ns.input@, ns.cursor as nat) == edit_line(s.input@, s.cursor as nat, code, mods)->Some_0
                    && ns.matches@ == typed_hits(old(self).entries@, ns.input@) && ns.match_idx == 0
                    && final(self).cursor == (if ns.matches@.len() > 0 { ns.matches@[0] } else { old(self).cursor }))
            }),
    {
        let taken = self.search.take();
        let mut s = match taken {
            None => {
                return;
            },
            Some(s) => s,
        };
        match code {
            KeyCode::Esc => {
                self.cursor = s.origin;
            },
            KeyCode::Enter => {
                if mods.bits == 0 {
                    self.last_search = string_of(&s.input);
                    s.confirmed = true;
                }
                self.search = Some(s);
            },
            KeyCode::Left | KeyCode::Right => {
                crate::keys::edit_input(&mut s.input, &mut s.cursor, code, mods);
                self.search = Some(s);
            },
            KeyCode::Backspace | KeyCode::Char(_) => {
                let edited = crate::keys::edit_input(&mut s.input, &mut s.cursor, code, mods);
                if edited {
                    let ms = self.substring_hits(&s.input);
                    if ms.len() > 0 {
                        self.cursor = ms[0];
                    }
                    s.matches = ms;
                    s.match_idx = 0;
                }
                self.search = Some(s);
            },
            _ => {
                self.search = Some(s);
            },
        }
    }
}

proof fn lemma_typed_hits(es: Seq<FileEntry>, p: Seq<char>, n: int)
    requires
        0 <= n <= es.len(),
        es.len() <= usize::MAX,
    ensures
        forall|k: int|
            0 <= k < substring_hits_upto(es, p, n).len() ==> (#[trigger] substring_hits_upto(es, p, n)[k]) < n
                && !is_dotdot(es[substring_hits_upto(es, p, n)[k] as int].name@) && occurs_in(
                lowercase(es[substring_hits_upto(es, p, n)[k] as int].name@),
                lowercase(p),
            ),
        crate::dialogs::increasing(substring_hits_upto(es, p, n)),
    decreases n,
{
    if n > 0 {
        lemma_typed_hits(es, p, n - 1);
        let r = substring_hits_upto(es, p, n - 1);
        let h = substring_hits_upto(es, p, n);
        assert forall|k: int| 0 <= k < h.len() implies (#[trigger] h[k]) < n && !is_dotdot(es[h[k] as int].name@)
            && occurs_in(lowercase(es[h[k] as int].name@), lowercase(p)) by {
            if k < r.len() {
                assert(h[k] == r[k]);
            }
        }
        assert forall|j: int, k: int| 0 <= j < k < h.len() implies h[j] < h[k] by {
            assert(h[j] == r[j]);
            if k < r.len() {
                assert(h[k] == r[k]);
            }
        }
    }
}

/// Typing in the search bar finds only entries other than `..` whose
/// lowercased names hold the lowercased pattern, each once and in listing
/// order (so `n` and `N` move through them in order, see
/// [`crate::dialogs::law_next_then_prev`]).
pub proof fn law_typed_hits_sound(es: Seq<FileEntry>, p: Seq<char>)
    requires
        es.len() <= usize::MAX,
    ensures
        forall|k: int|
            0 <= k < typed_hits(es, p).len() ==> (#[trigger] typed_hits(es, p)[k]) < es.len() && !is_dotdot(
                es[typed_hits(es, p)[k] as int].name@,
            ) && occurs_in(lowercase(es[typed_hits(es, p)[k] as int].name@), lowercase(p)),
        crate::dialogs::increasing(typed_hits(es, p)),
{
    if p.len() > 0 {
        lemma_typed_hits(es, p, es.len() as int);
    }
}

// ── The command line and the directory jump ──────────────────────────────

/// The command-line dialog keys: Esc closes; Enter closes and hands over
/// the line unless it is blank; other keys edit it.
pub open spec fn run_dialog_ok(d: crate::app::RunDialog) -> bool {
    d.cursor <= d.input@.len()
}

impl App {
    /// Handles a key in the command-line dialog; the command to run, if
    /// any (see [`run_dialog_ok`] for the state it keeps).
    #[verifier::rlimit(40)]
    #[verifier::spinoff_prover]
    pub fn handle_run_dialog_key(&mut self, code: KeyCode, mods: KeyModifiers) -> (r: Option<String>)
        requires
            old(self).run_dialog matches Some(d) ==> run_dialog_ok(d) && d.input@.len() < usize::MAX,
        ensures
            final(self).run_dialog matches Some(d) ==> run_dialog_ok(d),
            *final(self) == (App { run_dialog: final(self).run_dialog, ..*old(self) }),
            old(self).run_dialog is None ==> r is None && *final(self) == *old(self),
            ({
                let d = old(self).run_dialog->Some_0;
                let nd = final(self).run_dialog->Some_0;
                &&& (old(self).run_dialog is Some && code is Esc) ==> r is None && final(self).run_dialog is None
                &&& (old(self).run_dialog is Some && code is Enter && mods.bits == 0) ==> final(self).run_dialog is None && (
                    if is_blank(d.input@) { r is None } else { r matches Some(c) && c@ == d.input@ })
                &&& (old(self).run_dialog is Some && !(code is Esc) && !(code is Enter && mods.bits == 0)) ==> r is None
                    && final(self).run_dialog is Some && match edit_line(d.input@, d.cursor as nat, code, mods) {
                        Some((i, c)) => nd.input@ == i && nd.cursor == c,
                        None => nd.input@ == d.input@ && nd.cursor == d.cursor,
                    }
            }),
            final(self).entries@ == old(self).entries@,
    {
        let taken = self.run_dialog.take();
        let mut d = match taken {
            None => {
                return None;
            },
            Some(d) => d,
        };
        if let KeyCode::Esc = code {
            return None;
        }
        let enter = match code {
            KeyCode::Enter => mods.bits == 0,
            _ => false,
        };
        if enter {
            if crate::text::blank(&d.input) {
                None
            } else {
                Some(string_of(&d.input))
            }
        } else {
            crate::keys::edit_input(&mut d.input, &mut d.cursor, code, mods);
            self.run_dialog = Some(d);
            None
        }
    }
}

/// The directory a jump asks for: a leading `~` stands for the home
/// directory when it is known.
pub open spec fn jump_target(input: Seq<char>, home: Option<Seq<char>>) -> Seq<char> {
    if input.len() > 0 && input[0] == '~' && home is Some {
        home->Some_0 + input.skip(1)
    } else {
        input
    }
}

/// The directory jump dialog is consistent: its cursor is within its text.
pub open spec fn jump_ok(d: crate::app::DirJumpDialog) -> bool {
    d.cursor <= d.input@.len()
}

impl App {
    /// Handles a key in the directory jump dialog: Esc closes; Enter hands
    /// over the directory to go to (see [`jump_target`]; the dialog stays
    /// open until the caller reports success); other keys edit the input,
    /// and any change of it clears the error.
    #[verifier::rlimit(40)]
    #[verifier::spinoff_prover]
    pub fn handle_dir_jump_key(&mut self, code: KeyCode, mods: KeyModifiers, home: Option<String>) -> (r: Option<String>)
        requires
            old(self).dir_jump_dialog matches Some(d) ==> jump_ok(d) && d.input@.len() < usize::MAX,
        ensures
            final(self).dir_jump_dialog matches Some(d) ==> jump_ok(d),
            *final(self) == (App { dir_jump_dialog: final(self).dir_jump_dialog, ..*old(self) }),
            old(self).dir_jump_dialog is None ==> r is None && *final(self) == *old(self),
            ({
                let d = old(self).dir_jump_dialog->Some_0;
                let nd = final(self).dir_jump_dialog->Some_0;
                let h = match home {
                    Some(x) => Some(x@),
                    None => None,
                };
                &&& (old(self).dir_jump_dialog is Some && code is Esc) ==> r is None && final(self).dir_jump_dialog is None
                &&& (old(self).dir_jump_dialog is Some && code is Enter && mods.bits == 0)
                    ==> final(self).dir_jump_dialog == old(self).dir_jump_dialog
                    && (r matches Some(p) && p@ == jump_target(d.input@, h))
                &&& (old(self).dir_jump_dialog is Some && !(code is Esc) && !(code is Enter && mods.bits == 0)) ==> r is None
                    && final(self).dir_jump_dialog is Some && match edit_line(d.input@, d.cursor as nat, code, mods) {
                        Some((i, c)) => nd.input@ == i && nd.cursor == c && (if code is Backspace || code is Delete || code is Char {
                            nd.error is None
                        } else {
                            nd.error == d.error
                        }),
                        None => nd.input@ == d.input@ && nd.cursor == d.cursor && nd.error == d.error,
                    }
            }),
            final(self).entries@ == old(self).entries@,
    {
        let taken = self.dir_jump_dialog.take();
        let mut d = match taken {
            None => {
                return None;
            },
            Some(d) => d,
        };
        if let KeyCode::Esc = code {
            return None;
        }
        let enter = match code {
            KeyCode::Enter => mods.bits == 0,
            _ => false,
        };
        if enter {
            let target: Vec<char> = if d.input.len() > 0 && d.input[0] == '~' && home.is_some() {
                let h = match home {
                    Some(x) => x,
                    None => String::new(),
                };
                let mut t = chars_of(h.as_str());
                let n = d.input.len();
                let rest = slice_chars(&d.input, 1, n);
                crate::text::push_all(&mut t, &rest);
                t
            } else {
                crate::text::copy_chars(&d.input)
            };
            self.dir_jump_dialog = Some(d);
            Some(string_of(&target))
        } else {
            let changes = match code {
                KeyCode::Backspace | KeyCode::Delete | KeyCode::Char(_) => true,
                _ => false,
            };
            let edited = crate::keys::edit_input(&mut d.input, &mut d.cursor, code, mods);
            if edited && changes {
                d.error = None;
            }
            self.dir_jump_dialog = Some(d);
            None
        }
    }
}

// ── The tree pane ────────────────────────────────────────────────────────

/// What a key does while the tree pane has the focus.
#[derive(Clone, Copy, PartialEq, Eq, Debug, Structural)]
pub enum TreeKey {
    Nothing,
    Up,
    Down,
    Expand,
    Collapse,
    /// Give the focus back to the listing.
    Leave,
    /// Close the tree pane.
    Close,
    Quit,
}

/// The tree pane keys (without modifiers): `k`/up, `j`/down, `l`/right
/// expands, `h`/left/Backspace collapses, Enter leaves, `t`/Tab closes, `q`
/// quits.
pub open spec fn tree_key(code: KeyCode, mods: KeyModifiers) -> TreeKey {
    if mods.bits != 0 {
        TreeKey::Nothing
    } else {
        match code {
            KeyCode::Up => TreeKey::Up,
            KeyCode::Down => TreeKey::Down,
            KeyCode::Right => TreeKey::Expand,
            KeyCode::Left => TreeKey::Collapse,
            KeyCode::Backspace => TreeKey::Collapse,
            KeyCode::Enter => TreeKey::Leave,
            KeyCode::Tab => TreeKey::Close,
            KeyCode::Char(c) => if c == 'k' {
                TreeKey::Up
            } else if c == 'j' {
                TreeKey::Down
            } else if c == 'l' {
                TreeKey::Expand
            } else if c == 'h' {
                TreeKey::Collapse
            } else if c == 't' {
                TreeKey::Close
            } else if c == 'q' {
                TreeKey::Quit
            } else {
                TreeKey::Nothing
            },
            _ => TreeKey::Nothing,
        }
    }
}

/// Executable form of [`tree_key`].
pub fn tree_key_of(code: KeyCode, mods: KeyModifiers) -> (r: TreeKey)
    ensures
        r == tree_key(code, mods),
{
    if mods.bits != 0 {
        return TreeKey::Nothing;
    }
    match code {
        KeyCode::Up => TreeKey::Up,
        KeyCode::Down => TreeKey::Down,
        KeyCode::Right => TreeKey::Expand,
        KeyCode::Left => TreeKey::Collapse,
        KeyCode::Backspace => TreeKey::Collapse,
        KeyCode::Enter => TreeKey::Leave,
        KeyCode::Tab => TreeKey::Close,
        KeyCode::Char(c) => if c == 'k' {
            TreeKey::Up
        } else if c == 'j' {
            TreeKey::Down
        } else if c == 'l' {
            TreeKey::Expand
        } else if c == 'h' {
            TreeKey::Collapse
        } else if c == 't' {
            TreeKey::Close
        } else if c == 'q' {
            TreeKey::Quit
        } else {
            TreeKey::Nothing
        },
        _ => TreeKey::Nothing,
    }
}


// ── Which part of the screen takes a key ────────────────────────────────

/// The part of the listing screen that a key goes to.
#[derive(Clone, Copy, PartialEq, Eq, Debug, Structural)]
pub enum KeyRoute {
    SortDialog,
    FuncDialog,
    /// The open search bar.
    Search,
    GitDialog,
    DirJump,
    RunDialog,
    FileDialog,
    /// The focused tree pane.
    Tree,
    /// F1: show the help.
    Help,
    /// The key map's action for the key.
    Action(Action),
    /// A key with no binding.
    Nothing,
}

/// Where a key goes once any confirmed search has been dealt with: the
/// open dialog (git, directory jump, command line, file dialog, in that
/// order), the focused tree pane, the help on F1, else the key map.
pub open spec fn route_after_search(a: App, code: KeyCode, mods: KeyModifiers) -> KeyRoute {
    if a.git_dialog is Some {
        KeyRoute::GitDialog
    } else if a.dir_jump_dialog is Some {
        KeyRoute::DirJump
    } else if a.run_dialog is Some {
        KeyRoute::RunDialog
    } else if a.file_dialog is Some {
        KeyRoute::FileDialog
    } else if a.tree_open && a.tree_focus {
        KeyRoute::Tree
    } else if code == KeyCode::F(1) && mods.bits == 0 {
        KeyRoute::Help
    } else {
        match lookup_of(a.keymap.view_map(), code, mods) {
            Some(act) => KeyRoute::Action(act),
            None => KeyRoute::Nothing,
        }
    }
}

impl App {
    /// Where a key on the listing screen goes: the sort dialog and the
    /// command palette first, then the open search bar; a confirmed search
    /// is closed by Esc (the first value), and the key then goes on as
    /// [`route_after_search`] says.
    pub fn route_key(&self, code: KeyCode, mods: KeyModifiers) -> (r: (bool, KeyRoute))
        ensures
            r == (if self.show_sort_dialog {
                (false, KeyRoute::SortDialog)
            } else if self.func_dialog is Some {
                (false, KeyRoute::FuncDialog)
            } else if self.search matches Some(s) && !s.confirmed {
                (false, KeyRoute::Search)
            } else {
                (
                    (self.search matches Some(s) && s.confirmed && code is Esc),
                    route_after_search(*self, code, mods),
                )
            }),
    {
        if self.show_sort_dialog {
            return (false, KeyRoute::SortDialog);
        }
        if self.func_dialog.is_some() {
            return (false, KeyRoute::FuncDialog);
        }
        let close = match &self.search {
            Some(s) => {
                if !s.confirmed {
                    return (false, KeyRoute::Search);
                }
                match code {
                    KeyCode::Esc => true,
                    _ => false,
                }
            },
            None => false,
        };
        let route = if self.git_dialog.is_some() {
            KeyRoute::GitDialog
        } else if self.dir_jump_dialog.is_some() {
            KeyRoute::DirJump
        } else if self.run_dialog.is_some() {
            KeyRoute::RunDialog
        } else if self.file_dialog.is_some() {
            KeyRoute::FileDialog
        } else if self.tree_open && self.tree_focus {
            KeyRoute::Tree
        } else if (match code {
            KeyCode::F(n) => n == 1,
            _ => false,
        }) && mods.bits == 0 {
            KeyRoute::Help
        } else {
            match lookup_action(&self.keymap, code, mods) {
                Some(act) => KeyRoute::Action(act),
                None => KeyRoute::Nothing,
            }
        };
        (close, route)
    }
}

} // verus!
