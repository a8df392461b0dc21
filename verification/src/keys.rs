//! The key handling of the git dialog and of the file operation dialogs:
//! from the dialog state and a key press to the next state and the command
//! the caller carries out (running git, copying files, ...), and the line
//! editing that every text input shares.
use vstd::prelude::*;
use crate::app::{
    is_dotdot, name_is_dotdot, App, ConflictChoice, DialogKind, FileDialog, FileEntry, GitDialog,
    GitDialogState, OverwritePrompt, RemoteOp,
};
use crate::fs_utils::string_views;
use crate::keymap::{KeyCode, KeyModifiers};
use crate::text::{blank, chars_of, is_blank, string_of, trim, trim_chars};

verus! {

// ── Line editing ─────────────────────────────────────────────────────────

/// The effect of an editing key on a text input and its cursor: moving
/// (left, right, home, end), deleting before or at the cursor, or inserting
/// a character typed with or without Shift. `None` for any other key.
pub open spec fn edit_line(input: Seq<char>, cursor: nat, code: KeyCode, mods: KeyModifiers) -> Option<
    (Seq<char>, nat),
> {
    match code {
        KeyCode::Left => Some((input, if cursor > 0 { (cursor - 1) as nat } else { cursor })),
        KeyCode::Right => Some((input, if cursor < input.len() { cursor + 1 } else { cursor })),
        KeyCode::Home => Some((input, 0)),
        KeyCode::End => Some((input, input.len())),
        KeyCode::Backspace => if cursor > 0 {
            Some((input.remove(cursor - 1), (cursor - 1) as nat))
        } else {
            Some((input, cursor))
        },
        KeyCode::Delete => if cursor < input.len() {
            Some((input.remove(cursor as int), cursor))
        } else {
            Some((input, cursor))
        },
        KeyCode::Char(c) => if mods.bits == 0 || mods.bits == 1 {
            Some((input.insert(cursor as int, c), cursor + 1))
        } else {
            None
        },
        _ => None,
    }
}

/// Applies an editing key to a text input (see [`edit_line`]); says
/// whether the key was an editing key.
pub fn edit_input(input: &mut Vec<char>, cursor: &mut usize, code: KeyCode, mods: KeyModifiers) -> (r: bool)
    requires
        *old(cursor) <= old(input)@.len(),
        old(input)@.len() < usize::MAX,
    ensures
        match edit_line(old(input)@, *old(cursor) as nat, code, mods) {
            Some((i, c)) => r && final(input)@ == i && *final(cursor) == c,
            None => !r && final(input)@ == old(input)@ && *final(cursor) == *old(cursor),
        },
        *final(cursor) <= final(input)@.len(),
{
    match code {
        KeyCode::Left => {
            if *cursor > 0 {
                *cursor = *cursor - 1;
            }
            true
        },
        KeyCode::Right => {
            if *cursor < input.len() {
                *cursor = *cursor + 1;
            }
            true
        },
        KeyCode::Home => {
            *cursor = 0;
            true
        },
        KeyCode::End => {
            *cursor = input.len();
            true
        },
        KeyCode::Backspace => {
            if *cursor > 0 {
                *cursor = *cursor - 1;
                input.remove(*cursor);
            }
            true
        },
        KeyCode::Delete => {
            if *cursor < input.len() {
                input.remove(*cursor);
            }
            true
        },
        KeyCode::Char(c) => {
            if mods.bits == 0 || mods.bits == 1 {
                input.insert(*cursor, c);
                *cursor = *cursor + 1;
                true
            } else {
                false
            }
        },
        _ => false,
    }
}

// ── The git dialog ───────────────────────────────────────────────────────

/// The number of lines of the git menu.
pub const GIT_MENU_LEN: usize = 10;

/// What a key does in the git menu.
#[derive(Clone, Copy, PartialEq, Eq, Debug, Structural)]
pub enum GitMenuChoice {
    Nothing,
    Close,
    /// The menu cursor moves to this line.
    Cursor(usize),
    AddTargets,
    AddAll,
    OpenCommit,
    OpenRemote(RemoteOp),
    Merge,
    OpenSwitch,
    OpenStash,
    StashPop,
}

/// The choice of menu line `i` (Enter): add, add all, commit, fetch, push,
/// pull, merge, switch, stash, stash pop.
pub open spec fn menu_line(i: nat) -> GitMenuChoice {
    if i == 0 {
        GitMenuChoice::AddTargets
    } else if i == 1 {
        GitMenuChoice::AddAll
    } else if i == 2 {
        GitMenuChoice::OpenCommit
    } else if i == 3 {
        GitMenuChoice::OpenRemote(RemoteOp::Fetch)
    } else if i == 4 {
        GitMenuChoice::OpenRemote(RemoteOp::Push)
    } else if i == 5 {
        GitMenuChoice::OpenRemote(RemoteOp::Pull)
    } else if i == 6 {
        GitMenuChoice::Merge
    } else if i == 7 {
        GitMenuChoice::OpenSwitch
    } else if i == 8 {
        GitMenuChoice::OpenStash
    } else if i == 9 {
        GitMenuChoice::StashPop
    } else {
        GitMenuChoice::Nothing
    }
}

/// What a key does in the git menu with the cursor on line `mc`, and
/// whether the choice came from the Enter key: Esc closes, `k`/`j` and the
/// arrows move, Enter takes the line, and each letter takes its action
/// (`a` add, `A` add all, `c` commit, `f` fetch, `p` push, `P` pull, `m`
/// merge, `s` switch, `t` stash, `T` stash pop).
pub open spec fn menu_choice(mc: nat, code: KeyCode, mods: KeyModifiers) -> (GitMenuChoice, bool) {
    let none = mods.bits == 0;
    let none_or_shift = mods.bits == 0 || mods.bits == 1;
    match code {
        KeyCode::Esc => (GitMenuChoice::Close, false),
        KeyCode::Up => (GitMenuChoice::Cursor(if mc > 0 { (mc - 1) as usize } else { mc as usize }), false),
        KeyCode::Down => (GitMenuChoice::Cursor(if mc + 1 < 10 { (mc + 1) as usize } else { mc as usize }), false),
        KeyCode::Enter => if none {
            (menu_line(mc), true)
        } else {
            (GitMenuChoice::Nothing, false)
        },
        KeyCode::Char(ch) => if ch == 'k' {
            (GitMenuChoice::Cursor(if mc > 0 { (mc - 1) as usize } else { mc as usize }), false)
        } else if ch == 'j' {
            (GitMenuChoice::Cursor(if mc + 1 < 10 { (mc + 1) as usize } else { mc as usize }), false)
        } else if ch == 'a' && none {
            (GitMenuChoice::AddTargets, false)
        } else if ch == 'A' && none_or_shift {
            (GitMenuChoice::AddAll, false)
        } else if ch == 'c' && none {
            (GitMenuChoice::OpenCommit, false)
        } else if ch == 'f' && none {
            (GitMenuChoice::OpenRemote(RemoteOp::Fetch), false)
        } else if ch == 'p' && none {
            (GitMenuChoice::OpenRemote(RemoteOp::Push), false)
        } else if ch == 'P' && none_or_shift {
            (GitMenuChoice::OpenRemote(RemoteOp::Pull), false)
        } else if ch == 's' && none {
            (GitMenuChoice::OpenSwitch, false)
        } else if ch == 'm' && none {
            (GitMenuChoice::Merge, false)
        } else if ch == 't' && none {
            (GitMenuChoice::OpenStash, false)
        } else if ch == 'T' && none_or_shift {
            (GitMenuChoice::StashPop, false)
        } else {
            (GitMenuChoice::Nothing, false)
        },
        _ => (GitMenuChoice::Nothing, false),
    }
}

fn menu_line_exec(i: usize) -> (r: GitMenuChoice)
    ensures
        r == menu_line(i as nat),
{
    if i == 0 {
        GitMenuChoice::AddTargets
    } else if i == 1 {
        GitMenuChoice::AddAll
    } else if i == 2 {
        GitMenuChoice::OpenCommit
    } else if i == 3 {
        GitMenuChoice::OpenRemote(RemoteOp::Fetch)
    } else if i == 4 {
        GitMenuChoice::OpenRemote(RemoteOp::Push)
    } else if i == 5 {
        GitMenuChoice::OpenRemote(RemoteOp::Pull)
    } else if i == 6 {
        GitMenuChoice::Merge
    } else if i == 7 {
        GitMenuChoice::OpenSwitch
    } else if i == 8 {
        GitMenuChoice::OpenStash
    } else if i == 9 {
        GitMenuChoice::StashPop
    } else {
        GitMenuChoice::Nothing
    }
}

/// Executable form of [`menu_choice`].
pub fn git_menu_choice(mc: usize, code: KeyCode, mods: KeyModifiers) -> (r: (GitMenuChoice, bool))
    requires
        mc < usize::MAX,
    ensures
        r == menu_choice(mc as nat, code, mods),
{
    let none = mods.bits == 0;
    let none_or_shift = mods.bits == 0 || mods.bits == 1;
    let up = GitMenuChoice::Cursor(if mc > 0 { mc - 1 } else { mc });
    let down = GitMenuChoice::Cursor(if mc + 1 < GIT_MENU_LEN { mc + 1 } else { mc });
    match code {
        KeyCode::Esc => (GitMenuChoice::Close, false),
        KeyCode::Up => (up, false),
        KeyCode::Down => (down, false),
        KeyCode::Enter => if none {
            (menu_line_exec(mc), true)
        } else {
            (GitMenuChoice::Nothing, false)
        },
        KeyCode::Char(ch) => if ch == 'k' {
            (up, false)
        } else if ch == 'j' {
            (down, false)
        } else if ch == 'a' && none {
            (GitMenuChoice::AddTargets, false)
        } else if ch == 'A' && none_or_shift {
            (GitMenuChoice::AddAll, false)
        } else if ch == 'c' && none {
            (GitMenuChoice::OpenCommit, false)
        } else if ch == 'f' && none {
            (GitMenuChoice::OpenRemote(RemoteOp::Fetch), false)
        } else if ch == 'p' && none {
            (GitMenuChoice::OpenRemote(RemoteOp::Push), false)
        } else if ch == 'P' && none_or_shift {
            (GitMenuChoice::OpenRemote(RemoteOp::Pull), false)
        } else if ch == 's' && none {
            (GitMenuChoice::OpenSwitch, false)
        } else if ch == 'm' && none {
            (GitMenuChoice::Merge, false)
        } else if ch == 't' && none {
            (GitMenuChoice::OpenStash, false)
        } else if ch == 'T' && none_or_shift {
            (GitMenuChoice::StashPop, false)
        } else {
            (GitMenuChoice::Nothing, false)
        },
        _ => (GitMenuChoice::Nothing, false),
    }
}


/// The command that a key in the git dialog leaves to the caller.
pub enum GitCommand {
    Nothing,
    /// `git add` these names; `via_menu` when chosen with Enter.
    Add { targets: Vec<String>, via_menu: bool },
    /// `git add .`.
    AddAll { via_menu: bool },
    /// `git commit -m` with this message.
    Commit(String),
    /// A no-fast-forward merge.
    Merge { via_menu: bool },
    /// `git switch` to this branch.
    Switch(String),
    /// `git stash push`, with this message unless it is blank.
    StashPush(String),
    /// `git stash pop`.
    StashPop { via_menu: bool },
    /// A remote operation, run in the background, with this passphrase.
    Remote { op: RemoteOp, passphrase: String },
}

/// The names `git add` acts on: the tagged entries, or else the cursor
/// entry unless it is `..`.
pub open spec fn git_add_names(es: Seq<FileEntry>, ts: Seq<bool>, cursor: nat) -> Seq<Seq<char>> {
    let tagged = all_tagged_names(es, ts);
    if tagged.len() > 0 {
        tagged
    } else if cursor < es.len() && !is_dotdot(es[cursor as int].name@) {
        seq![es[cursor as int].name@]
    } else {
        seq![]
    }
}

/// The names of the tagged entries (entries and tags paired up to the
/// shorter of the two).
pub open spec fn all_tagged_names(es: Seq<FileEntry>, ts: Seq<bool>) -> Seq<Seq<char>>
    decreases es.len(),
{
    if es.len() == 0 || ts.len() == 0 {
        seq![]
    } else {
        let n = if es.len() <= ts.len() { es.len() } else { ts.len() };
        let rest = all_tagged_names(es.take(n - 1), ts.take(n - 1));
        if ts[n - 1] {
            rest.push(es[n - 1].name@)
        } else {
            rest
        }
    }
}

/// The text and cursor of a git dialog input state.
pub open spec fn git_input(s: GitDialogState) -> (Seq<char>, nat) {
    match s {
        GitDialogState::Menu => (seq![], 0),
        GitDialogState::CommitMsg { input, cursor } => (input@, cursor as nat),
        GitDialogState::SwitchBranch { input, cursor } => (input@, cursor as nat),
        GitDialogState::StashMsg { input, cursor } => (input@, cursor as nat),
        GitDialogState::Passphrase { op, input, cursor } => (input@, cursor as nat),
    }
}

/// The git dialog state is consistent: its cursor is within its input.
pub open spec fn git_state_ok(s: GitDialogState) -> bool {
    git_input(s).1 <= git_input(s).0.len()
}

/// `a` and `b` are the same kind of git dialog state (and the same remote
/// operation).
pub open spec fn same_git_kind(a: GitDialogState, b: GitDialogState) -> bool {
    match (a, b) {
        (GitDialogState::Menu, GitDialogState::Menu) => true,
        (GitDialogState::CommitMsg { .. }, GitDialogState::CommitMsg { .. }) => true,
        (GitDialogState::SwitchBranch { .. }, GitDialogState::SwitchBranch { .. }) => true,
        (GitDialogState::StashMsg { .. }, GitDialogState::StashMsg { .. }) => true,
        (GitDialogState::Passphrase { op: p, .. }, GitDialogState::Passphrase { op: q, .. }) => p == q,
        _ => false,
    }
}

/// An input state of the git dialog that is empty.
pub open spec fn fresh_input(s: GitDialogState) -> bool {
    git_input(s).0.len() == 0 && git_input(s).1 == 0
}

/// `b` is `a` with at most the git dialog, the git menu cursor, the error
/// message and the running flag changed: every other field, the directory,
/// the listing and the success message among them, is kept.
pub open spec fn git_frame(a: App, b: App) -> bool {
    b == (App {
        git_dialog: b.git_dialog,
        git_menu_cursor: b.git_menu_cursor,
        error_msg: b.error_msg,
        git_running: b.git_running,
        ..a
    })
}

fn git_add_targets(app: &App) -> (r: Vec<String>)
    ensures
        string_views(r@) == git_add_names(app.entries@, app.tagged@, app.cursor as nat),
{
    let n = if app.entries.len() <= app.tagged.len() {
        app.entries.len()
    } else {
        app.tagged.len()
    };
    let mut out: Vec<String> = Vec::new();
    let mut i: usize = 0;
    while i < n
        invariant
            i <= n,
            n == (if app.entries.len() <= app.tagged.len() { app.entries.len() } else { app.tagged.len() }),
            string_views(out@) == all_tagged_names(app.entries@.take(i as int), app.tagged@.take(i as int)),
        decreases n - i,
    {
        let ghost before = string_views(out@);
        proof {
            let es = app.entries@.take(i + 1);
            let ts = app.tagged@.take(i + 1);
            assert(es.take(i as int) =~= app.entries@.take(i as int));
            assert(ts.take(i as int) =~= app.tagged@.take(i as int));
        }
        if app.tagged[i] {
            out.push(app.entries[i].name.clone());
            assert(string_views(out@) =~= before.push(app.entries@[i as int].name@));
        } else {
            assert(string_views(out@) =~= before);
        }
        i += 1;
    }
    proof {
        let es = app.entries@;
        let ts = app.tagged@;
        if n > 0 {
            assert(es.take(n as int).take(n - 1) =~= es.take(n - 1));
            assert(ts.take(n as int).take(n - 1) =~= ts.take(n - 1));
        } else {
            assert(es.take(0) =~= Seq::<FileEntry>::empty());
        }
    }
    if out.len() > 0 {
        out
    } else if app.cursor < app.entries.len() && !name_is_dotdot(&app.entries[app.cursor].name) {
        let mut v: Vec<String> = Vec::new();
        v.push(app.entries[app.cursor].name.clone());
        assert(string_views(v@) =~= seq![app.entries@[app.cursor as int].name@]);
        v
    } else {
        let v: Vec<String> = Vec::new();
        assert(string_views(v@) =~= Seq::<Seq<char>>::empty());
        v
    }
}

fn msg(s: &str) -> (r: Option<String>)
    ensures
        r matches Some(m) && m@ == s@,
{
    Some(string_of(&chars_of(s)))
}

impl App {
    /// A key in the git menu (the dialog already taken out).
    #[verifier::rlimit(60)]
    #[verifier::spinoff_prover]
    fn git_menu_key(&mut self, code: KeyCode, mods: KeyModifiers) -> (r: GitCommand)
        requires
            old(self).git_menu_cursor < usize::MAX,
            old(self).git_dialog is None,
        ensures
            ({
                let (ch, via) = menu_choice(old(self).git_menu_cursor as nat, code, mods);
                let t = git_add_names(old(self).entries@, old(self).tagged@, old(self).cursor as nat);
                &&& ch is Cursor ==> final(self).git_menu_cursor == ch->Cursor_0
                &&& !(ch is Cursor) ==> final(self).git_menu_cursor == old(self).git_menu_cursor
                &&& (ch is Nothing || ch is Cursor) ==> (final(self).git_dialog matches Some(d) && d.state is Menu) && r is Nothing
                &&& ch is Close ==> final(self).git_dialog is None && r is Nothing
                &&& (ch is AddTargets && t.len() == 0) ==> final(self).git_dialog is None && r is Nothing
                    && (final(self).error_msg matches Some(m) && m@ == "対象ファイルがありません"@)
                &&& (ch is AddTargets && t.len() > 0) ==> final(self).git_dialog is None
                    && (r matches GitCommand::Add { targets, via_menu } && string_views(targets@) == t && via_menu == via)
                &&& ch is AddAll ==> final(self).git_dialog is None && (r matches GitCommand::AddAll { via_menu } && via_menu == via)
                &&& ch is Merge ==> final(self).git_dialog is None && (r matches GitCommand::Merge { via_menu } && via_menu == via)
                &&& ch is StashPop ==> final(self).git_dialog is None && (r matches GitCommand::StashPop { via_menu } && via_menu == via)
                &&& ch is OpenCommit ==> (final(self).git_dialog matches Some(d) && d.state is CommitMsg && fresh_input(d.state)) && r is Nothing
                &&& ch is OpenSwitch ==> (final(self).git_dialog matches Some(d) && d.state is SwitchBranch && fresh_input(d.state)) && r is Nothing
                &&& ch is OpenStash ==> (final(self).git_dialog matches Some(d) && d.state is StashMsg && fresh_input(d.state)) && r is Nothing
                &&& ch is OpenRemote ==> (final(self).git_dialog matches Some(d) && (d.state matches GitDialogState::Passphrase { op, .. } && op == ch->OpenRemote_0) && fresh_input(d.state)) && r is Nothing
                &&& !(ch is AddTargets && t.len() == 0) ==> final(self).error_msg == old(self).error_msg
            }),
            git_frame(*old(self), *final(self)),
            final(self).entries@ == old(self).entries@,
            final(self).cursor == old(self).cursor,
            final(self).git_running == old(self).git_running,
            final(self).git_dialog matches Some(d) ==> git_state_ok(d.state),
    {
        let (ch, via) = git_menu_choice(self.git_menu_cursor, code, mods);
        match ch {
            GitMenuChoice::Nothing => {
                self.git_dialog = Some(GitDialog { state: GitDialogState::Menu });
                GitCommand::Nothing
            },
            GitMenuChoice::Cursor(n) => {
                self.git_menu_cursor = n;
                self.git_dialog = Some(GitDialog { state: GitDialogState::Menu });
                GitCommand::Nothing
            },
            GitMenuChoice::Close => GitCommand::Nothing,
            GitMenuChoice::AddTargets => {
                let t = git_add_targets(self);
                if t.len() == 0 {
                    self.error_msg = msg("対象ファイルがありません");
                    GitCommand::Nothing
                } else {
                    GitCommand::Add { targets: t, via_menu: via }
                }
            },
            GitMenuChoice::AddAll => GitCommand::AddAll { via_menu: via },
            GitMenuChoice::Merge => GitCommand::Merge { via_menu: via },
            GitMenuChoice::StashPop => GitCommand::StashPop { via_menu: via },
            GitMenuChoice::OpenCommit => {
                self.git_dialog = Some(GitDialog { state: GitDialogState::CommitMsg { input: Vec::new(), cursor: 0 } });
                GitCommand::Nothing
            },
            GitMenuChoice::OpenSwitch => {
                self.git_dialog = Some(GitDialog { state: GitDialogState::SwitchBranch { input: Vec::new(), cursor: 0 } });
                GitCommand::Nothing
            },
            GitMenuChoice::OpenStash => {
                self.git_dialog = Some(GitDialog { state: GitDialogState::StashMsg { input: Vec::new(), cursor: 0 } });
                GitCommand::Nothing
            },
            GitMenuChoice::OpenRemote(op) => {
                self.git_dialog = Some(GitDialog { state: GitDialogState::Passphrase { op, input: Vec::new(), cursor: 0 } });
                GitCommand::Nothing
            },
        }
    }

    /// Handles a key in the git dialog: the menu moves, runs or opens an
    /// input; an input edits its text, goes back to the menu on Esc, and on
    /// Enter closes and hands its command over (a blank commit message or
    /// branch name is refused with a message instead). The caller runs the
    /// returned command.
    #[verifier::rlimit(80)]
    #[verifier::spinoff_prover]
    pub fn handle_git_dialog_key(&mut self, code: KeyCode, mods: KeyModifiers) -> (r: GitCommand)
        requires
            old(self).git_menu_cursor < usize::MAX,
            old(self).git_dialog matches Some(d) ==> git_state_ok(d.state) && git_input(d.state).0.len() < usize::MAX,
        ensures
            old(self).git_dialog is None ==> r is Nothing && *final(self) == *old(self),
            git_frame(*old(self), *final(self)),
            final(self).entries@ == old(self).entries@,
            final(self).cursor == old(self).cursor,
            final(self).git_dialog matches Some(d) ==> git_state_ok(d.state),
            // The menu.
            (old(self).git_dialog matches Some(d) && d.state is Menu) ==> ({
                let (ch, via) = menu_choice(old(self).git_menu_cursor as nat, code, mods);
                let t = git_add_names(old(self).entries@, old(self).tagged@, old(self).cursor as nat);
                &&& ch is Cursor ==> final(self).git_menu_cursor == ch->Cursor_0
                &&& (ch is Nothing || ch is Cursor) ==> (final(self).git_dialog matches Some(d) && d.state is Menu) && r is Nothing
                &&& ch is Close ==> final(self).git_dialog is None && r is Nothing
                &&& (ch is AddTargets && t.len() == 0) ==> final(self).git_dialog is None && r is Nothing
                    && (final(self).error_msg matches Some(m) && m@ == "対象ファイルがありません"@)
                &&& (ch is AddTargets && t.len() > 0) ==> final(self).git_dialog is None
                    && (r matches GitCommand::Add { targets, via_menu } && string_views(targets@) == t && via_menu == via)
                &&& ch is AddAll ==> final(self).git_dialog is None && (r matches GitCommand::AddAll { via_menu } && via_menu == via)
                &&& ch is Merge ==> final(self).git_dialog is None && (r matches GitCommand::Merge { via_menu } && via_menu == via)
                &&& ch is StashPop ==> final(self).git_dialog is None && (r matches GitCommand::StashPop { via_menu } && via_menu == via)
                &&& ch is OpenCommit ==> (final(self).git_dialog matches Some(d) && d.state is CommitMsg && fresh_input(d.state)) && r is Nothing
                &&& ch is OpenSwitch ==> (final(self).git_dialog matches Some(d) && d.state is SwitchBranch && fresh_input(d.state)) && r is Nothing
                &&& ch is OpenStash ==> (final(self).git_dialog matches Some(d) && d.state is StashMsg && fresh_input(d.state)) && r is Nothing
                &&& ch is OpenRemote ==> (final(self).git_dialog matches Some(d) && (d.state matches GitDialogState::Passphrase { op, .. } && op == ch->OpenRemote_0) && fresh_input(d.state)) && r is Nothing
                &&& !(ch is Cursor) ==> final(self).git_menu_cursor == old(self).git_menu_cursor
                &&& !(ch is AddTargets && t.len() == 0) ==> final(self).error_msg == old(self).error_msg
                &&& final(self).git_running == old(self).git_running
            }),
            // An input state.
            ({
                let st = old(self).git_dialog->Some_0.state;
                let (text, cur) = git_input(st);
                &&& (old(self).git_dialog is Some && !(st is Menu) && code is Esc) ==> (final(self).git_dialog matches Some(d2) && d2.state is Menu) && r is Nothing
                &&& (old(self).git_dialog is Some && !(st is Menu) && code is Enter && mods.bits == 0) ==> final(self).git_dialog is None
                &&& (old(self).git_dialog is Some && st is CommitMsg && code is Enter && mods.bits == 0) ==> (if is_blank(text) {
                    r is Nothing && (final(self).error_msg matches Some(m) && m@ == "コミットメッセージを入力してください"@)
                } else {
                    r matches GitCommand::Commit(m) && m@ == text
                })
                &&& (old(self).git_dialog is Some && st is SwitchBranch && code is Enter && mods.bits == 0) ==> (if is_blank(text) {
                    r is Nothing && (final(self).error_msg matches Some(m) && m@ == "ブランチ名を入力してください"@)
                } else {
                    r matches GitCommand::Switch(b) && b@ == trim(text)
                })
                &&& (old(self).git_dialog is Some && st is StashMsg && code is Enter && mods.bits == 0) ==> (r matches GitCommand::StashPush(m) && m@ == text)
                &&& (old(self).git_dialog is Some && st is Passphrase && code is Enter && mods.bits == 0) ==> (r matches GitCommand::Remote { op: o, passphrase } && o == st->Passphrase_op && passphrase@ == text) && final(self).git_running
                &&& (old(self).git_dialog is Some && !(st is Menu)) ==> final(self).git_menu_cursor == old(self).git_menu_cursor
                &&& (old(self).git_dialog is Some && !(st is Menu)) ==> final(self).git_running == (old(self).git_running
                    || (st is Passphrase && code is Enter && mods.bits == 0))
                &&& (old(self).git_dialog is Some && !(st is Menu)
                    && !((st is CommitMsg || st is SwitchBranch) && code is Enter && mods.bits == 0 && is_blank(text)))
                    ==> final(self).error_msg == old(self).error_msg
                &&& (old(self).git_dialog is Some && !(st is Menu) && !(code is Esc) && !(code is Enter && mods.bits == 0)) ==> (r is Nothing && (final(self).git_dialog matches Some(d2) && same_git_kind(st, d2.state) && match edit_line(text, cur, code, mods) {
                    Some((t2, c2)) => git_input(d2.state) == (t2, c2),
                    None => git_input(d2.state) == (text, cur),
                }))
            }),
    {
        let d = self.git_dialog.take();
        match d {
            None => GitCommand::Nothing,
            Some(dlg) => match dlg.state {
                GitDialogState::Menu => self.git_menu_key(code, mods),
                GitDialogState::CommitMsg { input, cursor } => {
                    if let KeyCode::Esc = code {
                        self.git_dialog = Some(GitDialog { state: GitDialogState::Menu });
                        GitCommand::Nothing
                    } else if (match code { KeyCode::Enter => true, _ => false }) && mods.bits == 0 {
                        if blank(&input) {
                            self.error_msg = msg("コミットメッセージを入力してください");
                            GitCommand::Nothing
                        } else {
                            GitCommand::Commit(string_of(&input))
                        }
                    } else {
                        let mut input = input;
                        let mut cursor = cursor;
                        edit_input(&mut input, &mut cursor, code, mods);
                        self.git_dialog = Some(GitDialog { state: GitDialogState::CommitMsg { input, cursor } });
                        GitCommand::Nothing
                    }
                },
                GitDialogState::SwitchBranch { input, cursor } => {
                    if let KeyCode::Esc = code {
                        self.git_dialog = Some(GitDialog { state: GitDialogState::Menu });
                        GitCommand::Nothing
                    } else if (match code { KeyCode::Enter => true, _ => false }) && mods.bits == 0 {
                        let t = trim_chars(&input);
                        if t.len() == 0 {
                            self.error_msg = msg("ブランチ名を入力してください");
                            GitCommand::Nothing
                        } else {
                            GitCommand::Switch(string_of(&t))
                        }
                    } else {
                        let mut input = input;
                        let mut cursor = cursor;
                        edit_input(&mut input, &mut cursor, code, mods);
                        self.git_dialog = Some(GitDialog { state: GitDialogState::SwitchBranch { input, cursor } });
                        GitCommand::Nothing
                    }
                },
                GitDialogState::StashMsg { input, cursor } => {
                    if let KeyCode::Esc = code {
                        self.git_dialog = Some(GitDialog { state: GitDialogState::Menu });
                        GitCommand::Nothing
                    } else if (match code { KeyCode::Enter => true, _ => false }) && mods.bits == 0 {
                        GitCommand::StashPush(string_of(&input))
                    } else {
                        let mut input = input;
                        let mut cursor = cursor;
                        edit_input(&mut input, &mut cursor, code, mods);
                        self.git_dialog = Some(GitDialog { state: GitDialogState::StashMsg { input, cursor } });
                        GitCommand::Nothing
                    }
                },
                GitDialogState::Passphrase { op, input, cursor } => {
                    if let KeyCode::Esc = code {
                        self.git_dialog = Some(GitDialog { state: GitDialogState::Menu });
                        GitCommand::Nothing
                    } else if (match code { KeyCode::Enter => true, _ => false }) && mods.bits == 0 {
                        self.git_running = true;
                        GitCommand::Remote { op, passphrase: string_of(&input) }
                    } else {
                        let mut input = input;
                        let mut cursor = cursor;
                        edit_input(&mut input, &mut cursor, code, mods);
                        self.git_dialog = Some(GitDialog { state: GitDialogState::Passphrase { op, input, cursor } });
                        GitCommand::Nothing
                    }
                },
            },
        }
    }
}


// ── Running git commands ─────────────────────────────────────────────────

fn strings2(a: &str, b: &str) -> (r: Vec<String>)
    ensures
        string_views(r@) == seq![a@, b@],
{
    let mut v: Vec<String> = Vec::new();
    v.push(string_of(&chars_of(a)));
    v.push(string_of(&chars_of(b)));
    assert(string_views(v@) =~= seq![a@, b@]);
    v
}

/// The `git` arguments of a local command (none for `Nothing` and for a
/// remote operation, which needs the branch or the passphrase first).
pub open spec fn git_args_of(cmd: GitCommand) -> Seq<Seq<char>> {
    match cmd {
        GitCommand::Add { targets, .. } => seq!["add"@] + string_views(targets@),
        GitCommand::AddAll { .. } => seq!["add"@, "."@],
        GitCommand::Commit(m) => seq!["commit"@, "-m"@, m@],
        GitCommand::Merge { .. } => seq!["merge"@, "--no-ff"@],
        GitCommand::Switch(b) => seq!["switch"@, b@],
        GitCommand::StashPush(m) => crate::fs_utils::stash_push_argv(m@),
        GitCommand::StashPop { .. } => seq!["stash"@, "pop"@],
        _ => seq![],
    }
}

/// The `git` arguments of a local command.
pub fn git_argv(cmd: &GitCommand) -> (r: Vec<String>)
    ensures
        string_views(r@) == git_args_of(*cmd),
{
    match cmd {
        GitCommand::Add { targets, .. } => {
            let mut v: Vec<String> = Vec::new();
            v.push(string_of(&chars_of("add")));
            let mut i: usize = 0;
            while i < targets.len()
                invariant
                    i <= targets.len(),
                    string_views(v@) == seq!["add"@] + string_views(targets@).take(i as int),
                decreases targets.len() - i,
            {
                let ghost before = string_views(v@);
                v.push(targets[i].clone());
                assert(string_views(v@) =~= before.push(targets@[i as int]@));
                i += 1;
                assert(string_views(v@) =~= seq!["add"@] + string_views(targets@).take(i as int));
            }
            assert(string_views(targets@).take(targets.len() as int) =~= string_views(targets@));
            v
        },
        GitCommand::AddAll { .. } => strings2("add", "."),
        GitCommand::Commit(m) => {
            let mut v = strings2("commit", "-m");
            let ghost before = string_views(v@);
            v.push(m.clone());
            assert(string_views(v@) =~= before.push(m@));
            v
        },
        GitCommand::Merge { .. } => strings2("merge", "--no-ff"),
        GitCommand::Switch(b) => {
            let mut v: Vec<String> = Vec::new();
            v.push(string_of(&chars_of("switch")));
            v.push(b.clone());
            assert(string_views(v@) =~= seq!["switch"@, b@]);
            v
        },
        GitCommand::StashPush(m) => crate::fs_utils::git_stash_push(m.as_str()),
        GitCommand::StashPop { .. } => strings2("stash", "pop"),
        _ => {
            let v: Vec<String> = Vec::new();
            assert(string_views(v@) =~= Seq::<Seq<char>>::empty());
            v
        },
    }
}

/// The message after a local command succeeded, in English when asked
/// (an add, add all, merge or stash pop chosen from the menu with Enter
/// always reports in Japanese).
pub open spec fn git_done_text(cmd: GitCommand, en: bool) -> Seq<char> {
    match cmd {
        GitCommand::Add { targets, via_menu } => if en && !via_menu {
            crate::num::dec(targets@.len()) + " file(s) added."@
        } else {
            crate::num::dec(targets@.len()) + " 件をステージしました。"@
        },
        GitCommand::AddAll { via_menu } => if en && !via_menu {
            "All changes staged."@
        } else {
            "全変更をステージしました。"@
        },
        GitCommand::Commit(_) => if en {
            "Committed."@
        } else {
            "コミットしました。"@
        },
        GitCommand::Merge { via_menu } => if en && !via_menu {
            "Merge completed."@
        } else {
            "マージが完了しました。"@
        },
        GitCommand::Switch(b) => if en {
            "Switched to branch '"@ + b@ + "'."@
        } else {
            "ブランチ '"@ + b@ + "' に切り替えました。"@
        },
        GitCommand::StashPush(_) => if en {
            "Stash saved."@
        } else {
            "スタッシュに保存しました。"@
        },
        GitCommand::StashPop { via_menu } => if en && !via_menu {
            "Stash popped."@
        } else {
            "スタッシュを取り出しました。"@
        },
        GitCommand::Remote { .. } => if en {
            "Git operation completed successfully."@
        } else {
            "Git 操作が完了しました。"@
        },
        GitCommand::Nothing => seq![],
    }
}

fn append(v: &mut Vec<char>, s: &str)
    ensures
        final(v)@ == old(v)@ + s@,
{
    let cs = chars_of(s);
    let ghost o = v@;
    let mut k: usize = 0;
    while k < cs.len()
        invariant
            k <= cs.len(),
            v@ == o + cs@.take(k as int),
        decreases cs.len() - k,
    {
        v.push(cs[k]);
        k += 1;
        assert(v@ =~= o + cs@.take(k as int));
    }
    assert(cs@.take(cs.len() as int) =~= cs@);
}

/// The message after a command succeeded.
pub fn git_done_message(cmd: &GitCommand, lang_en: bool) -> (r: String)
    ensures
        r@ == git_done_text(*cmd, lang_en),
{
    let mut v: Vec<char> = Vec::new();
    match cmd {
        GitCommand::Add { targets, via_menu } => {
            crate::num::push_dec(&mut v, targets.len() as u64);
            if lang_en && !*via_menu {
                append(&mut v, " file(s) added.");
            } else {
                append(&mut v, " 件をステージしました。");
            }
        },
        GitCommand::AddAll { via_menu } => {
            if lang_en && !*via_menu {
                append(&mut v, "All changes staged.");
            } else {
                append(&mut v, "全変更をステージしました。");
            }
        },
        GitCommand::Commit(_) => {
            if lang_en {
                append(&mut v, "Committed.");
            } else {
                append(&mut v, "コミットしました。");
            }
        },
        GitCommand::Merge { via_menu } => {
            if lang_en && !*via_menu {
                append(&mut v, "Merge completed.");
            } else {
                append(&mut v, "マージが完了しました。");
            }
        },
        GitCommand::Switch(b) => {
            if lang_en {
                append(&mut v, "Switched to branch '");
                append(&mut v, b.as_str());
                append(&mut v, "'.");
            } else {
                append(&mut v, "ブランチ '");
                append(&mut v, b.as_str());
                append(&mut v, "' に切り替えました。");
            }
        },
        GitCommand::StashPush(_) => {
            if lang_en {
                append(&mut v, "Stash saved.");
            } else {
                append(&mut v, "スタッシュに保存しました。");
            }
        },
        GitCommand::StashPop { via_menu } => {
            if lang_en && !*via_menu {
                append(&mut v, "Stash popped.");
            } else {
                append(&mut v, "スタッシュを取り出しました。");
            }
        },
        GitCommand::Remote { .. } => {
            if lang_en {
                append(&mut v, "Git operation completed successfully.");
            } else {
                append(&mut v, "Git 操作が完了しました。");
            }
        },
        GitCommand::Nothing => {},
    }
    assert(v@ =~= git_done_text(*cmd, lang_en));
    string_of(&v)
}


// ── The file operation dialogs ───────────────────────────────────────────

/// What a key does in the conflict dialog (a name exists at the
/// destination).
#[derive(Clone, Copy, PartialEq, Eq, Debug, Structural)]
pub enum ConflictKey {
    Nothing,
    Up,
    Down,
    /// Go on with this choice for the conflict, and this choice for all the
    /// remaining ones (Shift).
    Resume(ConflictChoice, Option<ConflictChoice>),
    /// Open the input for a new name.
    OpenRename,
    /// Stop the whole operation.
    Abort,
}

/// The conflict dialog keys: `k`/`j` and the arrows move the highlight;
/// Enter takes the highlighted choice (if newer, overwrite, rename, skip);
/// `u`, `o`, `n` choose for this file and `U`, `O`, `N` for all remaining
/// ones; `c` renames; Esc aborts.
pub open spec fn conflict_key(code: KeyCode, mods: KeyModifiers, highlight: nat) -> ConflictKey {
    match code {
        KeyCode::Up => ConflictKey::Up,
        KeyCode::Down => ConflictKey::Down,
        KeyCode::Esc => ConflictKey::Abort,
        KeyCode::Enter => if mods.bits == 0 {
            if highlight == 0 {
                ConflictKey::Resume(ConflictChoice::IfNewer, None)
            } else if highlight == 1 {
                ConflictKey::Resume(ConflictChoice::Overwrite, None)
            } else if highlight == 2 {
                ConflictKey::OpenRename
            } else {
                ConflictKey::Resume(ConflictChoice::Skip, None)
            }
        } else {
            ConflictKey::Nothing
        },
        KeyCode::Char(c) => if c == 'k' {
            ConflictKey::Up
        } else if c == 'j' {
            ConflictKey::Down
        } else if c == 'u' {
            ConflictKey::Resume(ConflictChoice::IfNewer, None)
        } else if c == 'U' {
            ConflictKey::Resume(ConflictChoice::IfNewer, Some(ConflictChoice::IfNewer))
        } else if c == 'o' {
            ConflictKey::Resume(ConflictChoice::Overwrite, None)
        } else if c == 'O' {
            ConflictKey::Resume(ConflictChoice::Overwrite, Some(ConflictChoice::Overwrite))
        } else if c == 'n' {
            ConflictKey::Resume(ConflictChoice::Skip, None)
        } else if c == 'N' {
            ConflictKey::Resume(ConflictChoice::Skip, Some(ConflictChoice::Skip))
        } else if c == 'c' || c == 'C' {
            ConflictKey::OpenRename
        } else {
            ConflictKey::Nothing
        },
        _ => ConflictKey::Nothing,
    }
}

/// Executable form of [`conflict_key`].
pub fn conflict_key_of(code: KeyCode, mods: KeyModifiers, highlight: usize) -> (r: ConflictKey)
    ensures
        r == conflict_key(code, mods, highlight as nat),
{
    match code {
        KeyCode::Up => ConflictKey::Up,
        KeyCode::Down => ConflictKey::Down,
        KeyCode::Esc => ConflictKey::Abort,
        KeyCode::Enter => if mods.bits == 0 {
            if highlight == 0 {
                ConflictKey::Resume(ConflictChoice::IfNewer, None)
            } else if highlight == 1 {
                ConflictKey::Resume(ConflictChoice::Overwrite, None)
            } else if highlight == 2 {
                ConflictKey::OpenRename
            } else {
                ConflictKey::Resume(ConflictChoice::Skip, None)
            }
        } else {
            ConflictKey::Nothing
        },
        KeyCode::Char(c) => if c == 'k' {
            ConflictKey::Up
        } else if c == 'j' {
            ConflictKey::Down
        } else if c == 'u' {
            ConflictKey::Resume(ConflictChoice::IfNewer, None)
        } else if c == 'U' {
            ConflictKey::Resume(ConflictChoice::IfNewer, Some(ConflictChoice::IfNewer))
        } else if c == 'o' {
            ConflictKey::Resume(ConflictChoice::Overwrite, None)
        } else if c == 'O' {
            ConflictKey::Resume(ConflictChoice::Overwrite, Some(ConflictChoice::Overwrite))
        } else if c == 'n' {
            ConflictKey::Resume(ConflictChoice::Skip, None)
        } else if c == 'N' {
            ConflictKey::Resume(ConflictChoice::Skip, Some(ConflictChoice::Skip))
        } else if c == 'c' || c == 'C' {
            ConflictKey::OpenRename
        } else {
            ConflictKey::Nothing
        },
        _ => ConflictKey::Nothing,
    }
}

/// What a key does in the delete confirmation.
#[derive(Clone, Copy, PartialEq, Eq, Debug, Structural)]
pub enum ConfirmKey {
    Nothing,
    /// Highlight "yes".
    SelectYes,
    /// Highlight "no".
    SelectNo,
    /// Enter: delete when "yes" is highlighted, else close.
    Confirm,
    Delete,
    Close,
}

/// The delete confirmation keys: `h`/`k`/left/up highlight yes, `l`/`j`/
/// right/down highlight no, Enter confirms the highlight, `y` deletes, Esc
/// and `n` close.
pub open spec fn confirm_key(code: KeyCode, mods: KeyModifiers) -> ConfirmKey {
    match code {
        KeyCode::Left => ConfirmKey::SelectYes,
        KeyCode::Up => ConfirmKey::SelectYes,
        KeyCode::Right => ConfirmKey::SelectNo,
        KeyCode::Down => ConfirmKey::SelectNo,
        KeyCode::Enter => if mods.bits == 0 {
            ConfirmKey::Confirm
        } else {
            ConfirmKey::Nothing
        },
        KeyCode::Esc => ConfirmKey::Close,
        KeyCode::Char(c) => if c == 'h' || c == 'k' {
            ConfirmKey::SelectYes
        } else if c == 'l' || c == 'j' {
            ConfirmKey::SelectNo
        } else if c == 'y' || c == 'Y' {
            ConfirmKey::Delete
        } else if c == 'n' || c == 'N' {
            ConfirmKey::Close
        } else {
            ConfirmKey::Nothing
        },
        _ => ConfirmKey::Nothing,
    }
}

/// Executable form of [`confirm_key`].
pub fn confirm_key_of(code: KeyCode, mods: KeyModifiers) -> (r: ConfirmKey)
    ensures
        r == confirm_key(code, mods),
{
    match code {
        KeyCode::Left => ConfirmKey::SelectYes,
        KeyCode::Up => ConfirmKey::SelectYes,
        KeyCode::Right => ConfirmKey::SelectNo,
        KeyCode::Down => ConfirmKey::SelectNo,
        KeyCode::Enter => if mods.bits == 0 {
            ConfirmKey::Confirm
        } else {
            ConfirmKey::Nothing
        },
        KeyCode::Esc => ConfirmKey::Close,
        KeyCode::Char(c) => if c == 'h' || c == 'k' {
            ConfirmKey::SelectYes
        } else if c == 'l' || c == 'j' {
            ConfirmKey::SelectNo
        } else if c == 'y' || c == 'Y' {
            ConfirmKey::Delete
        } else if c == 'n' || c == 'N' {
            ConfirmKey::Close
        } else {
            ConfirmKey::Nothing
        },
        _ => ConfirmKey::Nothing,
    }
}

/// The command that a key in a file dialog leaves to the caller.
pub enum FileCommand {
    /// Nothing to run (the dialog may have changed).
    Nothing,
    /// The dialog was closed.
    Closed,
    /// The operation was stopped at a conflict: the dialog was closed and
    /// the listing should be read again.
    Abort,
    /// Go on with a copy or move at its conflict (taken out of the dialog).
    Resume { prompt: OverwritePrompt, choice: ConflictChoice, batch: Option<ConflictChoice> },
    /// Copy or move the file in conflict under a new name, then go on.
    ResumeRename { prompt: OverwritePrompt, new_name: String },
    /// Delete the dialog's targets.
    Delete,
    /// Run the dialog's operation with the typed text.
    Submit { kind: DialogKind, input: String },
}

/// `b` is `a` with at most the file dialog changed: the directory the
/// caller runs the command in, the listing and the messages are kept.
pub open spec fn file_frame(a: App, b: App) -> bool {
    b == (App { file_dialog: b.file_dialog, ..a })
}

/// The file dialog is consistent: its cursor is within its input (in the
/// delete confirmation it highlights a button instead).
pub open spec fn file_dialog_ok(d: FileDialog) -> bool {
    (d.kind is DeleteConfirm && d.overwrite is None) || d.cursor <= d.input@.len()
}

impl App {
    /// Handles a key in the file dialog. At a conflict: move the highlight,
    /// choose (the prompt is handed over with the choice), open the rename
    /// input, or abort; in the rename input: edit, go back (Esc) or hand
    /// the new name over (Enter). In the delete confirmation: highlight,
    /// confirm, delete or close. In the other dialogs: edit, close (Esc) or
    /// hand the text over (Enter). The caller runs the command and reports
    /// back with [`App::finish_file_op`].
    #[verifier::rlimit(40)]
    #[verifier::spinoff_prover]
    pub fn handle_file_dialog_key(&mut self, code: KeyCode, mods: KeyModifiers) -> (r: FileCommand)
        requires
            old(self).file_dialog matches Some(d) ==> file_dialog_ok(d) && d.input@.len() < usize::MAX,
        ensures
            final(self).file_dialog matches Some(d) ==> file_dialog_ok(d),
            file_frame(*old(self), *final(self)),
            final(self).entries@ == old(self).entries@,
            final(self).cursor == old(self).cursor,
            old(self).file_dialog is None ==> r is Nothing && *final(self) == *old(self),
            ({
                let d = old(self).file_dialog->Some_0;
                let open = old(self).file_dialog is Some;
                let conflict = open && d.overwrite is Some;
                let p = d.overwrite->Some_0;
                let nd = final(self).file_dialog->Some_0;
                &&& (conflict && d.conflict_rename) ==> (
                    if code is Esc {
                        r is Nothing && final(self).file_dialog is Some && !nd.conflict_rename
                            && nd.input@.len() == 0 && nd.cursor == 0 && nd.overwrite == d.overwrite
                    } else if code is Enter && mods.bits == 0 {
                        (r matches FileCommand::ResumeRename { prompt, new_name } && prompt == p
                            && new_name@ == d.input@) && final(self).file_dialog is Some && nd.overwrite is None
                            && nd.conflict_rename
                    } else {
                        r is Nothing && final(self).file_dialog is Some && nd.overwrite == d.overwrite && match edit_line(d.input@, d.cursor as nat, code, mods) {
                            Some((i, c)) => nd.input@ == i && nd.cursor == c,
                            None => nd.input@ == d.input@ && nd.cursor == d.cursor,
                        }
                    })
                &&& (conflict && !d.conflict_rename) ==> (match conflict_key(code, mods, p.cursor as nat) {
                    ConflictKey::Nothing => r is Nothing && final(self).file_dialog is Some && nd.overwrite == d.overwrite,
                    ConflictKey::Up => r is Nothing && (nd.overwrite matches Some(q) && q.cursor == (if p.cursor > 0 { p.cursor - 1 } else { 0int }) && q.todo == p.todo && q.conflict == p.conflict),
                    ConflictKey::Down => r is Nothing && (nd.overwrite matches Some(q) && q.cursor == (if p.cursor < 3 { p.cursor + 1 } else { p.cursor as int }) && q.todo == p.todo && q.conflict == p.conflict),
                    ConflictKey::Resume(choice, batch) => (r matches FileCommand::Resume { prompt, choice: c, batch: b } && prompt == p && c == choice && b == batch)
                        && final(self).file_dialog is Some && nd.overwrite is None && !nd.conflict_rename,
                    ConflictKey::OpenRename => r is Nothing && final(self).file_dialog is Some && nd.conflict_rename
                        && nd.input@ == p.conflict@ && nd.cursor == p.conflict@.len() && nd.error is None && nd.overwrite == d.overwrite,
                    ConflictKey::Abort => r is Abort && final(self).file_dialog is None,
                })
                &&& (open && d.overwrite is None && d.kind is DeleteConfirm) ==> (match confirm_key(code, mods) {
                    ConfirmKey::Nothing => r is Nothing && final(self).file_dialog is Some && nd.cursor == d.cursor,
                    ConfirmKey::SelectYes => r is Nothing && final(self).file_dialog is Some && nd.cursor == 1,
                    ConfirmKey::SelectNo => r is Nothing && final(self).file_dialog is Some && nd.cursor == 0,
                    ConfirmKey::Confirm => if d.cursor == 1 {
                        r is Delete && final(self).file_dialog is Some
                    } else {
                        r is Closed && final(self).file_dialog is None
                    },
                    ConfirmKey::Delete => r is Delete && final(self).file_dialog is Some,
                    ConfirmKey::Close => r is Closed && final(self).file_dialog is None,
                })
                &&& (open && d.overwrite is None && !(d.kind is DeleteConfirm)) ==> (
                    if code is Esc {
                        r is Closed && final(self).file_dialog is None
                    } else if code is Enter && mods.bits == 0 {
                        (r matches FileCommand::Submit { kind, input } && kind == d.kind && input@ == d.input@)
                            && final(self).file_dialog == old(self).file_dialog
                    } else {
                        r is Nothing && final(self).file_dialog is Some && match edit_line(d.input@, d.cursor as nat, code, mods) {
                            Some((i, c)) => nd.input@ == i && nd.cursor == c,
                            None => nd.input@ == d.input@ && nd.cursor == d.cursor,
                        }
                    })
                &&& (open && final(self).file_dialog is Some) ==> nd.kind == d.kind && nd.targets == d.targets
            }),
    {
        let taken = self.file_dialog.take();
        let dlg = match taken {
            None => {
                return FileCommand::Nothing;
            },
            Some(d) => d,
        };
        let (nd, cmd) = if dlg.overwrite.is_some() {
            if dlg.conflict_rename {
                rename_input_key(dlg, code, mods)
            } else {
                conflict_dialog_key(dlg, code, mods)
            }
        } else if dlg.kind == DialogKind::DeleteConfirm {
            confirm_dialog_key(dlg, code, mods)
        } else {
            input_dialog_key(dlg, code, mods)
        };
        self.file_dialog = nd;
        cmd
    }
}

fn is_plain_enter(code: KeyCode, mods: KeyModifiers) -> (r: bool)
    ensures
        r == (code is Enter && mods.bits == 0),
{
    match code {
        KeyCode::Enter => mods.bits == 0,
        _ => false,
    }
}

fn rename_input_key(dlg: FileDialog, code: KeyCode, mods: KeyModifiers) -> (r: (Option<FileDialog>, FileCommand))
    requires
        dlg.overwrite is Some,
        dlg.conflict_rename,
        file_dialog_ok(dlg),
        dlg.input@.len() < usize::MAX,
    ensures
        r.0 matches Some(nd) && file_dialog_ok(nd) && nd.kind == dlg.kind && nd.targets == dlg.targets,
        ({
            let d = dlg;
            let p = d.overwrite->Some_0;
            let nd = r.0->Some_0;
            if code is Esc {
                r.1 is Nothing && !nd.conflict_rename && nd.input@.len() == 0 && nd.cursor == 0 && nd.overwrite == d.overwrite
            } else if code is Enter && mods.bits == 0 {
                (r.1 matches FileCommand::ResumeRename { prompt, new_name } && prompt == p && new_name@ == d.input@)
                    && nd.overwrite is None && nd.conflict_rename
            } else {
                r.1 is Nothing && nd.overwrite == d.overwrite && match edit_line(d.input@, d.cursor as nat, code, mods) {
                    Some((i, c)) => nd.input@ == i && nd.cursor == c,
                    None => nd.input@ == d.input@ && nd.cursor == d.cursor,
                }
            }
        }),
{
    let mut dlg = dlg;
    if let KeyCode::Esc = code {
        dlg.conflict_rename = false;
        dlg.input.clear();
        dlg.cursor = 0;
        (Some(dlg), FileCommand::Nothing)
    } else if is_plain_enter(code, mods) {
        let new_name = string_of(&dlg.input);
        let prompt = dlg.overwrite.take();
        match prompt {
            Some(p) => (Some(dlg), FileCommand::ResumeRename { prompt: p, new_name }),
            None => (Some(dlg), FileCommand::Nothing),
        }
    } else {
        edit_input(&mut dlg.input, &mut dlg.cursor, code, mods);
        (Some(dlg), FileCommand::Nothing)
    }
}

fn conflict_dialog_key(dlg: FileDialog, code: KeyCode, mods: KeyModifiers) -> (r: (Option<FileDialog>, FileCommand))
    requires
        dlg.overwrite is Some,
        !dlg.conflict_rename,
        file_dialog_ok(dlg),
    ensures
        r.0 matches Some(nd) ==> file_dialog_ok(nd) && nd.kind == dlg.kind && nd.targets == dlg.targets,
        ({
            let d = dlg;
            let p = d.overwrite->Some_0;
            let nd = r.0->Some_0;
            match conflict_key(code, mods, p.cursor as nat) {
                ConflictKey::Nothing => r.1 is Nothing && r.0 is Some && nd.overwrite == d.overwrite,
                ConflictKey::Up => r.1 is Nothing && r.0 is Some && (nd.overwrite matches Some(q) && q.cursor == (if p.cursor > 0 { p.cursor - 1 } else { 0int }) && q.todo == p.todo && q.conflict == p.conflict),
                ConflictKey::Down => r.1 is Nothing && r.0 is Some && (nd.overwrite matches Some(q) && q.cursor == (if p.cursor < 3 { p.cursor + 1 } else { p.cursor as int }) && q.todo == p.todo && q.conflict == p.conflict),
                ConflictKey::Resume(choice, batch) => (r.1 matches FileCommand::Resume { prompt, choice: c, batch: b } && prompt == p && c == choice && b == batch)
                    && r.0 is Some && nd.overwrite is None && !nd.conflict_rename,
                ConflictKey::OpenRename => r.1 is Nothing && r.0 is Some && nd.conflict_rename
                    && nd.input@ == p.conflict@ && nd.cursor == p.conflict@.len() && nd.error is None && nd.overwrite == d.overwrite,
                ConflictKey::Abort => r.1 is Abort && r.0 is None,
            }
        }),
{
    let mut dlg = dlg;
    let hl = match &dlg.overwrite {
        Some(p) => p.cursor,
        None => 0,
    };
    match conflict_key_of(code, mods, hl) {
        ConflictKey::Nothing => (Some(dlg), FileCommand::Nothing),
        ConflictKey::Up => {
            let p = dlg.overwrite.take();
            if let Some(mut p) = p {
                if p.cursor > 0 {
                    p.cursor = p.cursor - 1;
                }
                dlg.overwrite = Some(p);
            }
            (Some(dlg), FileCommand::Nothing)
        },
        ConflictKey::Down => {
            let p = dlg.overwrite.take();
            if let Some(mut p) = p {
                if p.cursor < 3 {
                    p.cursor = p.cursor + 1;
                }
                dlg.overwrite = Some(p);
            }
            (Some(dlg), FileCommand::Nothing)
        },
        ConflictKey::Resume(choice, batch) => {
            let p = dlg.overwrite.take();
            match p {
                Some(p) => (Some(dlg), FileCommand::Resume { prompt: p, choice, batch }),
                None => (Some(dlg), FileCommand::Nothing),
            }
        },
        ConflictKey::OpenRename => {
            let fname = match &dlg.overwrite {
                Some(p) => chars_of(p.conflict.as_str()),
                None => Vec::new(),
            };
            let flen = fname.len();
            dlg.input = fname;
            dlg.cursor = flen;
            dlg.conflict_rename = true;
            dlg.error = None;
            (Some(dlg), FileCommand::Nothing)
        },
        ConflictKey::Abort => (None, FileCommand::Abort),
    }
}

fn confirm_dialog_key(dlg: FileDialog, code: KeyCode, mods: KeyModifiers) -> (r: (Option<FileDialog>, FileCommand))
    requires
        dlg.overwrite is None,
        dlg.kind is DeleteConfirm,
    ensures
        r.0 matches Some(nd) ==> file_dialog_ok(nd) && nd.kind == dlg.kind && nd.targets == dlg.targets,
        ({
            let d = dlg;
            let nd = r.0->Some_0;
            match confirm_key(code, mods) {
                ConfirmKey::Nothing => r.1 is Nothing && r.0 is Some && nd.cursor == d.cursor,
                ConfirmKey::SelectYes => r.1 is Nothing && r.0 is Some && nd.cursor == 1,
                ConfirmKey::SelectNo => r.1 is Nothing && r.0 is Some && nd.cursor == 0,
                ConfirmKey::Confirm => if d.cursor == 1 {
                    r.1 is Delete && r.0 is Some
                } else {
                    r.1 is Closed && r.0 is None
                },
                ConfirmKey::Delete => r.1 is Delete && r.0 is Some,
                ConfirmKey::Close => r.1 is Closed && r.0 is None,
            }
        }),
{
    let mut dlg = dlg;
    match confirm_key_of(code, mods) {
        ConfirmKey::Nothing => (Some(dlg), FileCommand::Nothing),
        ConfirmKey::SelectYes => {
            dlg.cursor = 1;
            (Some(dlg), FileCommand::Nothing)
        },
        ConfirmKey::SelectNo => {
            dlg.cursor = 0;
            (Some(dlg), FileCommand::Nothing)
        },
        ConfirmKey::Confirm => {
            if dlg.cursor == 1 {
                (Some(dlg), FileCommand::Delete)
            } else {
                (None, FileCommand::Closed)
            }
        },
        ConfirmKey::Delete => (Some(dlg), FileCommand::Delete),
        ConfirmKey::Close => (None, FileCommand::Closed),
    }
}

fn input_dialog_key(dlg: FileDialog, code: KeyCode, mods: KeyModifiers) -> (r: (Option<FileDialog>, FileCommand))
    requires
        dlg.overwrite is None,
        !(dlg.kind is DeleteConfirm),
        file_dialog_ok(dlg),
        dlg.input@.len() < usize::MAX,
    ensures
        r.0 matches Some(nd) ==> file_dialog_ok(nd) && nd.kind == dlg.kind && nd.targets == dlg.targets,
        ({
            let d = dlg;
            let nd = r.0->Some_0;
            if code is Esc {
                r.1 is Closed && r.0 is None
            } else if code is Enter && mods.bits == 0 {
                (r.1 matches FileCommand::Submit { kind, input } && kind == d.kind && input@ == d.input@) && r.0 == Some(d)
            } else {
                r.1 is Nothing && r.0 is Some && match edit_line(d.input@, d.cursor as nat, code, mods) {
                    Some((i, c)) => nd.input@ == i && nd.cursor == c,
                    None => nd.input@ == d.input@ && nd.cursor == d.cursor,
                }
            }
        }),
{
    let mut dlg = dlg;
    if let KeyCode::Esc = code {
        (None, FileCommand::Closed)
    } else if is_plain_enter(code, mods) {
        let input = string_of(&dlg.input);
        let kind = dlg.kind;
        (Some(dlg), FileCommand::Submit { kind, input })
    } else {
        edit_input(&mut dlg.input, &mut dlg.cursor, code, mods);
        (Some(dlg), FileCommand::Nothing)
    }
}


// ── Laws ─────────────────────────────────────────────────────────────────

/// Typing a character and then Backspace gives back the text and cursor.
pub proof fn law_type_then_backspace(input: Seq<char>, cursor: nat, c: char, mods: KeyModifiers)
    requires
        cursor <= input.len(),
        mods.bits == 0 || mods.bits == 1,
    ensures
        edit_line(input, cursor, KeyCode::Char(c), mods) == Some((input.insert(cursor as int, c), cursor + 1)),
        edit_line(input.insert(cursor as int, c), cursor + 1, KeyCode::Backspace, mods) == Some((input, cursor)),
{
    assert(input.insert(cursor as int, c).remove(cursor as int) =~= input);
}

/// Editing keeps the cursor within the text.
pub proof fn law_edit_keeps_cursor_in_text(input: Seq<char>, cursor: nat, code: KeyCode, mods: KeyModifiers)
    requires
        cursor <= input.len(),
    ensures
        edit_line(input, cursor, code, mods) matches Some((i, c)) ==> c <= i.len(),
{
}

} // verus!
