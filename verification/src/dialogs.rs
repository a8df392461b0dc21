//! Opening the file operation dialogs from the listing, taking back the
//! outcome of an operation, and the search and run commands of the
//! listing.
use vstd::prelude::*;
use crate::app::{
    is_dotdot, op_targets, search_hits, tags_after_toggle_all, App, DialogKind, DirJumpDialog, FileDialog, FuncDialog,
    GitDialog, GitDialogState, OverwritePrompt, RunDialog, SearchState,
};
use crate::input::sort_line;
use crate::keymap::Action;
use crate::fs_utils::{shell_quote, shell_quoted, string_views};
use crate::keys::all_tagged_names;
use crate::num::digit_char;
use crate::text::{chars_of, string_of};

verus! {

/// A permission mode as four octal digits (`format!("{:04o}", m & 0o7777)`).
pub open spec fn octal4(mode: u32) -> Seq<char> {
    let m = (mode & 0o7777) as nat;
    seq![digit_char((m / 512) % 8), digit_char((m / 64) % 8), digit_char((m / 8) % 8), digit_char(m % 8)]
}

fn octal4_chars(mode: u32) -> (r: Vec<char>)
    ensures
        r@ == octal4(mode),
{
    let m = mode & 0o7777;
    let mut v: Vec<char> = Vec::new();
    v.push(crate::num::digit_to_char(((m / 512) % 8) as u64));
    v.push(crate::num::digit_to_char(((m / 64) % 8) as u64));
    v.push(crate::num::digit_to_char(((m / 8) % 8) as u64));
    v.push(crate::num::digit_to_char((m % 8) as u64));
    assert(v@ =~= octal4(mode));
    v
}

/// The dialog that an action opens (`None` when there is nothing to act
/// on): copy and move start from the current directory, delete asks for
/// confirmation, rename starts from the first target's name (and acts on
/// it alone), a new directory starts empty, and a permission change starts
/// from the cursor entry's mode in octal.
pub open spec fn opens_dialog(d: FileDialog, kind: DialogKind, targets: Seq<Seq<char>>, cur_dir: Seq<char>, mode: Option<u32>) -> bool {
    &&& d.kind == kind
    &&& d.dest is None && !d.conflict_rename && d.error is None && d.overwrite is None
    &&& match kind {
        DialogKind::Copy | DialogKind::Move => d.input@ == cur_dir && d.cursor == cur_dir.len()
            && string_views(d.targets@) == targets,
        DialogKind::DeleteConfirm => d.input@.len() == 0 && d.cursor == 0 && string_views(d.targets@) == targets,
        DialogKind::Rename => d.input@ == targets[0] && d.cursor == targets[0].len()
            && string_views(d.targets@) == seq![targets[0]],
        DialogKind::Mkdir => d.input@.len() == 0 && d.cursor == 0 && d.targets@.len() == 0,
        DialogKind::Attr => d.input@ == (match mode {
            Some(m) => octal4(m),
            None => seq![],
        }) && d.cursor == d.input@.len() && string_views(d.targets@) == targets,
        DialogKind::CopyNewName => false,
    }
}

impl App {
    /// Opens the dialog of an operation on the current targets (see
    /// [`op_targets`]); nothing happens when there is no target, except
    /// for a new directory, which needs none.
    pub fn open_file_dialog(&mut self, kind: DialogKind)
        requires
            !(kind is CopyNewName),
        ensures
            ({
                let t = op_targets(old(self).entries@, old(self).tagged@, old(self).cursor as nat);
                let mode = if old(self).cursor < old(self).entries.len() {
                    Some(old(self).entries@[old(self).cursor as int].mode)
                } else {
                    None
                };
                if t.len() == 0 && !(kind is Mkdir) {
                    final(self).file_dialog == old(self).file_dialog
                } else {
                    final(self).file_dialog matches Some(d) && opens_dialog(d, kind, t, old(self).current_dir@, mode)
                }
            }),
            *final(self) == (App { file_dialog: final(self).file_dialog, ..*old(self) }),
            final(self).entries@ == old(self).entries@,
            final(self).cursor == old(self).cursor,
            final(self).current_dir@ == old(self).current_dir@,
    {
        let targets = self.collect_op_targets();
        if targets.len() == 0 && kind != DialogKind::Mkdir {
            return;
        }
        let (input, targets) = match kind {
            DialogKind::Copy | DialogKind::Move => (chars_of(self.current_dir.as_str()), targets),
            DialogKind::Rename => {
                let first = targets[0].clone();
                let mut one: Vec<String> = Vec::new();
                one.push(first.clone());
                assert(string_views(one@) =~= seq![first@]);
                (chars_of(first.as_str()), one)
            },
            DialogKind::Attr => {
                let m = if self.cursor < self.entries.len() {
                    octal4_chars(self.entries[self.cursor].mode)
                } else {
                    Vec::new()
                };
                (m, targets)
            },
            DialogKind::Mkdir => (Vec::new(), Vec::new()),
            _ => (Vec::new(), targets),
        };
        let cursor = input.len();
        self.file_dialog = Some(FileDialog {
            kind,
            input,
            cursor,
            targets,
            dest: None,
            conflict_rename: false,
            error: None,
            overwrite: None,
        });
    }

    /// Takes back the outcome of a file operation run for the open dialog:
    /// done (the dialog closes; says that the listing must be read again),
    /// stopped at a conflict (the dialog shows the prompt; after a rename at
    /// a conflict, the name input closes), or failed (the dialog shows the
    /// message).
    pub fn finish_file_op(&mut self, result: Result<Option<OverwritePrompt>, String>, after_rename: bool) -> (reload: bool)
        ensures
            reload == (result matches Ok(None)),
            old(self).file_dialog is None ==> final(self).file_dialog is None,
            old(self).file_dialog is Some ==> match result {
                Ok(None) => final(self).file_dialog is None,
                Ok(Some(p)) => final(self).file_dialog matches Some(d) && d.overwrite == Some(p) && d.error is None
                    && d.kind == old(self).file_dialog->Some_0.kind
                    && (after_rename ==> !d.conflict_rename && d.input@.len() == 0 && d.cursor == 0)
                    && (!after_rename ==> d.conflict_rename == old(self).file_dialog->Some_0.conflict_rename
                        && d.input@ == old(self).file_dialog->Some_0.input@ && d.cursor == old(self).file_dialog->Some_0.cursor),
                Err(e) => final(self).file_dialog matches Some(d) && d.error == Some(e)
                    && d.overwrite == old(self).file_dialog->Some_0.overwrite
                    && d.kind == old(self).file_dialog->Some_0.kind
                    && d.input@ == old(self).file_dialog->Some_0.input@
                    && d.cursor == old(self).file_dialog->Some_0.cursor
                    && d.conflict_rename == old(self).file_dialog->Some_0.conflict_rename,
            },
            final(self).entries@ == old(self).entries@,
            final(self).cursor == old(self).cursor,
    {
        let taken = self.file_dialog.take();
        match taken {
            None => {
                match result {
                    Ok(None) => true,
                    _ => false,
                }
            },
            Some(mut dlg) => match result {
                Ok(None) => true,
                Ok(Some(p)) => {
                    if after_rename {
                        dlg.conflict_rename = false;
                        dlg.input.clear();
                        dlg.cursor = 0;
                    }
                    dlg.error = None;
                    dlg.overwrite = Some(p);
                    self.file_dialog = Some(dlg);
                    false
                },
                Err(e) => {
                    dlg.error = Some(e);
                    self.file_dialog = Some(dlg);
                    false
                },
            },
        }
    }

    /// A copy whose destination is the current directory itself: with one
    /// target, the dialog turns into the input of a new name (starting
    /// from the target's name); with several, it shows an error.
    #[verifier::rlimit(40)]
    #[verifier::spinoff_prover]
    pub fn copy_same_dir(&mut self, dest: String, lang_en: bool)
        ensures
            old(self).file_dialog is None ==> final(self).file_dialog is None,
            ({
                let d = old(self).file_dialog->Some_0;
                let n = final(self).file_dialog->Some_0;
                &&& (old(self).file_dialog is Some && d.targets@.len() > 1) ==> (final(self).file_dialog is Some
                    && n.kind == d.kind && n.targets == d.targets && n.input == d.input && n.cursor == d.cursor
                    && n.dest == d.dest && n.conflict_rename == d.conflict_rename && n.overwrite == d.overwrite
                    && (n.error matches Some(m) && m@ == (if lang_en {
                        "Multi-file same-dir copy unsupported"@
                    } else {
                        "同ディレクトリへの複数ファイル複写は非対応です"@
                    })))
                &&& (old(self).file_dialog is Some && d.targets@.len() == 1) ==> (final(self).file_dialog is Some
                    && n.kind is CopyNewName && n.input@ == d.targets@[0]@ && n.cursor == d.targets@[0]@.len()
                    && string_views(n.targets@) == string_views(d.targets@) && (n.dest matches Some(x) && x@ == dest@)
                    && !n.conflict_rename && n.error is None && n.overwrite is None)
                &&& (old(self).file_dialog is Some && d.targets@.len() == 0) ==> final(self).file_dialog == old(self).file_dialog
            }),
            crate::keys::file_frame(*old(self), *final(self)),
            final(self).entries@ == old(self).entries@,
    {
        let taken = self.file_dialog.take();
        match taken {
            None => {},
            Some(mut dlg) => {
                if dlg.targets.len() > 1 {
                    let m = if lang_en {
                        "Multi-file same-dir copy unsupported"
                    } else {
                        "同ディレクトリへの複数ファイル複写は非対応です"
                    };
                    dlg.error = Some(string_of(&chars_of(m)));
                    self.file_dialog = Some(dlg);
                } else if dlg.targets.len() == 1 {
                    let orig = chars_of(dlg.targets[0].as_str());
                    let len = orig.len();
                    self.file_dialog = Some(FileDialog {
                        kind: DialogKind::CopyNewName,
                        input: orig,
                        cursor: len,
                        targets: dlg.targets,
                        dest: Some(dest),
                        conflict_rename: false,
                        error: None,
                        overwrite: None,
                    });
                } else {
                    self.file_dialog = Some(dlg);
                }
            },
        }
    }

    /// Keeps the cursor on an entry after the listing shrank: past the end
    /// it goes to the last entry (0 when the listing is empty).
    pub fn clamp_cursor(&mut self)
        ensures
            final(self).cursor == (if old(self).cursor < old(self).entries.len() {
                old(self).cursor as int
            } else if old(self).entries.len() == 0 {
                0
            } else {
                old(self).entries.len() - 1
            }),
            final(self).entries@ == old(self).entries@,
    {
        if self.cursor >= self.entries.len() {
            self.cursor = if self.entries.len() == 0 {
                0
            } else {
                self.entries.len() - 1
            };
        }
    }

    /// Opens the search bar, remembering the cursor position.
    pub fn open_search(&mut self)
        ensures
            final(self).search matches Some(s) && s.input@.len() == 0 && s.cursor == 0
                && s.origin == old(self).cursor && s.matches@.len() == 0 && s.match_idx == 0 && !s.confirmed,
            *final(self) == (App { search: final(self).search, ..*old(self) }),
            final(self).cursor == old(self).cursor,
            final(self).entries@ == old(self).entries@,
    {
        self.search = Some(SearchState {
            input: Vec::new(),
            cursor: 0,
            origin: self.cursor,
            matches: Vec::new(),
            match_idx: 0,
            confirmed: false,
        });
    }
}

// ── Jumping between search matches ───────────────────────────────────────

/// The first match after `cursor`, or the first match (wrapping around).
pub open spec fn next_match(ms: Seq<usize>, cursor: nat, i: int) -> int
    decreases ms.len() - i,
{
    if i < 0 || i >= ms.len() {
        0
    } else if ms[i] > cursor {
        i
    } else {
        next_match(ms, cursor, i + 1)
    }
}

/// The last match before `cursor` among the first `i`, or the last match
/// (wrapping around).
pub open spec fn prev_match(ms: Seq<usize>, cursor: nat, i: int) -> int
    decreases i,
{
    if i <= 0 || i > ms.len() {
        ms.len() - 1
    } else if (ms[i - 1] as nat) < cursor {
        i - 1
    } else {
        prev_match(ms, cursor, i - 1)
    }
}

/// The position of the next match after `cursor` (wrapping to the first).
pub fn next_match_index(ms: &Vec<usize>, cursor: usize) -> (r: usize)
    requires
        ms@.len() > 0,
    ensures
        r == next_match(ms@, cursor as nat, 0),
        r < ms@.len(),
{
    let mut i: usize = 0;
    while i < ms.len()
        invariant
            i <= ms.len(),
            next_match(ms@, cursor as nat, i as int) == next_match(ms@, cursor as nat, 0),
        decreases ms.len() - i,
    {
        if ms[i] > cursor {
            return i;
        }
        i += 1;
    }
    0
}

/// The position of the last match before `cursor` (wrapping to the last).
pub fn prev_match_index(ms: &Vec<usize>, cursor: usize) -> (r: usize)
    requires
        ms@.len() > 0,
    ensures
        r == prev_match(ms@, cursor as nat, ms@.len() as int),
        r < ms@.len(),
{
    let mut i: usize = ms.len();
    while i > 0
        invariant
            i <= ms.len(),
            ms@.len() > 0,
            prev_match(ms@, cursor as nat, i as int) == prev_match(ms@, cursor as nat, ms@.len() as int),
        decreases i,
    {
        if ms[i - 1] < cursor {
            return i - 1;
        }
        i -= 1;
    }
    ms.len() - 1
}

impl App {
    /// Moves the cursor to the next (or previous) match, wrapping around:
    /// of the confirmed search, or else of the last search pattern given
    /// its `matches`; the open search follows the chosen match.
    pub fn jump_to_match(&mut self, matches: &Vec<usize>, forward: bool)
        ensures
            matches@.len() == 0 ==> final(self).cursor == old(self).cursor,
            matches@.len() > 0 ==> ({
                let k = if forward {
                    next_match(matches@, old(self).cursor as nat, 0)
                } else {
                    prev_match(matches@, old(self).cursor as nat, matches@.len() as int)
                };
                &&& final(self).cursor == matches@[k]
                &&& old(self).search matches Some(s0) ==> final(self).search == Some(SearchState { match_idx: k as usize, ..s0 })
                &&& old(self).search is None ==> final(self).search is None
            }),
            matches@.len() == 0 ==> *final(self) == *old(self),
            *final(self) == (App { cursor: final(self).cursor, search: final(self).search, ..*old(self) }),
            final(self).entries@ == old(self).entries@,
    {
        if matches.len() == 0 {
            return;
        }
        let k = if forward {
            next_match_index(matches, self.cursor)
        } else {
            prev_match_index(matches, self.cursor)
        };
        self.cursor = matches[k];
        let s = self.search.take();
        if let Some(mut s) = s {
            s.match_idx = k;
            self.search = Some(s);
        }
    }

    /// The matches that `n` and `N` jump between: those of a confirmed
    /// search, or none (the caller then searches for the last pattern).
    pub fn confirmed_matches(&self) -> (r: Option<Vec<usize>>)
        ensures
            (self.search is Some && self.search->Some_0.confirmed) ==> (r matches Some(m) && m@ == self.search->Some_0.matches@),
            !(self.search is Some && self.search->Some_0.confirmed) ==> r is None,
    {
        match &self.search {
            Some(s) => if s.confirmed {
                Some(s.matches.clone())
            } else {
                None
            },
            None => None,
        }
    }
}

// ── The run dialog ───────────────────────────────────────────────────────

/// The names a command line starts with: the tagged entries, else the
/// cursor entry.
pub open spec fn run_names(app: App) -> Seq<Seq<char>> {
    let tagged = all_tagged_names(app.entries@, app.tagged@);
    if tagged.len() > 0 {
        tagged
    } else if app.cursor < app.entries.len() {
        seq![app.entries@[app.cursor as int].name@]
    } else {
        seq![]
    }
}

/// Shell-quoted names separated by spaces.
pub open spec fn quoted_list(names: Seq<Seq<char>>) -> Seq<char>
    decreases names.len(),
{
    if names.len() == 0 {
        seq![]
    } else if names.len() == 1 {
        shell_quoted(names[0])
    } else {
        quoted_list(names.drop_last()) + seq![' '] + shell_quoted(names.last())
    }
}

impl App {
    /// The text the command-line dialog starts with: the shell-quoted names
    /// of the tagged entries, or of the cursor entry, separated by spaces.
    pub fn run_args(&self) -> (r: String)
        ensures
            r@ == quoted_list(run_names(*self)),
    {
        let n = if self.entries.len() <= self.tagged.len() {
            self.entries.len()
        } else {
            self.tagged.len()
        };
        let mut names: Vec<String> = Vec::new();
        let mut i: usize = 0;
        while i < n
            invariant
                i <= n,
                n == (if self.entries.len() <= self.tagged.len() { self.entries.len() } else { self.tagged.len() }),
                string_views(names@) == all_tagged_names(self.entries@.take(i as int), self.tagged@.take(i as int)),
            decreases n - i,
        {
            let ghost before = string_views(names@);
            proof {
                let es = self.entries@.take(i + 1);
                let ts = self.tagged@.take(i + 1);
                assert(es.take(i as int) =~= self.entries@.take(i as int));
                assert(ts.take(i as int) =~= self.tagged@.take(i as int));
            }
            if self.tagged[i] {
                names.push(self.entries[i].name.clone());
                assert(string_views(names@) =~= before.push(self.entries@[i as int].name@));
            }
            i += 1;
        }
        proof {
            let es = self.entries@;
            let ts = self.tagged@;
            if n > 0 {
                assert(es.take(n as int).take(n - 1) =~= es.take(n - 1));
                assert(ts.take(n as int).take(n - 1) =~= ts.take(n - 1));
            } else {
                assert(es.take(0) =~= Seq::<crate::app::FileEntry>::empty());
            }
        }
        if names.len() == 0 && self.cursor < self.entries.len() {
            names.push(self.entries[self.cursor].name.clone());
            assert(string_views(names@) =~= seq![self.entries@[self.cursor as int].name@]);
        }
        let mut out: Vec<char> = Vec::new();
        let mut k: usize = 0;
        while k < names.len()
            invariant
                k <= names.len(),
                out@ == quoted_list(string_views(names@).take(k as int)),
            decreases names.len() - k,
        {
            let q = shell_quote(names[k].as_str());
            let qc = chars_of(q.as_str());
            let ghost before = out@;
            if k > 0 {
                out.push(' ');
            }
            let mut j: usize = 0;
            let ghost mid = out@;
            while j < qc.len()
                invariant
                    j <= qc.len(),
                    out@ == mid + qc@.take(j as int),
                decreases qc.len() - j,
            {
                out.push(qc[j]);
                j += 1;
                assert(out@ =~= mid + qc@.take(j as int));
            }
            assert(qc@.take(qc.len() as int) =~= qc@);
            proof {
                let t = string_views(names@).take(k + 1);
                assert(t.drop_last() =~= string_views(names@).take(k as int));
                assert(t.last() == names@[k as int]@);
                if k == 0 {
                    assert(out@ =~= shell_quoted(names@[0]@));
                } else {
                    assert(out@ =~= before + seq![' '] + shell_quoted(names@[k as int]@));
                }
            }
            k += 1;
        }
        assert(string_views(names@).take(names.len() as int) =~= string_views(names@));
        string_of(&out)
    }
}

// ── Laws ─────────────────────────────────────────────────────────────────

/// The positions hold increasing values, as the matches of a search do.
pub open spec fn increasing(ms: Seq<usize>) -> bool {
    forall|i: int, k: int| 0 <= i < k < ms.len() ==> ms[i] < ms[k]
}

proof fn lemma_next_from_match(ms: Seq<usize>, j: int, i: int)
    requires
        increasing(ms),
        0 <= j < ms.len(),
        0 <= i <= j + 1,
    ensures
        next_match(ms, ms[j] as nat, i) == (if j + 1 < ms.len() { j + 1 } else { 0 }),
    decreases ms.len() - i,
{
    if i <= j {
        if i < j {
            assert(ms[i] < ms[j]);
        }
        lemma_next_from_match(ms, j, i + 1);
    } else if i < ms.len() {
        assert(ms[i] > ms[j]);
    }
}

proof fn lemma_prev_from_match(ms: Seq<usize>, k: int, i: int)
    requires
        increasing(ms),
        0 <= k < ms.len(),
        k <= i <= ms.len(),
    ensures
        prev_match(ms, ms[k] as nat, i) == (if k > 0 { k - 1 } else { ms.len() - 1 }),
    decreases i,
{
    if i > k {
        if i - 1 > k {
            assert(ms[k] < ms[i - 1]);
        }
        lemma_prev_from_match(ms, k, i - 1);
    } else if k > 0 {
        assert(ms[k - 1] < ms[k]);
    }
}

/// `n` then `N` comes back: from a match, the match before the next one
/// is the match the cursor was on (wrapping around at either end).
pub proof fn law_next_then_prev(ms: Seq<usize>, j: int)
    requires
        increasing(ms),
        0 <= j < ms.len(),
    ensures
        prev_match(ms, ms[next_match(ms, ms[j] as nat, 0)] as nat, ms.len() as int) == j,
{
    lemma_next_from_match(ms, j, 0);
    let k = next_match(ms, ms[j] as nat, 0);
    lemma_prev_from_match(ms, k, ms.len() as int);
}

/// `N` then `n` comes back: from a match, the match after the previous
/// one is the match the cursor was on.
pub proof fn law_prev_then_next(ms: Seq<usize>, j: int)
    requires
        increasing(ms),
        0 <= j < ms.len(),
    ensures
        next_match(ms, ms[prev_match(ms, ms[j] as nat, ms.len() as int)] as nat, 0) == j,
{
    lemma_prev_from_match(ms, j, ms.len() as int);
    let k = prev_match(ms, ms[j] as nat, ms.len() as int);
    lemma_next_from_match(ms, k, 0);
}


// ── Actions of the key map ───────────────────────────────────────────────

/// What the caller still has to do after [`App::apply_action`].
#[derive(Clone, Copy, PartialEq, Eq, Debug, Structural)]
pub enum ActionEffect {
    /// Nothing more.
    Done,
    /// Move the cursor (the action is one of the moves, pages or the tag
    /// and move), within the page-size limits of the move methods.
    Move,
    /// Enter the directory at the cursor, or open its file.
    OpenEntry,
    /// Go to the parent directory.
    ParentDir,
    /// Go to the home directory.
    HomeDir,
    /// Edit the file at the cursor.
    EditEntry,
    /// Build the directory tree and open the pane with the focus.
    OpenTree,
}

/// The matches that `n` and `N` jump between: those of a confirmed search,
/// else those of the last search pattern.
pub open spec fn jump_list(a: App) -> Seq<usize> {
    if a.search matches Some(s) && s.confirmed {
        a.search->Some_0.matches@
    } else if a.last_search@.len() > 0 {
        search_hits(a.entries@, a.last_search@)
    } else {
        seq![]
    }
}

/// The file dialog an action opens.
pub open spec fn action_dialog(action: Action) -> Option<DialogKind> {
    match action {
        Action::Copy => Some(DialogKind::Copy),
        Action::Move => Some(DialogKind::Move),
        Action::Delete => Some(DialogKind::DeleteConfirm),
        Action::Rename => Some(DialogKind::Rename),
        Action::Mkdir => Some(DialogKind::Mkdir),
        Action::Attr => Some(DialogKind::Attr),
        _ => None,
    }
}

/// What [`App::apply_action`] does to `o`, giving `f` and `r`.
pub open spec fn action_post(action: Action, o: App, f: App, r: ActionEffect) -> bool {
    match action {
        Action::MoveUp | Action::MoveDown | Action::MoveLeft | Action::MoveRight | Action::PageUp
        | Action::PageDown | Action::TagMove => r is Move && f == o,
        Action::Enter => r is OpenEntry && f == o,
        Action::ParentDir => r is ParentDir && f == o,
        Action::HomeDir => r is HomeDir && f == o,
        Action::Edit => r is EditEntry && f == o,
        Action::TreeToggle => if o.tree_open {
            r is Done && f == (App { tree_open: false, tree_focus: false, ..o })
        } else {
            r is OpenTree && f == o
        },
        Action::Quit => r is Done && f == (App { quit: true, ..o }),
        Action::ColMode1 => r is Done && f == (App { col_mode: 1, ..o }),
        Action::ColMode2 => r is Done && f == (App { col_mode: 2, ..o }),
        Action::ColMode3 => r is Done && f == (App { col_mode: 3, ..o }),
        Action::ColMode5 => r is Done && f == (App { col_mode: 5, ..o }),
        Action::Git => r is Done && f == (App {
            git_dialog: Some(GitDialog { state: GitDialogState::Menu }),
            ..o
        }),
        Action::Func => r is Done && (f.func_dialog matches Some(d) && d.input@.len() == 0
            && d.cursor == 0 && d.selected == 0)
            && f == (App { func_dialog: f.func_dialog, ..o }),
        Action::Run => r is Done && (f.run_dialog matches Some(d)
            && d.input@ == quoted_list(run_names(o)) && d.cursor == 0)
            && f == (App { run_dialog: f.run_dialog, ..o }),
        Action::DirJump => r is Done && (f.dir_jump_dialog matches Some(d)
            && d.input@ == o.current_dir@ && d.cursor == d.input@.len() && d.error is None)
            && f == (App { dir_jump_dialog: f.dir_jump_dialog, ..o }),
        Action::Sort => r is Done && f == (App {
            show_sort_dialog: true,
            sort_cursor: sort_line(o.sort_mode),
            ..o
        }),
        Action::Search => r is Done && (f.search matches Some(s) && s.input@.len() == 0
            && s.cursor == 0 && s.origin == o.cursor && s.matches@.len() == 0 && s.match_idx == 0
            && !s.confirmed) && f == (App { search: f.search, ..o }),
        Action::TagAll => r is Done && f.tagged@ == tags_after_toggle_all(o.entries@, o.tagged@)
            && f == (App { tagged: f.tagged, ..o }),
        Action::FirstEntry => r is Done && f == (App { cursor: f.cursor, ..o })
            && ((exists|i: int| 0 <= i < o.entries.len() && !is_dotdot(#[trigger] o.entries@[i].name@))
                ==> (f.cursor < o.entries.len()
                && !is_dotdot(o.entries@[f.cursor as int].name@)
                && forall|j: int| 0 <= j < f.cursor ==> is_dotdot(#[trigger] o.entries@[j].name@)))
            && (!(exists|i: int| 0 <= i < o.entries.len() && !is_dotdot(#[trigger] o.entries@[i].name@))
                ==> f.cursor == 0),
        Action::LastEntry => r is Done && f == (App {
            cursor: if o.entries.len() == 0 { 0 } else { (o.entries.len() - 1) as usize },
            ..o
        }),
        Action::SearchNext | Action::SearchPrev => r is Done && ({
            let ms = jump_list(o);
            if ms.len() == 0 {
                f == o
            } else {
                let k = if action is SearchNext {
                    next_match(ms, o.cursor as nat, 0)
                } else {
                    prev_match(ms, o.cursor as nat, ms.len() as int)
                };
                &&& f.cursor == ms[k]
                &&& o.search matches Some(s0) ==> f.search == Some(SearchState { match_idx: k as usize, ..s0 })
                &&& o.search is None ==> f.search is None
                &&& f == (App { cursor: f.cursor, search: f.search, ..o })
            }
        }),
        Action::Copy | Action::Move | Action::Delete | Action::Rename | Action::Mkdir | Action::Attr => r is Done && ({
            let kind = action_dialog(action)->Some_0;
            let t = op_targets(o.entries@, o.tagged@, o.cursor as nat);
            let mode = if o.cursor < o.entries.len() {
                Some(o.entries@[o.cursor as int].mode)
            } else {
                None
            };
            &&& if t.len() == 0 && !(kind is Mkdir) {
                f.file_dialog == o.file_dialog
            } else {
                f.file_dialog matches Some(d) && opens_dialog(d, kind, t, o.current_dir@, mode)
            }
            &&& f == (App { file_dialog: f.file_dialog, ..o })
        }),
    }
}

/// The actions that open a dialog or the search bar.
pub open spec fn opens_something(action: Action) -> bool {
    action is Git || action is Func || action is Run || action is DirJump || action is Sort || action is Search
        || action_dialog(action) is Some
}

/// The actions that move the cursor to an entry or a match, or tag all.
pub open spec fn picks_entries(action: Action) -> bool {
    action is TagAll || action is FirstEntry || action is LastEntry || action is SearchNext || action is SearchPrev
}

/// Executable form of [`opens_something`].
fn opens_dialog_action(action: Action) -> (r: bool)
    ensures
        r == opens_something(action),
{
    match action {
        Action::Git | Action::Func | Action::Run | Action::DirJump | Action::Sort | Action::Search | Action::Copy
        | Action::Move | Action::Delete | Action::Rename | Action::Mkdir | Action::Attr => true,
        _ => false,
    }
}

/// Executable form of [`picks_entries`].
fn picks_entry_action(action: Action) -> (r: bool)
    ensures
        r == picks_entries(action),
{
    match action {
        Action::TagAll | Action::FirstEntry | Action::LastEntry | Action::SearchNext | Action::SearchPrev => true,
        _ => false,
    }
}

impl App {
    /// Carries out an action of the key map on the app where no file,
    /// program or directory is involved, and says what is left to the
    /// caller: the column modes, quitting, opening the git menu, the command
    /// palette, the command line (with the quoted targets), the directory
    /// jump (with the current directory), the sort dialog, the search bar
    /// or a file dialog, tagging all, jumping to the first or last entry or
    /// to the next or previous search match, and closing the tree pane.
    #[verifier::rlimit(40)]
    #[verifier::spinoff_prover]
    pub fn apply_action(&mut self, action: Action) -> (r: ActionEffect)
        ensures
            action_post(action, *old(self), *final(self), r),
    {
        if opens_dialog_action(action) {
            self.apply_opening_action(action)
        } else if picks_entry_action(action) {
            self.apply_picking_action(action)
        } else {
            self.apply_other_action(action)
        }
    }

    #[verifier::rlimit(60)]
    #[verifier::spinoff_prover]
    fn apply_opening_action(&mut self, action: Action) -> (r: ActionEffect)
        requires
            opens_something(action),
        ensures
            action_post(action, *old(self), *final(self), r),
    {
        match action {
            Action::Git => {
                self.git_dialog = Some(GitDialog { state: GitDialogState::Menu });
                ActionEffect::Done
            },
            Action::Func => {
                self.func_dialog = Some(FuncDialog { input: Vec::new(), cursor: 0, selected: 0 });
                ActionEffect::Done
            },
            Action::Run => {
                let args = self.run_args();
                let input = chars_of(args.as_str());
                self.run_dialog = Some(RunDialog { input, cursor: 0 });
                ActionEffect::Done
            },
            Action::DirJump => {
                let input = chars_of(self.current_dir.as_str());
                let cursor = input.len();
                self.dir_jump_dialog = Some(DirJumpDialog { input, cursor, error: None });
                ActionEffect::Done
            },
            Action::Sort => {
                self.open_sort_dialog();
                ActionEffect::Done
            },
            Action::Search => {
                self.open_search();
                ActionEffect::Done
            },
            Action::Copy => {
                self.open_file_dialog(DialogKind::Copy);
                ActionEffect::Done
            },
            Action::Move => {
                self.open_file_dialog(DialogKind::Move);
                ActionEffect::Done
            },
            Action::Delete => {
                self.open_file_dialog(DialogKind::DeleteConfirm);
                ActionEffect::Done
            },
            Action::Rename => {
                self.open_file_dialog(DialogKind::Rename);
                ActionEffect::Done
            },
            Action::Mkdir => {
                self.open_file_dialog(DialogKind::Mkdir);
                ActionEffect::Done
            },
            Action::Attr => {
                self.open_file_dialog(DialogKind::Attr);
                ActionEffect::Done
            },
            _ => ActionEffect::Done,
        }
    }

    #[verifier::rlimit(60)]
    #[verifier::spinoff_prover]
    fn apply_picking_action(&mut self, action: Action) -> (r: ActionEffect)
        requires
            picks_entries(action),
        ensures
            action_post(action, *old(self), *final(self), r),
    {
        match action {
            Action::TagAll => {
                self.tag_all();
                ActionEffect::Done
            },
            Action::FirstEntry => {
                self.cursor = self.first_list_entry_index();
                ActionEffect::Done
            },
            Action::LastEntry => {
                self.cursor = self.last_list_entry_index();
                ActionEffect::Done
            },
            Action::SearchNext | Action::SearchPrev => {
                let matches = match self.confirmed_matches() {
                    Some(m) => m,
                    None => if chars_of(self.last_search.as_str()).len() > 0 {
                        self.compute_search_matches(self.last_search.as_str())
                    } else {
                        Vec::new()
                    },
                };
                let forward = match action {
                    Action::SearchNext => true,
                    _ => false,
                };
                self.jump_to_match(&matches, forward);
                ActionEffect::Done
            },
            _ => ActionEffect::Done,
        }
    }

    #[verifier::rlimit(60)]
    #[verifier::spinoff_prover]
    fn apply_other_action(&mut self, action: Action) -> (r: ActionEffect)
        requires
            !opens_something(action) && !picks_entries(action),
        ensures
            action_post(action, *old(self), *final(self), r),
    {
        match action {
            Action::MoveUp | Action::MoveDown | Action::MoveLeft | Action::MoveRight | Action::PageUp
            | Action::PageDown | Action::TagMove => ActionEffect::Move,
            Action::Enter => ActionEffect::OpenEntry,
            Action::ParentDir => ActionEffect::ParentDir,
            Action::HomeDir => ActionEffect::HomeDir,
            Action::Edit => ActionEffect::EditEntry,
            Action::TreeToggle => {
                if self.tree_open {
                    self.tree_open = false;
                    self.tree_focus = false;
                    ActionEffect::Done
                } else {
                    ActionEffect::OpenTree
                }
            },
            Action::Quit => {
                self.quit = true;
                ActionEffect::Done
            },
            Action::ColMode1 => {
                self.col_mode = 1;
                ActionEffect::Done
            },
            Action::ColMode2 => {
                self.col_mode = 2;
                ActionEffect::Done
            },
            Action::ColMode3 => {
                self.col_mode = 3;
                ActionEffect::Done
            },
            Action::ColMode5 => {
                self.col_mode = 5;
                ActionEffect::Done
            },
            _ => ActionEffect::Done,
        }
    }
}

} // verus!
