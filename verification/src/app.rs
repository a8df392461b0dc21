//! The browser state: the listing of the current directory, the cursor in
//! its multi-column pages, tags, the directory tree pane, the dialogs, and
//! every state change that does not itself touch the file system.
use vstd::prelude::*;
use crate::config::{Labels, UiColors};
use crate::fs_utils::GitStatus;
use crate::keymap::KeyMap;
use crate::namemap::NameMap;
use crate::style::Style;
use crate::order::{
    before, is_perm, is_stable_sort_of, kvs, lemma_lex_irrefl, lex_lt, stable_sort_by_keys, stably_sorted, KeyView, SortKey,
};
use crate::text::{
    chars_eq_str, chars_of, contains_run, lowercase, occurs_in, rfind, rfind_char, slice_chars, string_of,
    to_lowercase,
};

verus! {

// ── Data ─────────────────────────────────────────────────────────────────

/// One entry of a directory listing.
pub struct FileEntry {
    pub name: String,
    pub is_dir: bool,
    pub is_link: bool,
    pub size: u64,
    pub blocks: u64,
    pub inode: u64,
    pub nlink: u64,
    pub uid: u32,
    pub gid: u32,
    /// Modification date, `YYYY-MM-DD`.
    pub date: String,
    /// Modification time, `HH:MM`.
    pub time_str: String,
    /// Modification time, `HH:MM:SS`.
    pub time_full: String,
    /// Access time, `YYYY-MM-DD HH:MM:SS`.
    pub atime_s: String,
    /// Status change time, `YYYY-MM-DD HH:MM:SS`.
    pub ctime_s: String,
    /// Creation time, where the file system keeps one.
    pub birth_s: Option<String>,
    pub mode: u32,
}

/// The command-line dialog.
pub struct RunDialog {
    pub input: Vec<char>,
    pub cursor: usize,
}

/// One command of the command palette.
pub struct FuncCmd {
    pub name: &'static str,
    pub args: &'static str,
    pub desc_ja: &'static str,
    pub desc_en: &'static str,
}

/// The command palette: its command line and the selected suggestion.
pub struct FuncDialog {
    pub input: Vec<char>,
    pub cursor: usize,
    pub selected: usize,
}

/// The directory jump dialog.
pub struct DirJumpDialog {
    pub input: Vec<char>,
    pub cursor: usize,
    pub error: Option<String>,
}

/// The incremental search: the pattern, where the cursor was before, the
/// matching entry positions and the current match.
pub struct SearchState {
    pub input: Vec<char>,
    pub cursor: usize,
    pub origin: usize,
    pub matches: Vec<usize>,
    pub match_idx: usize,
    /// The search was confirmed with Enter: the bar is closed but the
    /// matches stay highlighted.
    pub confirmed: bool,
}

/// A git operation on the `origin` remote.
#[derive(Clone, Copy, PartialEq, Eq, Debug, Structural)]
pub enum RemoteOp {
    Fetch,
    Push,
    Pull,
}

/// What the git dialog shows.
pub enum GitDialogState {
    Menu,
    CommitMsg { input: Vec<char>, cursor: usize },
    SwitchBranch { input: Vec<char>, cursor: usize },
    /// The stash message (may be empty).
    StashMsg { input: Vec<char>, cursor: usize },
    /// The SSH passphrase for a remote operation (empty tries the agent).
    Passphrase { op: RemoteOp, input: Vec<char>, cursor: usize },
}

/// How the listing is ordered.
#[derive(Clone, Copy, PartialEq, Eq, Debug, Structural)]
pub enum SortMode {
    /// No sort: names in case-insensitive order, as for `Name`.
    Unsorted,
    Name,
    Ext,
    Size,
    Date,
}

/// The git dialog.
pub struct GitDialog {
    pub state: GitDialogState,
}

/// The file operation a file dialog asks for.
#[derive(Clone, Copy, PartialEq, Eq, Debug, Structural)]
pub enum DialogKind {
    DeleteConfirm,
    Rename,
    Copy,
    Move,
    Mkdir,
    Attr,
    CopyNewName,
}

/// What to do with a file whose name already exists at the destination.
#[derive(Clone, Copy, PartialEq, Eq, Debug, Structural)]
pub enum ConflictChoice {
    IfNewer,
    Overwrite,
    Skip,
}

/// A copy or move stopped at a name that already exists at the
/// destination.
pub struct OverwritePrompt {
    pub dest: String,
    /// The name that exists at the destination.
    pub conflict: String,
    /// The names still to copy or move after it.
    pub todo: Vec<String>,
    pub is_move: bool,
    /// The choice for every remaining conflict, once one was made for all.
    pub batch: Option<ConflictChoice>,
    /// The highlighted choice: 0 if newer, 1 overwrite, 2 rename, 3 skip.
    pub cursor: usize,
}

/// A file operation dialog.
pub struct FileDialog {
    pub kind: DialogKind,
    pub input: Vec<char>,
    pub cursor: usize,
    pub targets: Vec<String>,
    /// The destination directory of a copy under a new name.
    pub dest: Option<String>,
    /// The rename-on-conflict input is open.
    pub conflict_rename: bool,
    pub error: Option<String>,
    pub overwrite: Option<OverwritePrompt>,
}

/// A line of the directory tree pane.
pub struct TreeNode {
    pub path: String,
    pub name: String,
    pub depth: usize,
    pub expanded: bool,
    pub has_children: bool,
}

/// The browser state.
pub struct App {
    pub current_dir: String,
    pub entries: Vec<FileEntry>,
    pub cursor: usize,
    pub tagged: Vec<bool>,
    pub col_mode: u8,
    pub quit: bool,
    pub tree_open: bool,
    pub tree_focus: bool,
    pub tree_cursor: usize,
    pub tree_offset: usize,
    pub tree_nodes: Vec<TreeNode>,
    pub free_bytes: u64,
    pub total_bytes: u64,
    pub used_bytes: u64,
    pub volume_info: String,
    pub file_type: String,
    pub owner_s: String,
    pub git_branch: Option<String>,
    pub git_ahead: u32,
    pub git_behind: u32,
    pub git_status: GitStatus,
    pub ls_colors: NameMap<Style>,
    pub ui_colors: UiColors,
    pub labels: Labels,
    pub lang_en: bool,
    pub keymap: KeyMap,
    pub menu_items: Vec<(String, String)>,
    pub sort_mode: SortMode,
    pub sort_asc: bool,
    pub show_sort_dialog: bool,
    pub sort_cursor: usize,
    pub git_menu_cursor: usize,
    pub error_msg: Option<String>,
    pub success_msg: Option<String>,
    pub show_help: bool,
    pub run_dialog: Option<RunDialog>,
    pub func_dialog: Option<FuncDialog>,
    pub dir_jump_dialog: Option<DirJumpDialog>,
    pub search: Option<SearchState>,
    pub last_search: String,
    pub git_dialog: Option<GitDialog>,
    pub git_running: bool,
    pub file_dialog: Option<FileDialog>,
    pub show_hidden: bool,
    pub pager: String,
    pub editor: String,
    pub ext_programs: Vec<(String, String)>,
    pub is_root: bool,
}

/// The name of the parent directory entry.
pub open spec fn is_dotdot(name: Seq<char>) -> bool {
    name == ".."@
}

/// Whether `name` is `..`.
pub fn name_is_dotdot(name: &String) -> (r: bool)
    ensures
        r == is_dotdot(name@),
{
    chars_eq_str(&chars_of(name.as_str()), "..")
}

// ── Pages of columns ─────────────────────────────────────────────────────

/// The number of columns of a column mode (1, 2, 3 or 5; 2 otherwise).
pub open spec fn cols_of_mode(m: u8) -> nat {
    if m == 1 {
        1
    } else if m == 3 {
        3
    } else if m == 5 {
        5
    } else {
        2
    }
}

/// Entries per page: columns times rows.
pub open spec fn page_size(m: u8, lh: nat) -> nat {
    cols_of_mode(m) * lh
}

/// The first position of the page of `c`, with `pp` entries per page.
pub open spec fn page_start(c: nat, pp: nat) -> nat {
    (c / pp) * pp
}

/// The column of `c` in its page.
pub open spec fn col_in_page(c: nat, pp: nat, lh: nat) -> nat {
    ((c - page_start(c, pp)) as nat) / lh
}

/// The row of `c` in its column.
pub open spec fn row_in_col(c: nat, pp: nat, lh: nat) -> nat {
    ((c - page_start(c, pp)) as nat) % lh
}

/// The lesser of two numbers.
pub open spec fn min_nat(a: nat, b: nat) -> nat {
    if a <= b {
        a
    } else {
        b
    }
}

/// Where the cursor goes up: one row up, to the bottom of the previous
/// column, or to the last entry of the previous page.
pub open spec fn up_target(c: nat, len: nat, cols: nat, lh: nat) -> nat {
    if lh == 0 || c == 0 {
        c
    } else {
        let pp = cols * lh;
        let ps = page_start(c, pp);
        let col = col_in_page(c, pp, lh);
        let row = row_in_col(c, pp, lh);
        if row > 0 {
            (c - 1) as nat
        } else if col > 0 {
            min_nat((ps + (col - 1) * lh + lh - 1) as nat, (len - 1) as nat)
        } else if ps > 0 {
            (ps - 1) as nat
        } else {
            c
        }
    }
}

/// Where the cursor goes down: one row down, to the top of the next column,
/// or to the first entry of the next page, where such an entry exists.
pub open spec fn down_target(c: nat, len: nat, cols: nat, lh: nat) -> nat {
    if lh == 0 || c + 1 >= len {
        c
    } else {
        let pp = cols * lh;
        let ps = page_start(c, pp);
        let col = col_in_page(c, pp, lh);
        let row = row_in_col(c, pp, lh);
        if row + 1 < lh {
            c + 1
        } else if col + 1 < cols {
            if ps + (col + 1) * lh < len {
                ps + (col + 1) * lh
            } else {
                c
            }
        } else if ps + pp < len {
            ps + pp
        } else {
            c
        }
    }
}

/// Where the cursor goes left: the same row of the previous column, or of
/// the last column of the previous page.
pub open spec fn left_target(c: nat, len: nat, cols: nat, lh: nat) -> nat {
    if lh == 0 || cols <= 1 {
        c
    } else {
        let pp = cols * lh;
        let ps = page_start(c, pp);
        let col = col_in_page(c, pp, lh);
        let row = row_in_col(c, pp, lh);
        if col > 0 {
            min_nat((ps + (col - 1) * lh + row) as nat, (len - 1) as nat)
        } else if ps > 0 {
            min_nat((ps - pp + (cols - 1) * lh + row) as nat, (ps - 1) as nat)
        } else {
            c
        }
    }
}

/// Where the cursor goes right: the same row of the next column, or the
/// first entry of the next page, where such an entry exists.
pub open spec fn right_target(c: nat, len: nat, cols: nat, lh: nat) -> nat {
    if lh == 0 || cols <= 1 {
        c
    } else {
        let pp = cols * lh;
        let ps = page_start(c, pp);
        let col = col_in_page(c, pp, lh);
        let row = row_in_col(c, pp, lh);
        if col + 1 < cols {
            if ps + (col + 1) * lh + row < len {
                ps + (col + 1) * lh + row
            } else {
                c
            }
        } else if ps + pp < len {
            ps + pp
        } else {
            c
        }
    }
}

/// The facts of the page layout: the page start is a multiple of the page
/// size at or below `c`, and `c` is `col` columns and `row` rows into it.
proof fn lemma_grid(c: nat, cols: nat, lh: nat)
    requires
        cols >= 1,
        lh >= 1,
    ensures
        page_start(c, cols * lh) <= c,
        c < page_start(c, cols * lh) + cols * lh,
        col_in_page(c, cols * lh, lh) < cols,
        row_in_col(c, cols * lh, lh) < lh,
        col_in_page(c, cols * lh, lh) * lh + row_in_col(c, cols * lh, lh) + page_start(c, cols * lh)
            == c,
        page_start(c, cols * lh) % (cols * lh) == 0,
{
    let pp = cols * lh;
    assert(pp >= 1) by (nonlinear_arith)
        requires
            cols >= 1,
            lh >= 1,
            pp == cols * lh,
    ;
    let q = c / pp;
    let ps = q * pp;
    assert(ps <= c && c < ps + pp) by (nonlinear_arith)
        requires
            pp >= 1,
            q == c / pp,
            ps == q * pp,
    ;
    let d = (c - ps) as nat;
    let col = d / lh;
    let row = d % lh;
    assert(col * lh + row == d && row < lh) by (nonlinear_arith)
        requires
            lh >= 1,
            col == d / lh,
            row == d % lh,
    ;
    assert(col < cols) by (nonlinear_arith)
        requires
            col * lh + row == d,
            d < pp,
            pp == cols * lh,
            lh >= 1,
            row >= 0,
    ;
    assert(ps % pp == 0) by (nonlinear_arith)
        requires
            ps == q * pp,
            pp >= 1,
            q >= 0,
    ;
}

/// `n / d` rounded up.
pub open spec fn ceil_div(n: nat, d: nat) -> nat {
    ((n + d - 1) as nat) / d
}

proof fn lemma_ceil_div(n: nat, d: nat)
    requires
        d >= 1,
    ensures
        ceil_div(n, d) == n / d + if n % d == 0 { 0nat } else { 1nat },
        n / d <= n,
        n % d != 0 ==> n / d + 1 <= n,
{
    let q = n / d;
    let r = n % d;
    assert(n == q * d + r && r < d) by (nonlinear_arith)
        requires
            d >= 1,
            q == n / d,
            r == n % d,
    ;
    assert(q <= n) by (nonlinear_arith)
        requires
            n == q * d + r,
            d >= 1,
            r >= 0,
            q >= 0,
    ;
    assert(r != 0 ==> q + 1 <= n) by (nonlinear_arith)
        requires
            n == q * d + r,
            d >= 1,
            r >= 0,
            q >= 0,
    ;
    let m = (n + d - 1) as nat;
    if r == 0 {
        assert(m / d == q) by (nonlinear_arith)
            requires
                m == q * d + d - 1,
                d >= 1,
        ;
    } else {
        assert(m / d == q + 1) by (nonlinear_arith)
            requires
                m == q * d + r + d - 1,
                1 <= r < d,
        ;
    }
}

/// Executable form of [`up_target`].
fn grid_up(c: usize, len: usize, cols: usize, lh: usize) -> (r: usize)
    requires
        cols >= 1,
        cols * lh <= usize::MAX,
        !up_fails(c as nat, len as nat, cols as nat, lh as nat),
    ensures
        r == up_target(c as nat, len as nat, cols as nat, lh as nat),
{
    if lh == 0 || c == 0 {
        return c;
    }
    let pp = cols * lh;
    proof {
        lemma_grid(c as nat, cols as nat, lh as nat);
    }
    let ps = (c / pp) * pp;
    let col = (c - ps) / lh;
    let row = (c - ps) % lh;
    if row > 0 {
        c - 1
    } else if col > 0 {
        assert((col - 1) * lh + lh == col * lh) by (nonlinear_arith)
            requires
                col >= 1,
        ;
        let t = ps + (col - 1) * lh + lh - 1;
        let last = len - 1;
        if t <= last { t } else { last }
    } else if ps > 0 {
        ps - 1
    } else {
        c
    }
}

/// Executable form of [`down_target`].
fn grid_down(c: usize, len: usize, cols: usize, lh: usize) -> (r: usize)
    requires
        cols >= 1,
        cols * lh <= usize::MAX,
        c < usize::MAX,
        lh > 0 ==> page_start(c as nat, (cols as nat) * (lh as nat)) + cols * lh <= usize::MAX,
    ensures
        r == down_target(c as nat, len as nat, cols as nat, lh as nat),
{
    if lh == 0 || c + 1 >= len {
        return c;
    }
    let pp = cols * lh;
    proof {
        lemma_grid(c as nat, cols as nat, lh as nat);
    }
    let ps = (c / pp) * pp;
    let col = (c - ps) / lh;
    let row = (c - ps) % lh;
    if row + 1 < lh {
        c + 1
    } else if col + 1 < cols {
        assert((col + 1) * lh <= pp) by (nonlinear_arith)
            requires
                col + 1 <= cols,
                pp == cols * lh,
        ;
        let t = ps + (col + 1) * lh;
        if t < len { t } else { c }
    } else {
        let t = ps + pp;
        if t < len { t } else { c }
    }
}

/// Executable form of [`left_target`].
fn grid_left(c: usize, len: usize, cols: usize, lh: usize) -> (r: usize)
    requires
        cols >= 1,
        cols * lh <= usize::MAX,
        !left_fails(c as nat, len as nat, cols as nat, lh as nat),
    ensures
        r == left_target(c as nat, len as nat, cols as nat, lh as nat),
{
    if lh == 0 || cols <= 1 {
        return c;
    }
    let pp = cols * lh;
    proof {
        lemma_grid(c as nat, cols as nat, lh as nat);
    }
    let ps = (c / pp) * pp;
    let col = (c - ps) / lh;
    let row = (c - ps) % lh;
    if col > 0 {
        assert((col - 1) * lh + row < col * lh + row) by (nonlinear_arith)
            requires
                col >= 1,
                lh >= 1,
        ;
        let t = ps + (col - 1) * lh + row;
        let last = len - 1;
        if t <= last { t } else { last }
    } else if ps > 0 {
        assert(ps >= pp) by (nonlinear_arith)
            requires
                ps % pp == 0,
                ps > 0,
                pp >= 1,
        ;
        assert((cols - 1) * lh + row < pp) by (nonlinear_arith)
            requires
                row < lh,
                pp == cols * lh,
                cols >= 1,
        ;
        let prev_ps = ps - pp;
        let t = prev_ps + (cols - 1) * lh + row;
        if t <= ps - 1 { t } else { ps - 1 }
    } else {
        c
    }
}

/// Executable form of [`right_target`].
fn grid_right(c: usize, len: usize, cols: usize, lh: usize) -> (r: usize)
    requires
        cols >= 1,
        cols * lh <= usize::MAX,
        lh > 0 ==> page_start(c as nat, (cols as nat) * (lh as nat)) + cols * lh <= usize::MAX,
    ensures
        r == right_target(c as nat, len as nat, cols as nat, lh as nat),
{
    if lh == 0 || cols <= 1 {
        return c;
    }
    let pp = cols * lh;
    proof {
        lemma_grid(c as nat, cols as nat, lh as nat);
    }
    let ps = (c / pp) * pp;
    let col = (c - ps) / lh;
    let row = (c - ps) % lh;
    if col + 1 < cols {
        assert((col + 1) * lh + row < pp) by (nonlinear_arith)
            requires
                col + 1 < cols,
                row < lh,
                pp == cols * lh,
        ;
        let t = ps + (col + 1) * lh + row;
        if t < len { t } else { c }
    } else {
        let t = ps + pp;
        if t < len { t } else { c }
    }
}

impl App {
    /// The number of columns of the listing.
    pub fn cols(&self) -> (r: usize)
        ensures
            r == cols_of_mode(self.col_mode),
    {
        if self.col_mode == 1 {
            1
        } else if self.col_mode == 2 {
            2
        } else if self.col_mode == 3 {
            3
        } else if self.col_mode == 5 {
            5
        } else {
            2
        }
    }

    /// Entries per page for `lh` list rows.
    pub fn per_page(&self, lh: usize) -> (r: usize)
        requires
            page_size(self.col_mode, lh as nat) <= usize::MAX,
        ensures
            r == page_size(self.col_mode, lh as nat),
    {
        self.cols() * lh
    }

    /// The page of the cursor (0 when a page holds nothing).
    pub fn current_page(&self, lh: usize) -> (r: usize)
        requires
            page_size(self.col_mode, lh as nat) <= usize::MAX,
        ensures
            lh == 0 ==> r == 0,
            lh > 0 ==> r == (self.cursor as nat) / page_size(self.col_mode, lh as nat),
    {
        let pp = self.per_page(lh);
        if pp == 0 {
            0
        } else {
            self.cursor / pp
        }
    }

    /// The number of pages (at least one).
    pub fn total_pages(&self, lh: usize) -> (r: usize)
        requires
            page_size(self.col_mode, lh as nat) <= usize::MAX,
        ensures
            lh == 0 ==> r == 1,
            lh > 0 ==> r == ceil_div(
                if self.entries.len() == 0 { 1 } else { self.entries.len() as nat },
                page_size(self.col_mode, lh as nat),
            ),
    {
        let pp = self.per_page(lh);
        if pp == 0 {
            1
        } else {
            let n = if self.entries.len() == 0 {
                1
            } else {
                self.entries.len()
            };
            proof {
                lemma_ceil_div(n as nat, pp as nat);
            }
            n / pp + if n % pp == 0 {
                0
            } else {
                1
            }
        }
    }
}


/// Moving up from `c` would index past an empty listing.
pub open spec fn up_fails(c: nat, len: nat, cols: nat, lh: nat) -> bool {
    lh > 0 && c > 0 && len == 0 && row_in_col(c, cols * lh, lh) == 0 && col_in_page(c, cols * lh, lh) > 0
}

/// Moving left from `c` would index past an empty listing.
pub open spec fn left_fails(c: nat, len: nat, cols: nat, lh: nat) -> bool {
    lh > 0 && cols > 1 && len == 0 && col_in_page(c, cols * lh, lh) > 0
}

/// The names of the tagged entries other than `..`, in listing order
/// (entries and tags paired up to the shorter of the two).
pub open spec fn tagged_names(es: Seq<FileEntry>, ts: Seq<bool>) -> Seq<Seq<char>>
    decreases es.len(),
{
    if es.len() == 0 || ts.len() == 0 {
        seq![]
    } else {
        let n = if es.len() <= ts.len() { es.len() } else { ts.len() };
        let rest = tagged_names(es.take(n - 1), ts.take(n - 1));
        if ts[n - 1] && !is_dotdot(es[n - 1].name@) {
            rest.push(es[n - 1].name@)
        } else {
            rest
        }
    }
}

/// The names a file operation acts on: the tagged names, or else the name
/// under the cursor unless it is `..`.
pub open spec fn op_targets(es: Seq<FileEntry>, ts: Seq<bool>, cursor: nat) -> Seq<Seq<char>> {
    let tagged = tagged_names(es, ts);
    if tagged.len() > 0 {
        tagged
    } else if cursor < es.len() && !is_dotdot(es[cursor as int].name@) {
        seq![es[cursor as int].name@]
    } else {
        seq![]
    }
}

/// The number of directories other than `..`.
pub open spec fn dir_total(es: Seq<FileEntry>) -> nat
    decreases es.len(),
{
    if es.len() == 0 {
        0
    } else {
        dir_total(es.drop_last()) + if es.last().is_dir && !is_dotdot(es.last().name@) {
            1nat
        } else {
            0nat
        }
    }
}

/// The number of entries that are not directories.
pub open spec fn file_total(es: Seq<FileEntry>) -> nat
    decreases es.len(),
{
    if es.len() == 0 {
        0
    } else {
        file_total(es.drop_last()) + if !es.last().is_dir {
            1nat
        } else {
            0nat
        }
    }
}

/// The total size of the entries that are not directories.
pub open spec fn file_bytes(es: Seq<FileEntry>) -> nat
    decreases es.len(),
{
    if es.len() == 0 {
        0
    } else {
        file_bytes(es.drop_last()) + if !es.last().is_dir {
            es.last().size as nat
        } else {
            0nat
        }
    }
}

proof fn lemma_file_bytes_prefix(es: Seq<FileEntry>, i: int)
    requires
        0 <= i <= es.len(),
    ensures
        file_bytes(es.take(i)) <= file_bytes(es),
    decreases es.len() - i,
{
    if i < es.len() {
        assert(es.drop_last().take(i) =~= es.take(i));
        lemma_file_bytes_prefix(es.drop_last(), i);
    } else {
        assert(es.take(i) =~= es);
    }
}

/// The shorter of two lengths.
pub open spec fn pair_len(a: nat, b: nat) -> nat {
    if a <= b {
        a
    } else {
        b
    }
}

/// Every paired entry other than `..` is tagged.
pub open spec fn all_tagged(es: Seq<FileEntry>, ts: Seq<bool>) -> bool {
    forall|i: int|
        0 <= i < pair_len(es.len(), ts.len()) && !is_dotdot(#[trigger] es[i].name@) ==> ts[i]
}

/// The tags after toggling all: every paired entry other than `..` gets
/// the tag `!all_tagged`, the others keep theirs.
pub open spec fn tags_after_toggle_all(es: Seq<FileEntry>, ts: Seq<bool>) -> Seq<bool> {
    Seq::new(
        ts.len(),
        |i: int|
            if i < es.len() && !is_dotdot(es[i].name@) {
                !all_tagged(es, ts)
            } else {
                ts[i]
            },
    )
}

impl App {
    /// The first entry that is not `..` (0 when there is none).
    pub fn first_list_entry_index(&self) -> (r: usize)
        ensures
            (exists|i: int| 0 <= i < self.entries.len() && !is_dotdot(#[trigger] self.entries@[i].name@))
                ==> (r < self.entries.len() && !is_dotdot(self.entries@[r as int].name@) && forall|j: int|
                0 <= j < r ==> is_dotdot(#[trigger] self.entries@[j].name@)),
            !(exists|i: int| 0 <= i < self.entries.len() && !is_dotdot(#[trigger] self.entries@[i].name@))
                ==> r == 0,
    {
        let mut i: usize = 0;
        while i < self.entries.len()
            invariant
                i <= self.entries.len(),
                forall|j: int| 0 <= j < i ==> is_dotdot(#[trigger] self.entries@[j].name@),
            decreases self.entries.len() - i,
        {
            if !name_is_dotdot(&self.entries[i].name) {
                return i;
            }
            i += 1;
        }
        0
    }

    /// The last entry (0 when there is none).
    pub fn last_list_entry_index(&self) -> (r: usize)
        ensures
            r == if self.entries.len() == 0 { 0 } else { self.entries.len() - 1 },
    {
        if self.entries.len() == 0 {
            0
        } else {
            self.entries.len() - 1
        }
    }

    /// Moves the cursor up (see [`up_target`]).
    pub fn move_up(&mut self, lh: usize)
        requires
            page_size(old(self).col_mode, lh as nat) <= usize::MAX,
            !up_fails(old(self).cursor as nat, old(self).entries.len() as nat, cols_of_mode(old(self).col_mode), lh as nat),
        ensures
            *final(self) == (App {
                cursor: up_target(old(self).cursor as nat, old(self).entries.len() as nat, cols_of_mode(old(self).col_mode), lh as nat) as usize,
                ..*old(self)
            }),
    {
        let c = grid_up(self.cursor, self.entries.len(), self.cols(), lh);
        self.cursor = c;
    }

    /// Moves the cursor down (see [`down_target`]).
    pub fn move_down(&mut self, lh: usize)
        requires
            page_size(old(self).col_mode, lh as nat) <= usize::MAX,
            old(self).cursor < usize::MAX,
            lh > 0 ==> page_start(old(self).cursor as nat, page_size(old(self).col_mode, lh as nat))
                + page_size(old(self).col_mode, lh as nat) <= usize::MAX,
        ensures
            *final(self) == (App {
                cursor: down_target(old(self).cursor as nat, old(self).entries.len() as nat, cols_of_mode(old(self).col_mode), lh as nat) as usize,
                ..*old(self)
            }),
    {
        let c = grid_down(self.cursor, self.entries.len(), self.cols(), lh);
        self.cursor = c;
    }

    /// Moves the cursor left (see [`left_target`]).
    pub fn move_left(&mut self, lh: usize)
        requires
            page_size(old(self).col_mode, lh as nat) <= usize::MAX,
            !left_fails(old(self).cursor as nat, old(self).entries.len() as nat, cols_of_mode(old(self).col_mode), lh as nat),
        ensures
            *final(self) == (App {
                cursor: left_target(old(self).cursor as nat, old(self).entries.len() as nat, cols_of_mode(old(self).col_mode), lh as nat) as usize,
                ..*old(self)
            }),
    {
        let c = grid_left(self.cursor, self.entries.len(), self.cols(), lh);
        self.cursor = c;
    }

    /// Moves the cursor right (see [`right_target`]).
    pub fn move_right(&mut self, lh: usize)
        requires
            page_size(old(self).col_mode, lh as nat) <= usize::MAX,
            lh > 0 ==> page_start(old(self).cursor as nat, page_size(old(self).col_mode, lh as nat))
                + page_size(old(self).col_mode, lh as nat) <= usize::MAX,
        ensures
            *final(self) == (App {
                cursor: right_target(old(self).cursor as nat, old(self).entries.len() as nat, cols_of_mode(old(self).col_mode), lh as nat) as usize,
                ..*old(self)
            }),
    {
        let c = grid_right(self.cursor, self.entries.len(), self.cols(), lh);
        self.cursor = c;
    }

    /// Moves the cursor one page back (to 0 at the first page).
    pub fn page_up(&mut self, lh: usize)
        requires
            page_size(old(self).col_mode, lh as nat) <= usize::MAX,
        ensures
            *final(self) == (App {
                cursor: if lh == 0 {
                    old(self).cursor
                } else if old(self).cursor >= page_size(old(self).col_mode, lh as nat) {
                    (old(self).cursor - page_size(old(self).col_mode, lh as nat)) as usize
                } else {
                    0
                },
                ..*old(self)
            }),
    {
        let pp = self.per_page(lh);
        if pp == 0 {
            return;
        }
        self.cursor = if self.cursor >= pp {
            self.cursor - pp
        } else {
            0
        };
    }

    /// Moves the cursor one page on, or to the last entry.
    pub fn page_down(&mut self, lh: usize)
        requires
            page_size(old(self).col_mode, lh as nat) <= usize::MAX,
            old(self).cursor + page_size(old(self).col_mode, lh as nat) <= usize::MAX,
        ensures
            *final(self) == (App {
                cursor: if lh == 0 {
                    old(self).cursor
                } else if old(self).cursor + page_size(old(self).col_mode, lh as nat) < old(self).entries.len() {
                    (old(self).cursor + page_size(old(self).col_mode, lh as nat)) as usize
                } else if old(self).entries.len() == 0 {
                    0
                } else {
                    (old(self).entries.len() - 1) as usize
                },
                ..*old(self)
            }),
    {
        let pp = self.per_page(lh);
        if pp == 0 {
            return;
        }
        let t = self.cursor + pp;
        self.cursor = if t < self.entries.len() {
            t
        } else if self.entries.len() == 0 {
            0
        } else {
            self.entries.len() - 1
        };
    }

    /// Toggles the tag of the cursor entry, unless it is `..`.
    pub fn tag_toggle(&mut self)
        ensures
            ({
                let c = old(self).cursor as int;
                if c < old(self).tagged.len() && !(c < old(self).entries.len()
                    && is_dotdot(old(self).entries@[c].name@)) {
                    final(self).tagged@ == old(self).tagged@.update(c, !old(self).tagged@[c])
                } else {
                    final(self).tagged@ == old(self).tagged@
                }
            }),
            final(self).cursor == old(self).cursor,
            final(self).entries@ == old(self).entries@,
            final(self).col_mode == old(self).col_mode,
    {
        if self.cursor < self.tagged.len() {
            let dd = self.cursor < self.entries.len() && name_is_dotdot(&self.entries[self.cursor].name);
            if !dd {
                let c = self.cursor;
                let v = !self.tagged[c];
                self.tagged.set(c, v);
            }
        }
    }

    /// Toggles the tag of the cursor entry, then moves down.
    pub fn tag_toggle_move(&mut self, lh: usize)
        requires
            page_size(old(self).col_mode, lh as nat) <= usize::MAX,
            old(self).cursor < usize::MAX,
            lh > 0 ==> page_start(old(self).cursor as nat, page_size(old(self).col_mode, lh as nat))
                + page_size(old(self).col_mode, lh as nat) <= usize::MAX,
        ensures
            ({
                let c = old(self).cursor as int;
                if c < old(self).tagged.len() && !(c < old(self).entries.len()
                    && is_dotdot(old(self).entries@[c].name@)) {
                    final(self).tagged@ == old(self).tagged@.update(c, !old(self).tagged@[c])
                } else {
                    final(self).tagged@ == old(self).tagged@
                }
            }),
            final(self).cursor == down_target(old(self).cursor as nat, old(self).entries.len() as nat, cols_of_mode(old(self).col_mode), lh as nat),
            final(self).entries@ == old(self).entries@,
    {
        self.tag_toggle();
        self.move_down(lh);
    }

    /// Tags every entry but `..`, or untags them all when all are tagged.
    pub fn tag_all(&mut self)
        ensures
            final(self).tagged@ == tags_after_toggle_all(old(self).entries@, old(self).tagged@),
            *final(self) == (App { tagged: final(self).tagged, ..*old(self) }),
            final(self).entries@ == old(self).entries@,
            final(self).cursor == old(self).cursor,
    {
        let n = if self.entries.len() <= self.tagged.len() {
            self.entries.len()
        } else {
            self.tagged.len()
        };
        let mut all = true;
        let mut i: usize = 0;
        while i < n
            invariant
                i <= n,
                n == pair_len(self.entries.len() as nat, self.tagged.len() as nat),
                all == forall|j: int| 0 <= j < i && !is_dotdot(#[trigger] self.entries@[j].name@) ==> self.tagged@[j],
            decreases n - i,
        {
            if !name_is_dotdot(&self.entries[i].name) && !self.tagged[i] {
                all = false;
            }
            i += 1;
        }
        assert(all == all_tagged(self.entries@, self.tagged@));
        let ghost ts0 = self.tagged@;
        let mut k: usize = 0;
        while k < n
            invariant
                k <= n,
                n == pair_len(self.entries.len() as nat, self.tagged.len() as nat),
                self.entries@ == old(self).entries@,
                self.cursor == old(self).cursor,
                *self == (App { tagged: self.tagged, ..*old(self) }),
                ts0 == old(self).tagged@,
                self.tagged@.len() == ts0.len(),
                all == all_tagged(self.entries@, ts0),
                forall|j: int| 0 <= j < k ==> #[trigger] self.tagged@[j] == tags_after_toggle_all(self.entries@, ts0)[j],
                forall|j: int| k <= j < ts0.len() ==> #[trigger] self.tagged@[j] == ts0[j],
            decreases n - k,
        {
            if !name_is_dotdot(&self.entries[k].name) {
                self.tagged.set(k, !all);
            }
            k += 1;
        }
        assert(self.tagged@ =~= tags_after_toggle_all(self.entries@, ts0));
    }

    /// The number of directories other than `..`.
    pub fn dir_count(&self) -> (r: usize)
        ensures
            r == dir_total(self.entries@),
    {
        let mut c: usize = 0;
        let mut i: usize = 0;
        while i < self.entries.len()
            invariant
                i <= self.entries.len(),
                c == dir_total(self.entries@.take(i as int)),
                c <= i,
            decreases self.entries.len() - i,
        {
            assert(self.entries@.take(i + 1).drop_last() =~= self.entries@.take(i as int));
            if self.entries[i].is_dir && !name_is_dotdot(&self.entries[i].name) {
                c += 1;
            }
            i += 1;
        }
        assert(self.entries@.take(self.entries.len() as int) =~= self.entries@);
        c
    }

    /// The number of entries that are not directories.
    pub fn file_count(&self) -> (r: usize)
        ensures
            r == file_total(self.entries@),
    {
        let mut c: usize = 0;
        let mut i: usize = 0;
        while i < self.entries.len()
            invariant
                i <= self.entries.len(),
                c == file_total(self.entries@.take(i as int)),
                c <= i,
            decreases self.entries.len() - i,
        {
            assert(self.entries@.take(i + 1).drop_last() =~= self.entries@.take(i as int));
            if !self.entries[i].is_dir {
                c += 1;
            }
            i += 1;
        }
        assert(self.entries@.take(self.entries.len() as int) =~= self.entries@);
        c
    }

    /// The total size of the entries that are not directories.
    pub fn current_total_bytes(&self) -> (r: u64)
        requires
            file_bytes(self.entries@) <= u64::MAX,
        ensures
            r == file_bytes(self.entries@),
    {
        let mut total: u64 = 0;
        let mut i: usize = 0;
        while i < self.entries.len()
            invariant
                i <= self.entries.len(),
                total == file_bytes(self.entries@.take(i as int)),
                file_bytes(self.entries@) <= u64::MAX,
            decreases self.entries.len() - i,
        {
            assert(self.entries@.take(i + 1).drop_last() =~= self.entries@.take(i as int));
            proof {
                lemma_file_bytes_prefix(self.entries@, i + 1);
            }
            if !self.entries[i].is_dir {
                total = total + self.entries[i].size;
            }
            i += 1;
        }
        assert(self.entries@.take(self.entries.len() as int) =~= self.entries@);
        total
    }

    /// The names a file operation acts on: the tagged entries other than
    /// `..`, or else the cursor entry unless it is `..`.
    pub fn collect_op_targets(&self) -> (r: Vec<String>)
        ensures
            crate::fs_utils::string_views(r@) == op_targets(self.entries@, self.tagged@, self.cursor as nat),
    {
        let n = if self.entries.len() <= self.tagged.len() {
            self.entries.len()
        } else {
            self.tagged.len()
        };
        let mut out: Vec<String> = Vec::new();
        let mut i: usize = 0;
        while i < n
            invariant
                i <= n,
                n == pair_len(self.entries.len() as nat, self.tagged.len() as nat),
                crate::fs_utils::string_views(out@) == tagged_names(self.entries@.take(i as int), self.tagged@.take(i as int)),
            decreases n - i,
        {
            let ghost before = out@;
            proof {
                let es = self.entries@.take(i + 1);
                let ts = self.tagged@.take(i + 1);
                assert(es.take(i as int) =~= self.entries@.take(i as int));
                assert(ts.take(i as int) =~= self.tagged@.take(i as int));
            }
            if self.tagged[i] && !name_is_dotdot(&self.entries[i].name) {
                out.push(self.entries[i].name.clone());
                assert(crate::fs_utils::string_views(out@) =~= crate::fs_utils::string_views(before).push(self.entries@[i as int].name@));
            } else {
                assert(crate::fs_utils::string_views(out@) =~= crate::fs_utils::string_views(before));
            }
            i += 1;
        }
        proof {
            lemma_tagged_names_pair(self.entries@, self.tagged@);
        }
        if out.len() > 0 {
            out
        } else if self.cursor < self.entries.len() && !name_is_dotdot(&self.entries[self.cursor].name) {
            let mut v: Vec<String> = Vec::new();
            v.push(self.entries[self.cursor].name.clone());
            assert(crate::fs_utils::string_views(v@) =~= seq![self.entries@[self.cursor as int].name@]);
            v
        } else {
            let v: Vec<String> = Vec::new();
            assert(crate::fs_utils::string_views(v@) =~= Seq::<Seq<char>>::empty());
            v
        }
    }
}

proof fn lemma_tagged_names_pair(es: Seq<FileEntry>, ts: Seq<bool>)
    ensures
        tagged_names(es, ts) == tagged_names(
            es.take(pair_len(es.len(), ts.len()) as int),
            ts.take(pair_len(es.len(), ts.len()) as int),
        ),
{
    let n = pair_len(es.len(), ts.len()) as int;
    if n > 0 {
        let a = es.take(n);
        let b = ts.take(n);
        assert(a.take(n - 1) =~= es.take(n - 1));
        assert(b.take(n - 1) =~= ts.take(n - 1));
        assert(a.take(n - 1) =~= a.take(n - 1));
    } else {
        assert(es.take(n) =~= Seq::<FileEntry>::empty());
    }
}


// ── Listing order ────────────────────────────────────────────────────────

/// The extension of a file name as `Path::extension` gives it: what follows
/// the last `.`, unless that dot begins the name (empty when there is none).
pub open spec fn ext_of(name: Seq<char>) -> Seq<char> {
    let i = rfind_char(name, '.');
    if i <= 0 {
        seq![]
    } else {
        name.skip(i + 1)
    }
}

/// The sort key of an entry: lowercase name; lowercase extension then
/// lowercase name; size; or date then time.
pub open spec fn entry_key(e: FileEntry, mode: SortMode) -> KeyView {
    match mode {
        SortMode::Ext => (lowercase(ext_of(e.name@)), lowercase(e.name@), 0),
        SortMode::Size => (seq![], seq![], e.size as nat),
        SortMode::Date => (e.date@, e.time_str@, 0),
        _ => (lowercase(e.name@), seq![], 0),
    }
}

/// The sort keys of a sequence of entries.
pub open spec fn entry_keys(es: Seq<FileEntry>, mode: SortMode) -> Seq<KeyView> {
    es.map_values(|e: FileEntry| entry_key(e, mode))
}

/// The entries that are listed: all, or those whose name does not start
/// with `.` when hidden files are not shown.
pub open spec fn listed(es: Seq<FileEntry>, show_hidden: bool, want_dirs: bool) -> Seq<FileEntry>
    decreases es.len(),
{
    if es.len() == 0 {
        seq![]
    } else {
        let rest = listed(es.drop_last(), show_hidden, want_dirs);
        let e = es.last();
        if e.is_dir == want_dirs && (show_hidden || !(e.name@.len() > 0 && e.name@[0] == '.')) {
            rest.push(e)
        } else {
            rest
        }
    }
}

fn entry_sort_key(e: &FileEntry, mode: SortMode) -> (r: SortKey)
    ensures
        r.kv() == entry_key(*e, mode),
{
    let name = chars_of(e.name.as_str());
    match mode {
        SortMode::Ext => {
            let nl = name.len();
            let ext: Vec<char> = match rfind(&name, '.') {
                Some(i) => {
                    if i == 0 {
                        Vec::new()
                    } else {
                        slice_chars(&name, i + 1, nl)
                    }
                },
                None => Vec::new(),
            };
            proof {
                if rfind_char(name@, '.') > 0 {
                    assert(ext@ == name@.skip(rfind_char(name@, '.') + 1));
                } else {
                    assert(ext@ =~= Seq::<char>::empty());
                }
            }
            SortKey { major: to_lowercase(&ext), minor: to_lowercase(&name), num: 0 }
        },
        SortMode::Size => SortKey { major: Vec::new(), minor: Vec::new(), num: e.size },
        SortMode::Date => SortKey {
            major: chars_of(e.date.as_str()),
            minor: chars_of(e.time_str.as_str()),
            num: 0,
        },
        _ => SortKey { major: to_lowercase(&name), minor: Vec::new(), num: 0 },
    }
}

/// Sorts entries by the key of `mode`, ascending or descending, equal keys
/// keeping the listing order.
pub fn sort_entries(es: Vec<FileEntry>, mode: SortMode, asc: bool) -> (r: Vec<FileEntry>)
    ensures
        is_stable_sort_of(r@, es@, entry_keys(es@, mode), !asc),
{
    let mut keys: Vec<SortKey> = Vec::new();
    let mut i: usize = 0;
    while i < es.len()
        invariant
            i <= es.len(),
            kvs(keys@) == entry_keys(es@.take(i as int), mode),
        decreases es.len() - i,
    {
        let k = entry_sort_key(&es[i], mode);
        let ghost before = kvs(keys@);
        keys.push(k);
        assert(kvs(keys@) =~= entry_keys(es@.take(i + 1), mode)) by {
            assert(kvs(keys@) =~= before.push(entry_key(es@[i as int], mode)));
        }
        i += 1;
    }
    assert(es@.take(es.len() as int) =~= es@);
    stable_sort_by_keys(es, keys, !asc)
}

/// The entry standing for the parent directory.
pub open spec fn is_parent_entry(e: FileEntry, mode: u32) -> bool {
    &&& e.name@ == ".."@
    &&& e.is_dir
    &&& !e.is_link
    &&& e.size == 0 && e.blocks == 0 && e.inode == 0 && e.nlink == 0 && e.uid == 0 && e.gid == 0
    &&& e.date@.len() == 0 && e.time_str@.len() == 0 && e.time_full@.len() == 0
    &&& e.atime_s@.len() == 0 && e.ctime_s@.len() == 0 && e.birth_s is None
    &&& e.mode == mode
}

fn parent_entry(mode: u32) -> (r: FileEntry)
    ensures
        is_parent_entry(r, mode),
{
    proof {
        reveal_strlit("..");
    }
    let mut dd: Vec<char> = Vec::new();
    dd.push('.');
    dd.push('.');
    assert(dd@ =~= ".."@);
    FileEntry {
        name: string_of(&dd),
        is_dir: true,
        is_link: false,
        size: 0,
        blocks: 0,
        inode: 0,
        nlink: 0,
        uid: 0,
        gid: 0,
        date: String::new(),
        time_str: String::new(),
        time_full: String::new(),
        atime_s: String::new(),
        ctime_s: String::new(),
        birth_s: None,
        mode,
    }
}

/// `out` is a listing of `raw`: `..` first when there is a parent, then the
/// listed directories, then the listed files, each group sorted by `mode`.
pub open spec fn is_listing_of(
    out: Seq<FileEntry>,
    raw: Seq<FileEntry>,
    has_parent: bool,
    parent_mode: u32,
    show_hidden: bool,
    mode: SortMode,
    asc: bool,
) -> bool {
    let p: int = if has_parent { 1 } else { 0 };
    let dirs = listed(raw, show_hidden, true);
    let files = listed(raw, show_hidden, false);
    &&& out.len() == p + dirs.len() + files.len()
    &&& has_parent ==> is_parent_entry(out[0], parent_mode)
    &&& is_stable_sort_of(out.subrange(p, p + dirs.len()), dirs, entry_keys(dirs, mode), !asc)
    &&& is_stable_sort_of(out.skip(p + dirs.len()), files, entry_keys(files, mode), !asc)
}

fn split_listed(raw: Vec<FileEntry>, show_hidden: bool) -> (r: (Vec<FileEntry>, Vec<FileEntry>))
    ensures
        r.0@ == listed(raw@, show_hidden, true),
        r.1@ == listed(raw@, show_hidden, false),
{
    let ghost r0 = raw@;
    let n = raw.len();
    let mut raw = raw;
    let mut dirs: Vec<FileEntry> = Vec::new();
    let mut files: Vec<FileEntry> = Vec::new();
    let mut i: usize = 0;
    while raw.len() > 0
        invariant
            n == r0.len(),
            raw@ == r0.skip(i as int),
            i + raw@.len() == n,
            dirs@ == listed(r0.take(i as int), show_hidden, true),
            files@ == listed(r0.take(i as int), show_hidden, false),
        decreases raw@.len(),
    {
        let e = raw.remove(0);
        assert(r0.take(i + 1).drop_last() =~= r0.take(i as int));
        assert(r0.take(i + 1).last() == e);
        let nm = chars_of(e.name.as_str());
        let hidden = nm.len() > 0 && nm[0] == '.';
        if show_hidden || !hidden {
            if e.is_dir {
                dirs.push(e);
            } else {
                files.push(e);
            }
        }
        i += 1;
        assert(raw@ =~= r0.skip(i as int));
    }
    assert(r0.take(n as int) =~= r0);
    (dirs, files)
}

/// The listing of a directory: `..` (with the directory's own mode) when
/// it has a parent, then its directories, then its files, each group
/// sorted; names starting with `.` are left out unless `show_hidden`.
pub fn arrange_listing(
    raw: Vec<FileEntry>,
    has_parent: bool,
    parent_mode: u32,
    show_hidden: bool,
    mode: SortMode,
    asc: bool,
) -> (r: Vec<FileEntry>)
    ensures
        is_listing_of(r@, raw@, has_parent, parent_mode, show_hidden, mode, asc),
{
    let ghost r0 = raw@;
    let (dirs, files) = split_listed(raw, show_hidden);
    let sd = sort_entries(dirs, mode, asc);
    let sf = sort_entries(files, mode, asc);
    let mut out: Vec<FileEntry> = Vec::new();
    if has_parent {
        out.push(parent_entry(parent_mode));
    }
    let p = out.len();
    let ghost sd0 = sd@;
    let ghost sf0 = sf@;
    let mut sd = sd;
    let mut sf = sf;
    out.append(&mut sd);
    let q = out.len();
    out.append(&mut sf);
    assert(out@.subrange(p as int, q as int) =~= sd0);
    assert(out@.skip(q as int) =~= sf0);
    out
}

// ── Search ───────────────────────────────────────────────────────────────

/// Whether `p` compiles as a case-insensitive regular expression
/// (`RegexBuilder::new(p).case_insensitive(true).build()` succeeds).
pub uninterp spec fn regex_ci_valid(p: Seq<char>) -> bool;

/// Whether the case-insensitive regular expression `p` matches somewhere
/// in `t` (`Regex::is_match`).
pub uninterp spec fn regex_ci_match(p: Seq<char>, t: Seq<char>) -> bool;

/// Compiles `p` as a case-insensitive regular expression with
/// `regex::RegexBuilder` and tests it on `t` with `Regex::is_match`:
/// `None` when `p` does not compile.
#[verifier::external_body]
fn regex_ci_test(p: &str, t: &str) -> (r: Option<bool>)
    ensures
        r == (if regex_ci_valid(p@) { Some(regex_ci_match(p@, t@)) } else { None::<bool> }),
{
    match regex::RegexBuilder::new(p).case_insensitive(true).build() {
        Ok(re) => Some(re.is_match(t)),
        Err(_) => None,
    }
}

/// Whether a search pattern finds a name: as a case-insensitive regular
/// expression, or, when it is not one, as a lowercase substring.
pub open spec fn search_hit(p: Seq<char>, name: Seq<char>) -> bool {
    if regex_ci_valid(p) {
        regex_ci_match(p, name)
    } else {
        occurs_in(lowercase(name), lowercase(p))
    }
}

/// The positions of the entries among the first `n` that the pattern
/// finds, `..` excepted.
pub open spec fn hits_upto(es: Seq<FileEntry>, p: Seq<char>, n: int) -> Seq<usize>
    decreases n,
{
    if n <= 0 {
        seq![]
    } else if !is_dotdot(es[n - 1].name@) && search_hit(p, es[n - 1].name@) {
        hits_upto(es, p, n - 1).push((n - 1) as usize)
    } else {
        hits_upto(es, p, n - 1)
    }
}

/// The positions of the entries that the pattern finds (none for an empty
/// pattern).
pub open spec fn search_hits(es: Seq<FileEntry>, p: Seq<char>) -> Seq<usize> {
    if p.len() == 0 {
        seq![]
    } else {
        hits_upto(es, p, es.len() as int)
    }
}

fn name_hit(p: &str, pl: &Vec<char>, name: &String) -> (r: bool)
    requires
        pl@ == lowercase(p@),
    ensures
        r == search_hit(p@, name@),
{
    match regex_ci_test(p, name.as_str()) {
        Some(b) => b,
        None => {
            let nl = to_lowercase(&chars_of(name.as_str()));
            contains_run(&nl, pl)
        },
    }
}

impl App {
    /// Replaces the listing: `raw` arranged by the current sort (see
    /// [`arrange_listing`]), every tag cleared and the search closed.
    pub fn load_entries(&mut self, raw: Vec<FileEntry>, has_parent: bool, parent_mode: u32)
        ensures
            is_listing_of(final(self).entries@, raw@, has_parent, parent_mode, old(self).show_hidden,
                old(self).sort_mode, old(self).sort_asc),
            final(self).tagged@ == Seq::new(final(self).entries@.len(), |_i: int| false),
            final(self).search is None,
            final(self).cursor == old(self).cursor,
            final(self).sort_mode == old(self).sort_mode,
            final(self).sort_asc == old(self).sort_asc,
            final(self).show_hidden == old(self).show_hidden,
            final(self).col_mode == old(self).col_mode,
            final(self).current_dir@ == old(self).current_dir@,
    {
        self.search = None;
        let es = arrange_listing(raw, has_parent, parent_mode, self.show_hidden, self.sort_mode, self.sort_asc);
        let n = es.len();
        self.entries = es;
        let mut t: Vec<bool> = Vec::new();
        let mut i: usize = 0;
        while i < n
            invariant
                i <= n,
                t@ == Seq::new(i as nat, |_i: int| false),
            decreases n - i,
        {
            t.push(false);
            i += 1;
            assert(t@ =~= Seq::new(i as nat, |_i: int| false));
        }
        self.tagged = t;
    }

    /// The positions of the entries whose names the search pattern finds:
    /// as a case-insensitive regular expression, else as a lowercase
    /// substring; `..` never matches and an empty pattern finds nothing.
    pub fn compute_search_matches(&self, pattern: &str) -> (r: Vec<usize>)
        ensures
            r@ == search_hits(self.entries@, pattern@),
    {
        let pc = chars_of(pattern);
        if pc.len() == 0 {
            return Vec::new();
        }
        let pl = to_lowercase(&pc);
        let mut out: Vec<usize> = Vec::new();
        let mut i: usize = 0;
        while i < self.entries.len()
            invariant
                i <= self.entries.len(),
                pc@ == pattern@,
                pc@.len() > 0,
                pl@ == lowercase(pattern@),
                out@ == hits_upto(self.entries@, pattern@, i as int),
            decreases self.entries.len() - i,
        {
            if !name_is_dotdot(&self.entries[i].name) && name_hit(pattern, &pl, &self.entries[i].name) {
                out.push(i);
            }
            i += 1;
        }
        out
    }
}


// ── Laws of the cursor, tags and search ──────────────────────────────────

/// A position given as page, column and row has that page start, column
/// and row.
proof fn lemma_position(x: nat, q: nat, col: nat, row: nat, cols: nat, lh: nat)
    requires
        cols >= 1,
        lh >= 1,
        col < cols,
        row < lh,
        x == q * (cols * lh) + col * lh + row,
    ensures
        page_start(x, cols * lh) == q * (cols * lh),
        col_in_page(x, cols * lh, lh) == col,
        row_in_col(x, cols * lh, lh) == row,
{
    let pp = cols * lh;
    assert(col * lh + row < pp) by (nonlinear_arith)
        requires
            col < cols,
            row < lh,
            pp == cols * lh,
    ;
    assert(x / pp == q) by (nonlinear_arith)
        requires
            x == q * pp + col * lh + row,
            col * lh + row < pp,
            col * lh + row >= 0,
            pp >= 1,
    ;
    let d = (x - q * pp) as nat;
    assert(d == col * lh + row);
    assert(d / lh == col && d % lh == row) by (nonlinear_arith)
        requires
            d == col * lh + row,
            row < lh,
            lh >= 1,
    ;
}

/// The page, column and row of a position.
proof fn lemma_split(c: nat, cols: nat, lh: nat) -> (q: nat)
    requires
        cols >= 1,
        lh >= 1,
    ensures
        page_start(c, cols * lh) == q * (cols * lh),
        c == q * (cols * lh) + col_in_page(c, cols * lh, lh) * lh + row_in_col(c, cols * lh, lh),
        col_in_page(c, cols * lh, lh) < cols,
        row_in_col(c, cols * lh, lh) < lh,
{
    lemma_grid(c, cols, lh);
    c / (cols * lh)
}

/// Moving never leaves the listing: from an entry, each move lands on an
/// entry.
pub proof fn law_moves_stay_in_listing(c: nat, len: nat, cols: nat, lh: nat)
    requires
        c < len,
        cols >= 1,
    ensures
        up_target(c, len, cols, lh) < len,
        down_target(c, len, cols, lh) < len,
        left_target(c, len, cols, lh) < len,
        right_target(c, len, cols, lh) < len,
{
    if lh >= 1 {
        lemma_grid(c, cols, lh);
    }
}

/// Moving down never goes back: from an entry the cursor lands on the same
/// or a later entry, stays on the last entry, and goes to the next entry
/// while that is in the same column.
pub proof fn law_down_moves_forward(c: nat, len: nat, cols: nat, lh: nat)
    requires
        c < len,
        cols >= 1,
    ensures
        c <= down_target(c, len, cols, lh) < len,
        c + 1 >= len ==> down_target(c, len, cols, lh) == c,
        (lh >= 1 && c % lh + 1 < lh && c + 1 < len) ==> down_target(c, len, cols, lh) == c + 1,
{
    law_moves_stay_in_listing(c, len, cols, lh);
    if lh >= 1 {
        let pp = cols * lh;
        let q = lemma_split(c, cols, lh);
        let col = col_in_page(c, pp, lh);
        let row = row_in_col(c, pp, lh);
        let ps = page_start(c, pp);
        assert(c % lh == row) by (nonlinear_arith)
            requires
                c == q * (cols * lh) + col * lh + row,
                row < lh,
                lh >= 1,
        {
            assert(c == (q * cols + col) * lh + row);
        }
        assert(ps + (col + 1) * lh > c) by (nonlinear_arith)
            requires
                c == ps + col * lh + row,
                row < lh,
        ;
        assert(ps + pp > c) by (nonlinear_arith)
            requires
                c == ps + col * lh + row,
                row < lh,
                col < cols,
                pp == cols * lh,
        ;
    }
}

/// The law of [`App::move_down`] on the app itself: `b` is what
/// `move_down(lh)` makes of `a`; from an entry the cursor lands on the same
/// or a later entry, stays on the last entry, and goes to the next entry
/// while that is in the same column. Nothing else changes.
pub proof fn law_move_down(a: App, b: App, lh: usize)
    requires
        a.cursor < a.entries.len(),
        b == (App {
            cursor: down_target(a.cursor as nat, a.entries.len() as nat, cols_of_mode(a.col_mode), lh as nat) as usize,
            ..a
        }),
    ensures
        a.cursor <= b.cursor < a.entries.len(),
        a.cursor + 1 >= a.entries.len() ==> b.cursor == a.cursor,
        (lh > 0 && (a.cursor as int) % (lh as int) + 1 < lh as int && a.cursor + 1 < a.entries.len()) ==> b.cursor == a.cursor + 1,
        b.entries@ == a.entries@ && b.current_dir@ == a.current_dir@,
{
    law_down_moves_forward(a.cursor as nat, a.entries.len() as nat, cols_of_mode(a.col_mode), lh as nat);
}

/// Moving left from any column but the first of its page keeps the row:
/// the cursor goes exactly one column, `lh` entries, back.
pub proof fn law_left_keeps_row(c: nat, len: nat, cols: nat, lh: nat)
    requires
        c < len,
        cols >= 1,
        lh >= 1,
        c % (cols * lh) >= lh,
    ensures
        left_target(c, len, cols, lh) == c - lh,
{
    let pp = cols * lh;
    let q = lemma_split(c, cols, lh);
    let col = col_in_page(c, pp, lh);
    let row = row_in_col(c, pp, lh);
    assert((col + 1) * lh <= cols * lh) by (nonlinear_arith)
        requires
            col + 1 <= cols,
            lh >= 1,
    ;
    assert(col * lh + row < pp) by (nonlinear_arith)
        requires
            (col + 1) * lh <= cols * lh,
            row < lh,
            pp == cols * lh,
    ;
    assert(c % pp == col * lh + row) by (nonlinear_arith)
        requires
            c == q * pp + col * lh + row,
            col * lh + row < pp,
            pp >= 1,
    ;
    assert(col >= 1) by (nonlinear_arith)
        requires
            col * lh + row >= lh,
            row < lh,
            lh >= 1,
    ;
    assert(cols >= 2);
    assert(q * pp + (col - 1) * lh + row == c - lh) by (nonlinear_arith)
        requires
            c == q * pp + col * lh + row,
            col >= 1,
    ;
}

/// A move right by one column is undone by a move left: when moving right
/// took the cursor exactly `lh` entries on (to the same row of the next
/// column, or from the top of the last column to the next page), moving
/// left brings it back.
pub proof fn law_right_then_left(c: nat, len: nat, cols: nat, lh: nat)
    requires
        c < len,
        cols >= 1,
        lh >= 1,
        right_target(c, len, cols, lh) == c + lh,
    ensures
        left_target(c + lh, len, cols, lh) == c,
{
    let pp = cols * lh;
    let q = lemma_split(c, cols, lh);
    let col = col_in_page(c, pp, lh);
    let row = row_in_col(c, pp, lh);
    let ps = page_start(c, pp);
    let d = c + lh;
    assert(cols >= 2);
    if col + 1 < cols {
        assert(d == q * pp + (col + 1) * lh + row) by (nonlinear_arith)
            requires
                c == q * pp + col * lh + row,
                d == c + lh,
        ;
        lemma_position(d, q, col + 1, row, cols, lh);
        assert(q * pp + (col + 1 - 1) * lh + row == c) by (nonlinear_arith)
            requires
                c == q * pp + col * lh + row,
        ;
    } else {
        // the top of the last column goes to the next page
        assert(d == ps + pp);
        assert(col * lh + row + lh == pp);
        assert(row == 0 && col == cols - 1) by (nonlinear_arith)
            requires
                col * lh + row + lh == pp,
                pp == cols * lh,
                col + 1 >= cols,
                col < cols,
                row < lh,
                lh >= 1,
        ;
        assert(d == (q + 1) * pp + 0 * lh + 0) by (nonlinear_arith)
            requires
                d == ps + pp,
                ps == q * pp,
        ;
        lemma_position(d, q + 1, 0, 0, cols, lh);
        assert((q + 1) * pp - pp + (cols - 1) * lh + 0 == c) by (nonlinear_arith)
            requires
                c == q * pp + col * lh + row,
                col == cols - 1,
                row == 0,
        ;
        assert((q + 1) * pp >= 1) by (nonlinear_arith)
            requires
                pp == cols * lh,
                cols >= 1,
                lh >= 1,
        ;
    }
}

/// Moving down and then up comes back to where the cursor was, whenever
/// the move down moved it.
pub proof fn law_down_then_up(c: nat, len: nat, cols: nat, lh: nat)
    requires
        cols >= 1,
        down_target(c, len, cols, lh) != c,
    ensures
        up_target(down_target(c, len, cols, lh), len, cols, lh) == c,
{
    let pp = cols * lh;
    let q = lemma_split(c, cols, lh);
    let col = col_in_page(c, pp, lh);
    let row = row_in_col(c, pp, lh);
    let ps = page_start(c, pp);
    let d = down_target(c, len, cols, lh);
    if row + 1 < lh {
        lemma_position(d, q, col, row + 1, cols, lh);
    } else if col + 1 < cols {
        assert(d == q * pp + (col + 1) * lh + 0) by (nonlinear_arith)
            requires
                d == ps + (col + 1) * lh,
                ps == q * pp,
        ;
        lemma_position(d, q, col + 1, 0, cols, lh);
        assert((col + 1 - 1) * lh + lh - 1 == col * lh + row) by (nonlinear_arith)
            requires
                row == lh - 1,
                lh >= 1,
        ;
    } else {
        assert(d == (q + 1) * pp + 0 * lh + 0) by (nonlinear_arith)
            requires
                d == ps + pp,
                ps == q * pp,
        ;
        lemma_position(d, q + 1, 0, 0, cols, lh);
        assert(pp == (cols - 1) * lh + lh) by (nonlinear_arith)
            requires
                pp == cols * lh,
                cols >= 1,
        ;
        assert((q + 1) * pp > 0) by (nonlinear_arith)
            requires
                pp >= 1,
        ;
    }
}

/// Moving up and then down comes back to where the cursor was, whenever
/// the move up moved it from an entry.
pub proof fn law_up_then_down(c: nat, len: nat, cols: nat, lh: nat)
    requires
        cols >= 1,
        c < len,
        up_target(c, len, cols, lh) != c,
    ensures
        down_target(up_target(c, len, cols, lh), len, cols, lh) == c,
{
    let pp = cols * lh;
    let q = lemma_split(c, cols, lh);
    let col = col_in_page(c, pp, lh);
    let row = row_in_col(c, pp, lh);
    let ps = page_start(c, pp);
    let u = up_target(c, len, cols, lh);
    if row > 0 {
        lemma_position(u, q, col, (row - 1) as nat, cols, lh);
        assert(u + 1 == c);
    } else if col > 0 {
        assert(ps + (col - 1) * lh + lh - 1 == c - 1) by (nonlinear_arith)
            requires
                c == ps + col * lh + row,
                row == 0,
                col >= 1,
        ;
        assert(u == q * pp + ((col - 1) as nat) * lh + ((lh - 1) as nat)) by (nonlinear_arith)
            requires
                u == c - 1,
                c == q * pp + col * lh,
                col >= 1,
                lh >= 1,
        ;
        lemma_position(u, q, (col - 1) as nat, (lh - 1) as nat, cols, lh);
        assert(((col - 1) as nat + 1) * lh == col * lh);
        assert(page_start(u, pp) + ((col - 1) as nat + 1) * lh == c);
    } else {
        assert(q >= 1) by (nonlinear_arith)
            requires
                ps == q * pp,
                ps > 0,
        ;
        assert(u == ((q - 1) as nat) * pp + ((cols - 1) as nat) * lh + ((lh - 1) as nat)) by (nonlinear_arith)
            requires
                u == ps - 1,
                ps == q * pp,
                pp == cols * lh,
                q >= 1,
                cols >= 1,
                lh >= 1,
        ;
        lemma_position(u, (q - 1) as nat, (cols - 1) as nat, (lh - 1) as nat, cols, lh);
        assert(((q - 1) as nat) * pp + pp == ps) by (nonlinear_arith)
            requires
                ps == q * pp,
                q >= 1,
        ;
        assert(c == ps) by (nonlinear_arith)
            requires
                c == q * pp + col * lh + row,
                ps == q * pp,
                col == 0,
                row == 0,
        ;
        assert(page_start(u, pp) + pp == c);
    }
}

/// Paging down and then up comes back to where the cursor was, when a
/// whole page follows it.
pub proof fn law_page_down_then_up(c: nat, len: nat, pp: nat)
    requires
        pp > 0,
        c + pp < len,
    ensures
        ({
            let down = if c + pp < len { c + pp } else { (len - 1) as nat };
            (if down >= pp { (down - pp) as nat } else { 0 }) == c
        }),
{
}

/// Tagging all gives every entry but `..` the same tag (set when some
/// entry was untagged, cleared when all were tagged) and leaves `..` alone.
pub proof fn law_tag_all_uniform(es: Seq<FileEntry>, ts: Seq<bool>)
    ensures
        tags_after_toggle_all(es, ts).len() == ts.len(),
        forall|i: int|
            0 <= i < pair_len(es.len(), ts.len()) && !is_dotdot(#[trigger] es[i].name@) ==> tags_after_toggle_all(es, ts)[i]
                == !all_tagged(es, ts),
        forall|i: int|
            0 <= i < ts.len() && i < es.len() && is_dotdot(#[trigger] es[i].name@) ==> tags_after_toggle_all(es, ts)[i]
                == ts[i],
{
}

proof fn lemma_tagged_names_no_dotdot(es: Seq<FileEntry>, ts: Seq<bool>)
    ensures
        forall|k: int| 0 <= k < tagged_names(es, ts).len() ==> !is_dotdot(#[trigger] tagged_names(es, ts)[k]),
    decreases es.len(),
{
    if es.len() > 0 && ts.len() > 0 {
        let n = if es.len() <= ts.len() { es.len() } else { ts.len() };
        let rest = tagged_names(es.take(n - 1), ts.take(n - 1));
        lemma_tagged_names_no_dotdot(es.take(n - 1), ts.take(n - 1));
        assert forall|k: int| 0 <= k < tagged_names(es, ts).len() implies !is_dotdot(#[trigger] tagged_names(es, ts)[k]) by {
            if k < rest.len() {
                assert(tagged_names(es, ts)[k] == rest[k]);
            }
        }
    }
}

/// File operations never act on `..`.
pub proof fn law_targets_exclude_dotdot(es: Seq<FileEntry>, ts: Seq<bool>, cursor: nat)
    ensures
        forall|k: int| 0 <= k < op_targets(es, ts, cursor).len() ==> !is_dotdot(#[trigger] op_targets(es, ts, cursor)[k]),
{
    lemma_tagged_names_no_dotdot(es, ts);
}

proof fn lemma_hits(es: Seq<FileEntry>, p: Seq<char>, n: int)
    requires
        0 <= n <= es.len(),
        es.len() <= usize::MAX,
    ensures
        forall|k: int|
            0 <= k < hits_upto(es, p, n).len() ==> (#[trigger] hits_upto(es, p, n)[k]) < n && !is_dotdot(
                es[hits_upto(es, p, n)[k] as int].name@,
            ) && search_hit(p, es[hits_upto(es, p, n)[k] as int].name@),
        forall|j: int, k: int|
            0 <= j < k < hits_upto(es, p, n).len() ==> #[trigger] hits_upto(es, p, n)[j] < #[trigger] hits_upto(
                es,
                p,
                n,
            )[k],
    decreases n,
{
    if n > 0 {
        lemma_hits(es, p, n - 1);
        let r = hits_upto(es, p, n - 1);
        let h = hits_upto(es, p, n);
        assert forall|k: int| 0 <= k < h.len() implies (#[trigger] h[k]) < n && !is_dotdot(es[h[k] as int].name@)
            && search_hit(p, es[h[k] as int].name@) by {
            if k < r.len() {
                assert(h[k] == r[k]);
            }
        }
        assert forall|j: int, k: int| 0 <= j < k < h.len() implies #[trigger] h[j] < #[trigger] h[k] by {
            assert(h[j] == r[j]);
            if k < r.len() {
                assert(h[k] == r[k]);
            }
        }
    }
}

/// The search finds only entries of the listing other than `..`, each
/// once, in listing order, and each one the pattern finds.
pub proof fn law_search_hits_sound(es: Seq<FileEntry>, p: Seq<char>)
    requires
        es.len() <= usize::MAX,
    ensures
        forall|k: int|
            0 <= k < search_hits(es, p).len() ==> (#[trigger] search_hits(es, p)[k]) < es.len() && !is_dotdot(
                es[search_hits(es, p)[k] as int].name@,
            ) && search_hit(p, es[search_hits(es, p)[k] as int].name@),
        forall|j: int, k: int|
            0 <= j < k < search_hits(es, p).len() ==> #[trigger] search_hits(es, p)[j] < #[trigger] search_hits(es, p)[k],
{
    if p.len() > 0 {
        lemma_hits(es, p, es.len() as int);
    }
}


proof fn lemma_listed_kind(es: Seq<FileEntry>, show_hidden: bool, want_dirs: bool, k: int)
    requires
        0 <= k < listed(es, show_hidden, want_dirs).len(),
    ensures
        listed(es, show_hidden, want_dirs)[k].is_dir == want_dirs,
    decreases es.len(),
{
    if es.len() > 0 {
        let rest = listed(es.drop_last(), show_hidden, want_dirs);
        if k < rest.len() {
            lemma_listed_kind(es.drop_last(), show_hidden, want_dirs, k);
        }
    }
}

proof fn lemma_sorted_pair<T>(o: Seq<T>, items: Seq<T>, keys: Seq<KeyView>, desc: bool, i: int, j: int) -> (ab: (int, int))
    requires
        is_stable_sort_of(o, items, keys, desc),
        0 <= i < j < o.len(),
    ensures
        0 <= ab.0 < items.len() && 0 <= ab.1 < items.len(),
        o[i] == items[ab.0] && o[j] == items[ab.1],
        before(keys[ab.0], ab.0, keys[ab.1], ab.1, desc),
{
    let p = choose|p: Seq<int>|
        #![trigger is_perm(p, items.len())]
        is_perm(p, items.len()) && stably_sorted(p, keys, desc) && o.len() == items.len() && (forall|i: int|
            0 <= i < o.len() ==> o[i] == items[#[trigger] p[i]]);
    assert(o[i] == items[p[i]]);
    assert(o[j] == items[p[j]]);
    (p[i], p[j])
}

proof fn lemma_sorted_member<T>(o: Seq<T>, items: Seq<T>, keys: Seq<KeyView>, desc: bool, i: int) -> (a: int)
    requires
        is_stable_sort_of(o, items, keys, desc),
        0 <= i < o.len(),
    ensures
        0 <= a < items.len(),
        o[i] == items[a],
{
    let p = choose|p: Seq<int>|
        #![trigger is_perm(p, items.len())]
        is_perm(p, items.len()) && stably_sorted(p, keys, desc) && o.len() == items.len() && (forall|i: int|
            0 <= i < o.len() ==> o[i] == items[#[trigger] p[i]]);
    assert(o[i] == items[p[i]]);
    p[i]
}

/// Sorting by date goes by the date and then by the time of day: in each
/// group of the listing (directories, then files), of two entries with
/// different dates the earlier date comes first when ascending (last when
/// descending), and of two entries of the same day the earlier time does.
pub proof fn law_date_sort_uses_time(
    out: Seq<FileEntry>,
    raw: Seq<FileEntry>,
    has_parent: bool,
    parent_mode: u32,
    show_hidden: bool,
    asc: bool,
    i: int,
    j: int,
)
    requires
        is_listing_of(out, raw, has_parent, parent_mode, show_hidden, SortMode::Date, asc),
        (if has_parent { 1int } else { 0int }) <= i < j < out.len(),
        out[i].is_dir == out[j].is_dir,
    ensures
        out[i].date@ != out[j].date@ ==> (if asc {
            lex_lt(out[i].date@, out[j].date@)
        } else {
            lex_lt(out[j].date@, out[i].date@)
        }),
        (out[i].date@ == out[j].date@ && out[i].time_str@ != out[j].time_str@) ==> (if asc {
            lex_lt(out[i].time_str@, out[j].time_str@)
        } else {
            lex_lt(out[j].time_str@, out[i].time_str@)
        }),
{
    let p: int = if has_parent { 1 } else { 0 };
    let dirs = listed(raw, show_hidden, true);
    let files = listed(raw, show_hidden, false);
    let d = dirs.len() as int;
    let od = out.subrange(p, p + d);
    let of = out.skip(p + d);
    lemma_lex_irrefl(out[i].date@);
    lemma_lex_irrefl(out[j].date@);
    if j < p + d {
        assert(od[i - p] == out[i] && od[j - p] == out[j]);
        let (a, b) = lemma_sorted_pair(od, dirs, entry_keys(dirs, SortMode::Date), !asc, i - p, j - p);
        assert(entry_keys(dirs, SortMode::Date)[a] == entry_key(dirs[a], SortMode::Date));
        assert(entry_keys(dirs, SortMode::Date)[b] == entry_key(dirs[b], SortMode::Date));
    } else if i >= p + d {
        assert(of[i - p - d] == out[i] && of[j - p - d] == out[j]);
        let (a, b) = lemma_sorted_pair(of, files, entry_keys(files, SortMode::Date), !asc, i - p - d, j - p - d);
        assert(entry_keys(files, SortMode::Date)[a] == entry_key(files[a], SortMode::Date));
        assert(entry_keys(files, SortMode::Date)[b] == entry_key(files[b], SortMode::Date));
    } else {
        // `i` is a directory and `j` a file: not the same group
        assert(od[i - p] == out[i] && of[j - p - d] == out[j]);
        let a = lemma_sorted_member(od, dirs, entry_keys(dirs, SortMode::Date), !asc, i - p);
        lemma_listed_kind(raw, show_hidden, true, a);
        let b = lemma_sorted_member(of, files, entry_keys(files, SortMode::Date), !asc, j - p - d);
        lemma_listed_kind(raw, show_hidden, false, b);
    }
}

} // verus!
