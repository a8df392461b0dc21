//! What the screen shows, apart from drawing it: the text of a listing
//! line, the columns of the listing, the styles of its cells, how a text
//! input scrolls, the lines of the message box and the texts of the sort
//! and file dialogs.
use vstd::prelude::*;
use crate::app::{is_dotdot, name_is_dotdot, DialogKind, FileEntry, SortMode};
use crate::display::{padded_left, padded_right, padl, padr};
use crate::num::{dec, push_dec};
use crate::style::{plain, with_fg, with_mod, Color, Style, REVERSED, UNDERLINED};
use crate::text::{blank, chars_of, is_blank, lines, push_all, split_lines, string_of, views};

verus! {

fn cat(out: &mut Vec<char>, s: &str)
    ensures
        final(out)@ == old(out)@ + s@,
{
    let v = chars_of(s);
    push_all(out, &v);
}

// ── A line of the listing ────────────────────────────────────────────────

/// Columns taken by the size column.
pub const SIZE_COLS: usize = 12;

/// Columns taken by the date column (`YYYY-MM-DD HH:MM`).
pub const DATE_COLS: usize = 16;

/// The name shown for an entry: directories other than `..` end in `/`.
pub open spec fn shown_name(e: FileEntry) -> Seq<char> {
    if e.is_dir && !is_dotdot(e.name@) {
        e.name@ + seq!['/']
    } else {
        e.name@
    }
}

/// The size column: `<DIR>` for a directory, else the size text, right
/// aligned.
pub open spec fn size_column(e: FileEntry, size_text: Seq<char>) -> Seq<char> {
    padded_left(if e.is_dir { "<DIR>"@ } else { size_text }, SIZE_COLS as nat)
}

/// The date column: date and time, or nothing when the entry has no date.
pub open spec fn date_column(e: FileEntry) -> Seq<char> {
    if e.date@.len() == 0 {
        seq![]
    } else {
        e.date@ + seq![' '] + e.time_str@
    }
}

/// `a - b`, or 0 when `b` is larger.
pub open spec fn sat_sub(a: nat, b: nat) -> nat {
    if a >= b {
        (a - b) as nat
    } else {
        0
    }
}

/// `n`, but at least `m`.
pub open spec fn at_least(n: nat, m: nat) -> nat {
    if n < m {
        m
    } else {
        n
    }
}

/// The text of an entry in a column `cw` wide: in the one- and two-column
/// modes name, size and date; in the three-column mode name and size; else
/// the name alone. `size_text` is the rendering of the entry's size.
pub open spec fn entry_text(e: FileEntry, cw: nat, col_mode: u8, size_text: Seq<char>) -> Seq<char> {
    let name = shown_name(e);
    let size = size_column(e, size_text);
    let date = date_column(e);
    if col_mode == 1 || col_mode == 2 {
        let nw = at_least(sat_sub(cw, (1 + SIZE_COLS + 1 + DATE_COLS) as nat), 3);
        if date.len() == 0 {
            padded_right(name, nw) + seq![' '] + size
        } else {
            padded_right(name, nw) + seq![' '] + size + seq![' '] + date
        }
    } else if col_mode == 3 {
        let nw = at_least(sat_sub(cw, (1 + SIZE_COLS) as nat), 3);
        padded_right(name, nw) + seq![' '] + size
    } else {
        padded_right(name, cw)
    }
}

/// The text of an entry of the listing (see [`entry_text`]).
pub fn fmt_entry(e: &FileEntry, cw: usize, col_mode: u8, size_text: &str) -> (r: String)
    ensures
        r@ == entry_text(*e, cw as nat, col_mode, size_text@),
{
    let mut name = chars_of(e.name.as_str());
    if e.is_dir && !name_is_dotdot(&e.name) {
        name.push('/');
    }
    let name_s = string_of(&name);
    assert(name_s@ =~= shown_name(*e));
    let size = if e.is_dir {
        padl("<DIR>", SIZE_COLS)
    } else {
        padl(size_text, SIZE_COLS)
    };
    let mut date: Vec<char> = Vec::new();
    let dc = chars_of(e.date.as_str());
    if dc.len() > 0 {
        cat(&mut date, e.date.as_str());
        date.push(' ');
        cat(&mut date, e.time_str.as_str());
    }
    proof {
        if e.date@.len() == 0 {
            assert(date@ =~= date_column(*e));
        } else {
            assert(date@ =~= date_column(*e));
        }
    }
    if col_mode == 1 || col_mode == 2 {
        let over: usize = 1 + SIZE_COLS + 1 + DATE_COLS;
        let nw: usize = if cw >= over && cw - over >= 3 {
            cw - over
        } else {
            3
        };
        assert(nw as nat == at_least(sat_sub(cw as nat, (1 + SIZE_COLS + 1 + DATE_COLS) as nat), 3));
        assert(size@ == size_column(*e, size_text@));
        let mut out = chars_of(padr(name_s.as_str(), nw).as_str());
        out.push(' ');
        cat(&mut out, size.as_str());
        if date.len() > 0 {
            out.push(' ');
            push_all(&mut out, &date);
        }
        assert(out@ =~= entry_text(*e, cw as nat, col_mode, size_text@));
        string_of(&out)
    } else if col_mode == 3 {
        let over: usize = 1 + SIZE_COLS;
        let nw: usize = if cw >= over && cw - over >= 3 {
            cw - over
        } else {
            3
        };
        let mut out = chars_of(padr(name_s.as_str(), nw).as_str());
        out.push(' ');
        cat(&mut out, size.as_str());
        assert(out@ =~= entry_text(*e, cw as nat, col_mode, size_text@));
        string_of(&out)
    } else {
        padr(name_s.as_str(), cw)
    }
}

// ── The columns of the listing ───────────────────────────────────────────

/// Blank columns between two columns of the listing.
pub const COL_GAP: usize = 3;

/// The width of a column of the listing: the width left after the gaps,
/// shared out evenly.
pub open spec fn column_width(total: nat, cols: nat) -> nat {
    sat_sub(total, (COL_GAP * (cols - 1)) as nat) / cols
}

/// The left edge and the width of column `col`: the last column takes what
/// is left.
pub open spec fn column_span(total: nat, cols: nat, col: nat) -> (nat, nat) {
    let w = column_width(total, cols);
    let x: nat = col * (w + COL_GAP as nat);
    (x, if col + 1 == cols { sat_sub(total, x) } else { w })
}

/// The columns of the listing in a `total` columns wide area: the left
/// edge and the width of each.
pub fn list_columns(total: u16, cols: usize) -> (r: Vec<(usize, usize)>)
    requires
        1 <= cols <= 5,
    ensures
        r@.len() == cols,
        forall|c: int| 0 <= c < cols ==> (#[trigger] r@[c]).0 as nat == column_span(total as nat, cols as nat, c as nat).0
            && r@[c].1 as nat == column_span(total as nat, cols as nat, c as nat).1,
{
    let t = total as usize;
    let gaps = COL_GAP * (cols - 1);
    let w: usize = if t >= gaps { (t - gaps) / cols } else { 0 };
    assert(w <= t);
    let mut out: Vec<(usize, usize)> = Vec::new();
    let mut c: usize = 0;
    while c < cols
        invariant
            1 <= cols <= 5,
            c <= cols,
            t == total as usize,
            t <= 65535,
            w <= t,
            w as nat == column_width(total as nat, cols as nat),
            out@.len() == c,
            forall|k: int| 0 <= k < c ==> (#[trigger] out@[k]).0 as nat == column_span(total as nat, cols as nat, k as nat).0
                && out@[k].1 as nat == column_span(total as nat, cols as nat, k as nat).1,
        decreases cols - c,
    {
        assert(c * (w + 3) <= 5 * (65535 + 3)) by (nonlinear_arith)
            requires
                c < 5,
                w <= 65535,
        ;
        let x = c * (w + COL_GAP);
        let cw = if c + 1 == cols {
            if t >= x { t - x } else { 0 }
        } else {
            w
        };
        out.push((x, cw));
        c += 1;
    }
    out
}

/// The position in the listing shown at `row` of column `col` on the page
/// starting at `page_start`, when the page has `lh` rows per column.
pub open spec fn cell_index(page_start: nat, lh: nat, col: nat, row: nat) -> nat {
    page_start + col * lh + row
}

// ── Cell styles ──────────────────────────────────────────────────────────

/// The style of a listing cell: the cursor reverses the entry's own style;
/// else a search match is light green and underlined; else a tagged entry
/// is yellow; else the entry's own style.
pub open spec fn cell_style(base: Style, is_cur: bool, is_match: bool, is_tagged: bool) -> Style {
    if is_cur {
        with_mod(base, REVERSED)
    } else if is_match {
        with_mod(with_fg(plain(), Color::LightGreen), UNDERLINED)
    } else if is_tagged {
        with_fg(plain(), Color::Yellow)
    } else {
        base
    }
}

/// Executable form of [`cell_style`].
pub fn list_cell_style(base: Style, is_cur: bool, is_match: bool, is_tagged: bool) -> (r: Style)
    ensures
        r == cell_style(base, is_cur, is_match, is_tagged),
{
    if is_cur {
        base.add_modifier(REVERSED)
    } else if is_match {
        Style::new().fg(Color::LightGreen).add_modifier(UNDERLINED)
    } else if is_tagged {
        Style::new().fg(Color::Yellow)
    } else {
        base
    }
}

/// The style of a git status mark: modified yellow, added green, untracked
/// or deleted red.
pub open spec fn git_mark_style(c: char) -> Style {
    if c == 'M' || c == 'm' {
        with_fg(plain(), Color::Yellow)
    } else if c == 'A' {
        with_fg(plain(), Color::Green)
    } else if c == '?' || c == 'D' {
        with_fg(plain(), Color::Red)
    } else {
        plain()
    }
}

/// Executable form of [`git_mark_style`].
pub fn git_mark_style_of(c: char) -> (r: Style)
    ensures
        r == git_mark_style(c),
{
    if c == 'M' || c == 'm' {
        Style::new().fg(Color::Yellow)
    } else if c == 'A' {
        Style::new().fg(Color::Green)
    } else if c == '?' || c == 'D' {
        Style::new().fg(Color::Red)
    } else {
        Style::new()
    }
}

// ── Text inputs and message boxes ────────────────────────────────────────

/// How far a text input `avail` columns wide is scrolled so that the
/// cursor stays visible.
pub open spec fn scroll_for(cursor: nat, avail: nat) -> nat {
    if cursor >= avail {
        (cursor + 1 - avail) as nat
    } else {
        0
    }
}

/// Executable form of [`scroll_for`].
pub fn input_scroll(cursor: usize, avail: usize) -> (r: usize)
    requires
        avail >= 1 || cursor < usize::MAX,
    ensures
        r == scroll_for(cursor as nat, avail as nat),
{
    if cursor >= avail {
        if avail >= 1 {
            cursor - (avail - 1)
        } else {
            cursor + 1
        }
    } else {
        0
    }
}

/// The number of message lines a message box shows on a screen `height`
/// rows high: half of what is left after six rows, between one and ten.
pub open spec fn message_rows(height: nat) -> nat {
    let h = sat_sub(height, 6) / 2;
    if h < 1 {
        1
    } else if h > 10 {
        10
    } else {
        h
    }
}

/// The non-blank lines of `ls`, at most `max` of them, in order.
pub open spec fn nonblank_upto(ls: Seq<Seq<char>>, max: nat) -> Seq<Seq<char>>
    decreases ls.len(),
{
    if ls.len() == 0 || max == 0 {
        seq![]
    } else if is_blank(ls[0]) {
        nonblank_upto(ls.skip(1), max)
    } else {
        seq![ls[0]] + nonblank_upto(ls.skip(1), (max - 1) as nat)
    }
}

/// The lines a message box shows: the message's non-blank lines, as many
/// as fit (see [`message_rows`]).
pub fn message_lines(msg: &str, height: u16) -> (r: Vec<String>)
    ensures
        r@.map_values(|s: String| s@) == nonblank_upto(lines(msg@), message_rows(height as nat)),
{
    let h = height as usize;
    let half = if h >= 6 { (h - 6) / 2 } else { 0 };
    let max: usize = if half < 1 {
        1
    } else if half > 10 {
        10
    } else {
        half
    };
    let ls = split_lines(&chars_of(msg));
    let ghost all = views(ls@);
    let mut out: Vec<String> = Vec::new();
    let mut i: usize = 0;
    assert(all.skip(0) =~= all);
    while i < ls.len() && out.len() < max
        invariant
            i <= ls@.len(),
            all == views(ls@),
            all == lines(msg@),
            out@.len() <= max,
            out@.map_values(|s: String| s@) + nonblank_upto(all.skip(i as int), (max - out@.len()) as nat)
                == nonblank_upto(all, max as nat),
        decreases ls.len() - i,
    {
        assert(all.skip(i as int)[0] == ls@[i as int]@);
        assert(all.skip(i as int).skip(1) =~= all.skip(i + 1));
        if !blank(&ls[i]) {
            let ghost before = out@.map_values(|s: String| s@);
            out.push(string_of(&ls[i]));
            assert(out@.map_values(|s: String| s@) =~= before.push(ls@[i as int]@));
            assert(before.push(ls@[i as int]@) + nonblank_upto(all.skip(i + 1), (max - out@.len()) as nat) =~= before
                + (seq![ls@[i as int]@] + nonblank_upto(all.skip(i + 1), (max - out@.len()) as nat)));
        }
        i += 1;
    }
    proof {
        if i >= ls.len() {
            assert(all.skip(i as int).len() == 0);
        }
        assert(nonblank_upto(all.skip(i as int), (max - out@.len()) as nat) =~= seq![]);
    }
    assert(out@.map_values(|s: String| s@) =~= nonblank_upto(all, max as nat));
    out
}

// ── The header and the status line ───────────────────────────────────────

/// The branch shown after the path: the branch symbol and name, then the
/// commits ahead (`↑`) and behind (`↓`) when there are any.
pub open spec fn branch_text(branch: Seq<char>, ahead: nat, behind: nat) -> Seq<char> {
    let head = "  \u{E0A0} "@ + branch;
    if ahead == 0 && behind == 0 {
        head
    } else if behind == 0 {
        head + " ↑"@ + dec(ahead)
    } else if ahead == 0 {
        head + " ↓"@ + dec(behind)
    } else {
        head + " ↑"@ + dec(ahead) + "↓"@ + dec(behind)
    }
}

/// The text of the branch, empty outside a repository.
pub fn fmt_branch(branch: &Option<String>, ahead: u32, behind: u32) -> (r: String)
    ensures
        match branch {
            None => r@.len() == 0,
            Some(b) => r@ == branch_text(b@, ahead as nat, behind as nat),
        },
{
    match branch {
        None => String::new(),
        Some(b) => {
            let mut out = chars_of("  \u{E0A0} ");
            cat(&mut out, b.as_str());
            if ahead == 0 && behind == 0 {
            } else if behind == 0 {
                cat(&mut out, " ↑");
                push_dec(&mut out, ahead as u64);
            } else if ahead == 0 {
                cat(&mut out, " ↓");
                push_dec(&mut out, behind as u64);
            } else {
                cat(&mut out, " ↑");
                push_dec(&mut out, ahead as u64);
                cat(&mut out, "↓");
                push_dec(&mut out, behind as u64);
            }
            assert(out@ =~= branch_text(b@, ahead as nat, behind as nat));
            string_of(&out)
        },
    }
}

/// The share of the volume in use, in whole percent (0 for an empty
/// volume).
pub fn usage_percent(used: u64, total: u64) -> (r: u64)
    requires
        used * 100 <= u64::MAX,
    ensures
        r == (if total > 0 { (used * 100) / (total as int) } else { 0 }),
{
    if total > 0 {
        used * 100 / total
    } else {
        0
    }
}

/// The sort shown in the status line: the mode's key and direction.
pub open spec fn sort_indicator(mode: SortMode, asc: bool) -> Seq<char> {
    let arrow = if asc { "▲"@ } else { "▼"@ };
    match mode {
        SortMode::Unsorted => seq![],
        SortMode::Name => " [N"@ + arrow + "]"@,
        SortMode::Ext => " [X"@ + arrow + "]"@,
        SortMode::Size => " [S"@ + arrow + "]"@,
        SortMode::Date => " [T"@ + arrow + "]"@,
    }
}

/// `s` padded with spaces on the right to `width` characters.
pub open spec fn pad_right_chars(s: Seq<char>, width: nat) -> Seq<char> {
    if s.len() >= width {
        s
    } else {
        s + Seq::new((width - s.len()) as nat, |_i: int| ' ')
    }
}

fn push_dec_padded(out: &mut Vec<char>, n: u64, width: usize, left: bool)
    ensures
        final(out)@ == old(out)@ + (if left {
            crate::num::pad_left(dec(n as nat), width as nat, ' ')
        } else {
            pad_right_chars(dec(n as nat), width as nat)
        }),
{
    let d = crate::num::dec_chars(n);
    let ghost o = out@;
    let pad: usize = if d.len() >= width { 0 } else { width - d.len() };
    if left {
        let mut k: usize = 0;
        while k < pad
            invariant
                k <= pad,
                out@ == o + Seq::new(k as nat, |_i: int| ' '),
            decreases pad - k,
        {
            out.push(' ');
            k += 1;
            assert(out@ =~= o + Seq::new(k as nat, |_i: int| ' '));
        }
        push_all(out, &d);
        assert(out@ =~= o + crate::num::pad_left(dec(n as nat), width as nat, ' '));
    } else {
        push_all(out, &d);
        let ghost o2 = out@;
        let mut k: usize = 0;
        while k < pad
            invariant
                k <= pad,
                out@ == o2 + Seq::new(k as nat, |_i: int| ' '),
            decreases pad - k,
        {
            out.push(' ');
            k += 1;
            assert(out@ =~= o2 + Seq::new(k as nat, |_i: int| ' '));
        }
        assert(out@ =~= o + pad_right_chars(dec(n as nat), width as nat));
    }
}

/// The status line: the help hint, the sort, and the page out of the
/// pages (`{:>3}/{:<3}`) with the page unit.
pub open spec fn status_line(f1_help: Seq<char>, mode: SortMode, asc: bool, page: nat, total: nat, unit: Seq<char>) -> Seq<char> {
    f1_help + sort_indicator(mode, asc) + "  "@ + crate::num::pad_left(dec(page), 3, ' ') + "/"@ + pad_right_chars(dec(total), 3)
        + " "@ + unit
}

/// The text of the status line (see [`status_line`]).
pub fn fmt_status(f1_help: &str, mode: SortMode, asc: bool, page: u64, total: u64, unit: &str) -> (r: String)
    ensures
        r@ == status_line(f1_help@, mode, asc, page as nat, total as nat, unit@),
{
    let mut out = chars_of(f1_help);
    let arrow = if asc { "▲" } else { "▼" };
    match mode {
        SortMode::Unsorted => {},
        SortMode::Name => {
            cat(&mut out, " [N");
            cat(&mut out, arrow);
            cat(&mut out, "]");
        },
        SortMode::Ext => {
            cat(&mut out, " [X");
            cat(&mut out, arrow);
            cat(&mut out, "]");
        },
        SortMode::Size => {
            cat(&mut out, " [S");
            cat(&mut out, arrow);
            cat(&mut out, "]");
        },
        SortMode::Date => {
            cat(&mut out, " [T");
            cat(&mut out, arrow);
            cat(&mut out, "]");
        },
    }
    let ghost head = out@;
    assert(head =~= f1_help@ + sort_indicator(mode, asc));
    cat(&mut out, "  ");
    push_dec_padded(&mut out, page, 3, true);
    cat(&mut out, "/");
    push_dec_padded(&mut out, total, 3, false);
    cat(&mut out, " ");
    cat(&mut out, unit);
    assert(out@ =~= status_line(f1_help@, mode, asc, page as nat, total as nat, unit@));
    string_of(&out)
}

/// The width of the tree pane: a fifth of the inner width, between 10 and
/// 40 columns, and at most half the listing's width.
pub open spec fn tree_width(inner_w: nat, list_w: nat) -> nat {
    let a = inner_w / 5;
    let b = if a < 10 { 10 } else if a > 40 { 40 } else { a };
    if b < list_w / 2 { b } else { list_w / 2 }
}

/// Executable form of [`tree_width`].
pub fn tree_pane_width(inner_w: usize, list_w: usize) -> (r: usize)
    ensures
        r == tree_width(inner_w as nat, list_w as nat),
{
    let a = inner_w / 5;
    let b = if a < 10 { 10 } else if a > 40 { 40 } else { a };
    if b < list_w / 2 { b } else { list_w / 2 }
}

// ── The sort dialog ──────────────────────────────────────────────────────

/// The key letter and the label of sort dialog line `i`.
pub open spec fn sort_entry(i: nat, lang_en: bool) -> (char, Seq<char>) {
    if i == 0 {
        ('N', if lang_en { "Name"@ } else { "名前"@ })
    } else if i == 1 {
        ('X', if lang_en { "Ext"@ } else { "拡張子"@ })
    } else if i == 2 {
        ('S', if lang_en { "Size"@ } else { "サイズ"@ })
    } else if i == 3 {
        ('T', if lang_en { "Date"@ } else { "日付"@ })
    } else {
        ('U', if lang_en { "None"@ } else { "なし"@ })
    }
}

/// Line `i` of the sort dialog: its key and label, with the direction of
/// the current sort on the line of the current mode (none for no sort).
pub open spec fn sort_line_text(i: nat, lang_en: bool, line_mode: SortMode, mode: SortMode, asc: bool) -> Seq<char> {
    let (k, label) = sort_entry(i, lang_en);
    let arrow = if mode == line_mode && line_mode != SortMode::Unsorted {
        if asc { " ▲"@ } else { " ▼"@ }
    } else {
        "  "@
    };
    "  "@ + seq![k] + ":"@ + label + arrow
}

/// The text of line `i` of the sort dialog, whose mode is `line_mode`.
pub fn sort_dialog_line(i: usize, lang_en: bool, line_mode: SortMode, mode: SortMode, asc: bool) -> (r: String)
    ensures
        r@ == sort_line_text(i as nat, lang_en, line_mode, mode, asc),
{
    let (k, label): (char, &str) = if i == 0 {
        ('N', if lang_en { "Name" } else { "名前" })
    } else if i == 1 {
        ('X', if lang_en { "Ext" } else { "拡張子" })
    } else if i == 2 {
        ('S', if lang_en { "Size" } else { "サイズ" })
    } else if i == 3 {
        ('T', if lang_en { "Date" } else { "日付" })
    } else {
        ('U', if lang_en { "None" } else { "なし" })
    };
    let mut out = chars_of("  ");
    out.push(k);
    cat(&mut out, ":");
    cat(&mut out, label);
    if mode == line_mode && line_mode != SortMode::Unsorted {
        if asc {
            cat(&mut out, " ▲");
        } else {
            cat(&mut out, " ▼");
        }
    } else {
        cat(&mut out, "  ");
    }
    assert(out@ =~= sort_line_text(i as nat, lang_en, line_mode, mode, asc));
    string_of(&out)
}

// ── The file dialog ──────────────────────────────────────────────────────

/// The hint line of the input dialogs.
pub open spec fn input_hint(lang_en: bool) -> Seq<char> {
    if lang_en { "  Enter:OK  Esc:Cancel"@ } else { "  Enter:実行  Esc:キャンセル"@ }
}

/// The title, the text or input label, the hint and whether there is an
/// input line, of the file dialog of `kind` acting on `targets`.
pub open spec fn dialog_texts(kind: DialogKind, targets: Seq<Seq<char>>, lang_en: bool) -> (Seq<char>, Seq<char>, Seq<char>, bool) {
    let h = input_hint(lang_en);
    match kind {
        DialogKind::DeleteConfirm => {
            let n = targets.len();
            let title = if lang_en {
                if n == 1 { " Delete ["@ + targets[0] + "] "@ } else { " Delete ["@ + dec(n) + " items] "@ }
            } else {
                if n == 1 { " ファイルの削除 ["@ + targets[0] + "] "@ } else { " ファイルの削除 ["@ + dec(n) + "件] "@ }
            };
            let content = if lang_en {
                if n == 1 { "\""@ + targets[0] + "\" delete?"@ } else { dec(n) + " items delete?"@ }
            } else {
                if n == 1 { "\""@ + targets[0] + "\" を削除しますか？"@ } else { dec(n) + "件 を削除しますか？"@ }
            };
            (title, content, seq![], false)
        },
        DialogKind::Rename => (if lang_en { " Rename "@ } else { " 名前変更 "@ }, if lang_en { "New name: "@ } else { "新名前: "@ }, h, true),
        DialogKind::Copy => (if lang_en { " Copy "@ } else { " 複写 "@ }, if lang_en { "Dest: "@ } else { "複写先: "@ }, h, true),
        DialogKind::Move => (if lang_en { " Move "@ } else { " 移動 "@ }, if lang_en { "Dest: "@ } else { "移動先: "@ }, h, true),
        DialogKind::Mkdir => (if lang_en { " New Dir "@ } else { " 新規ディレクトリ "@ }, if lang_en { "Dir name: "@ } else { "ディレクトリ名: "@ }, h, true),
        DialogKind::Attr => (if lang_en { " Chmod "@ } else { " 権限変更 "@ }, if lang_en { "Mode(octal): "@ } else { "権限(8進数): "@ }, h, true),
        DialogKind::CopyNewName => (if lang_en { " Copy (new name) "@ } else { " 複写（新名前） "@ }, if lang_en { "New name: "@ } else { "新ファイル名: "@ }, h, true),
    }
}

fn hint_text(lang_en: bool) -> (r: &'static str)
    ensures
        r@ == input_hint(lang_en),
{
    if lang_en { "  Enter:OK  Esc:Cancel" } else { "  Enter:実行  Esc:キャンセル" }
}

fn delete_texts(targets: &Vec<String>, lang_en: bool) -> (r: (String, String))
    requires
        targets@.len() < u64::MAX,
    ensures
        ({
            let t = dialog_texts(DialogKind::DeleteConfirm, targets@.map_values(|s: String| s@), lang_en);
            r.0@ == t.0 && r.1@ == t.1
        }),
{
    let n = targets.len();
    let ghost tv = targets@.map_values(|s: String| s@);
    let mut title: Vec<char> = Vec::new();
    let mut content: Vec<char> = Vec::new();
    if n == 1 {
        assert(tv[0] == targets@[0]@);
        let t0 = targets[0].as_str();
        if lang_en {
            cat(&mut title, " Delete [");
            cat(&mut title, t0);
            cat(&mut title, "] ");
            cat(&mut content, "\"");
            cat(&mut content, t0);
            cat(&mut content, "\" delete?");
        } else {
            cat(&mut title, " ファイルの削除 [");
            cat(&mut title, t0);
            cat(&mut title, "] ");
            cat(&mut content, "\"");
            cat(&mut content, t0);
            cat(&mut content, "\" を削除しますか？");
        }
    } else {
        if lang_en {
            cat(&mut title, " Delete [");
            push_dec(&mut title, n as u64);
            cat(&mut title, " items] ");
            push_dec(&mut content, n as u64);
            cat(&mut content, " items delete?");
        } else {
            cat(&mut title, " ファイルの削除 [");
            push_dec(&mut title, n as u64);
            cat(&mut title, "件] ");
            push_dec(&mut content, n as u64);
            cat(&mut content, "件 を削除しますか？");
        }
    }
    let ghost t = dialog_texts(DialogKind::DeleteConfirm, tv, lang_en);
    assert(title@ =~= t.0);
    assert(content@ =~= t.1);
    (string_of(&title), string_of(&content))
}

/// The texts of the file dialog (see [`dialog_texts`]).
pub fn file_dialog_texts(kind: DialogKind, targets: &Vec<String>, lang_en: bool) -> (r: (String, String, String, bool))
    requires
        targets@.len() < u64::MAX,
    ensures
        ({
            let t = dialog_texts(kind, targets@.map_values(|s: String| s@), lang_en);
            r.0@ == t.0 && r.1@ == t.1 && r.2@ == t.2 && r.3 == t.3
        }),
{
    let h = hint_text(lang_en);
    let own = |s: &str| -> (o: String)
        ensures
            o@ == s@,
    { string_of(&chars_of(s)) };
    match kind {
        DialogKind::DeleteConfirm => {
            let (t, c) = delete_texts(targets, lang_en);
            (t, c, String::new(), false)
        },
        DialogKind::Rename => (
            own(if lang_en { " Rename " } else { " 名前変更 " }),
            own(if lang_en { "New name: " } else { "新名前: " }),
            own(h),
            true,
        ),
        DialogKind::Copy => (
            own(if lang_en { " Copy " } else { " 複写 " }),
            own(if lang_en { "Dest: " } else { "複写先: " }),
            own(h),
            true,
        ),
        DialogKind::Move => (
            own(if lang_en { " Move " } else { " 移動 " }),
            own(if lang_en { "Dest: " } else { "移動先: " }),
            own(h),
            true,
        ),
        DialogKind::Mkdir => (
            own(if lang_en { " New Dir " } else { " 新規ディレクトリ " }),
            own(if lang_en { "Dir name: " } else { "ディレクトリ名: " }),
            own(h),
            true,
        ),
        DialogKind::Attr => (
            own(if lang_en { " Chmod " } else { " 権限変更 " }),
            own(if lang_en { "Mode(octal): " } else { "権限(8進数): " }),
            own(h),
            true,
        ),
        DialogKind::CopyNewName => (
            own(if lang_en { " Copy (new name) " } else { " 複写（新名前） " }),
            own(if lang_en { "New name: " } else { "新ファイル名: " }),
            own(h),
            true,
        ),
    }
}

/// The texts of the conflict dialog of a copy (or a move): the title, the
/// line naming the file, the four choices (if newer, overwrite, rename,
/// skip), the abort hint and the hint on Shift.
pub open spec fn conflict_texts(is_move: bool, conflict: Seq<char>, lang_en: bool) -> (Seq<char>, Seq<char>, Seq<Seq<char>>, Seq<char>, Seq<char>) {
    let title = if is_move {
        if lang_en { " Move "@ } else { " 移動 "@ }
    } else {
        if lang_en { " Copy "@ } else { " 複写 "@ }
    };
    let exist = if lang_en {
        " \""@ + conflict + "\" already exists"@
    } else {
        " \""@ + conflict + "\" は既に存在します"@
    };
    let opts = if is_move {
        if lang_en {
            seq!["U:Move if newer"@, "O:Overwrite & move"@, "C:Rename then move"@, "N:Skip move"@]
        } else {
            seq!["U:タイムスタンプが新しい時に移動する"@, "O:上書きで移動する"@, "C:名前を変更して移動する"@, "N:移動しない"@]
        }
    } else {
        if lang_en {
            seq!["U:Copy/Move if newer"@, "O:Overwrite"@, "C:Rename then copy/move"@, "N:Skip"@]
        } else {
            seq!["U:タイムスタンプが新しい時に複写/移動する"@, "O:上書きで複写/移動する"@, "C:名前を変更して複写/移動する"@, "N:複写/移動しない"@]
        }
    };
    let esc = if lang_en { "ESC:Abort"@ } else { "ESC:中断"@ };
    let batch = if lang_en { "  SHIFT+:Apply to all"@ } else { "  SHIFT+:一括設定"@ };
    (title, exist, opts, esc, batch)
}

/// The texts of the conflict dialog (see [`conflict_texts`]).
pub fn conflict_dialog_texts(is_move: bool, conflict: &str, lang_en: bool) -> (r: (String, String, Vec<String>, String, String))
    ensures
        ({
            let t = conflict_texts(is_move, conflict@, lang_en);
            &&& r.0@ == t.0
            &&& r.1@ == t.1
            &&& r.2@.map_values(|s: String| s@) == t.2
            &&& r.3@ == t.3
            &&& r.4@ == t.4
        }),
{
    let own = |s: &str| -> (o: String)
        ensures
            o@ == s@,
    { string_of(&chars_of(s)) };
    let title = if is_move {
        own(if lang_en { " Move " } else { " 移動 " })
    } else {
        own(if lang_en { " Copy " } else { " 複写 " })
    };
    let mut exist = chars_of(" \"");
    cat(&mut exist, conflict);
    cat(&mut exist, if lang_en { "\" already exists" } else { "\" は既に存在します" });
    let (a, b, c, d): (&str, &str, &str, &str) = if is_move {
        if lang_en {
            ("U:Move if newer", "O:Overwrite & move", "C:Rename then move", "N:Skip move")
        } else {
            ("U:タイムスタンプが新しい時に移動する", "O:上書きで移動する", "C:名前を変更して移動する", "N:移動しない")
        }
    } else {
        if lang_en {
            ("U:Copy/Move if newer", "O:Overwrite", "C:Rename then copy/move", "N:Skip")
        } else {
            ("U:タイムスタンプが新しい時に複写/移動する", "O:上書きで複写/移動する", "C:名前を変更して複写/移動する", "N:複写/移動しない")
        }
    };
    let mut opts: Vec<String> = Vec::new();
    opts.push(own(a));
    opts.push(own(b));
    opts.push(own(c));
    opts.push(own(d));
    let ghost t = conflict_texts(is_move, conflict@, lang_en);
    assert(exist@ =~= t.1);
    assert(opts@.map_values(|s: String| s@) =~= t.2);
    (
        title,
        string_of(&exist),
        opts,
        own(if lang_en { "ESC:Abort" } else { "ESC:中断" }),
        own(if lang_en { "  SHIFT+:Apply to all" } else { "  SHIFT+:一括設定" }),
    )
}

} // verus!
