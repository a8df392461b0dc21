//! Text for fixed-width terminal columns: display widths, truncation with a
//! `~` marker, padding, compact sizes and `ls`-style permission strings.
use vstd::prelude::*;
use crate::num::{dec, push_dec};
use crate::text::{chars_of, string_of};
use unicode_width::{UnicodeWidthChar, UnicodeWidthStr};

verus! {

// ── Display widths ───────────────────────────────────────────────────────

/// The column width of `c` as `UnicodeWidthChar::width` reports it (`None`
/// for a control character).
pub uninterp spec fn char_width(c: char) -> Option<nat>;

/// The column width of `s` as `UnicodeWidthStr::width` reports it (which
/// is not always the sum of the character widths: some sequences form one
/// glyph).
pub uninterp spec fn str_width(s: Seq<char>) -> nat;

/// `UnicodeWidthChar::width`. Per the crate's source, printable ASCII
/// (U+0020..U+007E) is one column wide and the C0 and C1 control codes
/// (below U+0020, and U+007F..U+009F) have no width.
#[verifier::external_body]
fn width_of_char(c: char) -> (r: Option<usize>)
    ensures
        match r {
            Some(w) => char_width(c) == Some(w as nat),
            None => char_width(c) is None,
        },
        0x20 <= (c as u32) < 0x7f ==> r == Some(1usize),
        (c as u32) < 0x20 || (0x7f <= (c as u32) < 0xa0) ==> r is None,
{
    c.width()
}

/// The display width of `s` in terminal columns (`UnicodeWidthStr::width`).
#[verifier::external_body]
pub fn sw(s: &str) -> (r: usize)
    ensures
        r == str_width(s@),
{
    UnicodeWidthStr::width(s)
}

/// The width counted for a character: its display width, or one column
/// for a control character.
pub open spec fn cols_of(c: char) -> nat {
    match char_width(c) {
        Some(w) => w,
        None => 1,
    }
}

/// The longest prefix of `s[i..]` that fits in `max` columns when `w`
/// columns are already used, followed by `~` when a character was cut off
/// and a column is left for the marker.
pub open spec fn trunc_from(s: Seq<char>, i: int, w: nat, max: nat) -> Seq<char>
    decreases s.len() - i,
{
    if i < 0 || i >= s.len() {
        seq![]
    } else if w + cols_of(s[i]) > max {
        if w < max {
            seq!['~']
        } else {
            seq![]
        }
    } else {
        seq![s[i]] + trunc_from(s, i + 1, w + cols_of(s[i]), max)
    }
}

/// `s` cut to at most `max` columns, with `~` where it was cut.
pub open spec fn truncated(s: Seq<char>, max: nat) -> Seq<char> {
    trunc_from(s, 0, 0, max)
}

/// Cuts `s` to at most `max_cols` columns, marking the cut with `~` when
/// there is room for it.
pub fn trunc(s: &str, max_cols: usize) -> (r: String)
    ensures
        r@ == truncated(s@, max_cols as nat),
{
    let cs = chars_of(s);
    let mut out: Vec<char> = Vec::new();
    let mut w: usize = 0;
    let mut i: usize = 0;
    while i < cs.len()
        invariant_except_break
            out@ + trunc_from(cs@, i as int, w as nat, max_cols as nat) == truncated(s@, max_cols as nat),
        invariant
            i <= cs.len(),
            cs@ == s@,
            w <= max_cols,
        ensures
            out@ == truncated(s@, max_cols as nat),
        decreases cs.len() - i,
    {
        let ch = cs[i];
        let cw: usize = match width_of_char(ch) {
            Some(x) => x,
            None => 1,
        };
        if cw > max_cols - w {
            if w < max_cols {
                out.push('~');
            }
            assert(out@ =~= truncated(s@, max_cols as nat));
            break;
        }
        let ghost before = out@;
        out.push(ch);
        assert(before + trunc_from(cs@, i as int, w as nat, max_cols as nat) =~= out@ + trunc_from(
            cs@,
            i + 1,
            (w + cw) as nat,
            max_cols as nat,
        ));
        w = w + cw;
        i += 1;
    }
    string_of(&out)
}

/// `n` spaces.
pub open spec fn spaces(n: nat) -> Seq<char> {
    Seq::new(n, |_i: int| ' ')
}

fn push_spaces(out: &mut Vec<char>, n: usize)
    ensures
        final(out)@ == old(out)@ + spaces(n as nat),
{
    let ghost o = out@;
    let mut k: usize = 0;
    while k < n
        invariant
            k <= n,
            out@ == o + spaces(k as nat),
        decreases n - k,
    {
        out.push(' ');
        k += 1;
        assert(out@ =~= o + spaces(k as nat));
    }
}

/// `s` padded with spaces on the right to `cols` columns, or cut to them.
pub open spec fn padded_right(s: Seq<char>, cols: nat) -> Seq<char> {
    if str_width(s) >= cols {
        truncated(s, cols)
    } else {
        s + spaces((cols - str_width(s)) as nat)
    }
}

/// `s` padded with spaces on the left to `cols` columns, or cut to them.
pub open spec fn padded_left(s: Seq<char>, cols: nat) -> Seq<char> {
    if str_width(s) >= cols {
        truncated(s, cols)
    } else {
        spaces((cols - str_width(s)) as nat) + s
    }
}

/// Left-aligns `s` in `cols` columns.
pub fn padr(s: &str, cols: usize) -> (r: String)
    ensures
        r@ == padded_right(s@, cols as nat),
{
    let w = sw(s);
    if w >= cols {
        trunc(s, cols)
    } else {
        let mut out = chars_of(s);
        push_spaces(&mut out, cols - w);
        string_of(&out)
    }
}

/// Right-aligns `s` in `cols` columns.
pub fn padl(s: &str, cols: usize) -> (r: String)
    ensures
        r@ == padded_left(s@, cols as nat),
{
    let w = sw(s);
    if w >= cols {
        trunc(s, cols)
    } else {
        let mut out: Vec<char> = Vec::new();
        push_spaces(&mut out, cols - w);
        let cs = chars_of(s);
        let mut k: usize = 0;
        let ghost o = out@;
        while k < cs.len()
            invariant
                k <= cs.len(),
                out@ == o + cs@.take(k as int),
            decreases cs.len() - k,
        {
            out.push(cs[k]);
            k += 1;
            assert(out@ =~= o + cs@.take(k as int));
        }
        assert(cs@.take(cs.len() as int) =~= cs@);
        string_of(&out)
    }
}

// ── Numbers ──────────────────────────────────────────────────────────────

/// A byte count in the largest binary unit it reaches (B, Ki, Mi, Gi),
/// rounded down: the number and the unit.
pub open spec fn compact_size(n: nat) -> (Seq<char>, Seq<char>) {
    if n < 1024 {
        (dec(n), "B"@)
    } else if n < 1024 * 1024 {
        (dec(n / 1024), "Ki"@)
    } else if n < 1024 * 1024 * 1024 {
        (dec(n / (1024 * 1024)), "Mi"@)
    } else {
        (dec(n / (1024 * 1024 * 1024)), "Gi"@)
    }
}

/// A byte count as a number and a binary unit (`B`, `Ki`, `Mi`, `Gi`).
pub fn fmt_cpt_parts(n: u64) -> (r: (String, &'static str))
    ensures
        (r.0@, r.1@) == compact_size(n as nat),
{
    let mut v: Vec<char> = Vec::new();
    if n < 1024 {
        push_dec(&mut v, n);
        (string_of(&v), "B")
    } else if n < 1024 * 1024 {
        push_dec(&mut v, n / 1024);
        (string_of(&v), "Ki")
    } else if n < 1024 * 1024 * 1024 {
        push_dec(&mut v, n / (1024 * 1024));
        (string_of(&v), "Mi")
    } else {
        push_dec(&mut v, n / (1024 * 1024 * 1024));
        (string_of(&v), "Gi")
    }
}

// ── Permissions ──────────────────────────────────────────────────────────

/// `ch` when `mode` has the bit `mask`, else `-`.
pub open spec fn perm_char(mode: u32, mask: u32, ch: char) -> char {
    if mode & mask != 0 {
        ch
    } else {
        '-'
    }
}

/// The `ls -l` mode string: the file type (`l`, `d` or `-`) and the nine
/// permission letters.
pub open spec fn mode_text(mode: u32, is_dir: bool, is_link: bool) -> Seq<char> {
    let ft = if is_link {
        'l'
    } else if is_dir {
        'd'
    } else {
        '-'
    };
    seq![
        ft,
        perm_char(mode, 0o400, 'r'),
        perm_char(mode, 0o200, 'w'),
        perm_char(mode, 0o100, 'x'),
        perm_char(mode, 0o040, 'r'),
        perm_char(mode, 0o020, 'w'),
        perm_char(mode, 0o010, 'x'),
        perm_char(mode, 0o004, 'r'),
        perm_char(mode, 0o002, 'w'),
        perm_char(mode, 0o001, 'x'),
    ]
}

fn perm_bit(mode: u32, mask: u32, ch: char) -> (r: char)
    ensures
        r == perm_char(mode, mask, ch),
{
    if mode & mask != 0 {
        ch
    } else {
        '-'
    }
}

/// Renders a mode as `ls -l` does, such as `drwxr-xr-x`.
pub fn fmt_mode(mode: u32, is_dir: bool, is_link: bool) -> (r: String)
    ensures
        r@ == mode_text(mode, is_dir, is_link),
{
    let ft = if is_link {
        'l'
    } else if is_dir {
        'd'
    } else {
        '-'
    };
    let mut v: Vec<char> = Vec::new();
    v.push(ft);
    v.push(perm_bit(mode, 0o400, 'r'));
    v.push(perm_bit(mode, 0o200, 'w'));
    v.push(perm_bit(mode, 0o100, 'x'));
    v.push(perm_bit(mode, 0o040, 'r'));
    v.push(perm_bit(mode, 0o020, 'w'));
    v.push(perm_bit(mode, 0o010, 'x'));
    v.push(perm_bit(mode, 0o004, 'r'));
    v.push(perm_bit(mode, 0o002, 'w'));
    v.push(perm_bit(mode, 0o001, 'x'));
    assert(v@ =~= mode_text(mode, is_dir, is_link));
    string_of(&v)
}

} // verus!
