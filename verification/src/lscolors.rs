//! File colouring rules: the GNU `LS_COLORS` format (`key=SGR codes`
//! separated by `:`), the BSD `LSCOLORS` format (eleven letter pairs), and
//! the SGR code sequences both reduce to.
use vstd::prelude::*;
use crate::namemap::NameMap;
use crate::num::{parse_u32, parse_unsigned};
use crate::style::{plain, with_bg, with_fg, with_mod, Color, Style, BOLD, DIM, REVERSED, UNDERLINED};
use crate::text::{
    chars_of, contains_char, find, find_char, has_prefix, lowercase, slice_chars, split_char,
    split_on, starts_with_str, string_of, to_lowercase, trim, trim_chars, views,
};

verus! {

// ── SGR codes ────────────────────────────────────────────────────────────

/// The colour of SGR foreground code 30–37, or its bright variant (the
/// colour that bold text in that code shows); `Reset` for other codes.
pub open spec fn ansi_color(code: nat, bright: bool) -> Color {
    if code == 30 {
        if bright { Color::DarkGray } else { Color::Black }
    } else if code == 31 {
        if bright { Color::LightRed } else { Color::Red }
    } else if code == 32 {
        if bright { Color::LightGreen } else { Color::Green }
    } else if code == 33 {
        if bright { Color::LightYellow } else { Color::Yellow }
    } else if code == 34 {
        if bright { Color::LightBlue } else { Color::Blue }
    } else if code == 35 {
        if bright { Color::LightMagenta } else { Color::Magenta }
    } else if code == 36 {
        if bright { Color::LightCyan } else { Color::Cyan }
    } else if code == 37 {
        if bright { Color::Gray } else { Color::White }
    } else {
        Color::Reset
    }
}

/// Executable form of [`ansi_color`].
pub fn ansi_fg(code: u32, bright: bool) -> (r: Color)
    ensures
        r == ansi_color(code as nat, bright),
{
    if code == 30 {
        if bright { Color::DarkGray } else { Color::Black }
    } else if code == 31 {
        if bright { Color::LightRed } else { Color::Red }
    } else if code == 32 {
        if bright { Color::LightGreen } else { Color::Green }
    } else if code == 33 {
        if bright { Color::LightYellow } else { Color::Yellow }
    } else if code == 34 {
        if bright { Color::LightBlue } else { Color::Blue }
    } else if code == 35 {
        if bright { Color::LightMagenta } else { Color::Magenta }
    } else if code == 36 {
        if bright { Color::LightCyan } else { Color::Cyan }
    } else if code == 37 {
        if bright { Color::Gray } else { Color::White }
    } else {
        Color::Reset
    }
}

/// The state while reading SGR codes: the style so far, whether bold was
/// set, and the last standard foreground code (30–37).
pub type SgrState = (Style, bool, Option<u32>);

/// The number a piece of an SGR sequence stands for; 999 (no code) when it
/// is not a number.
pub open spec fn sgr_code(part: Seq<char>) -> nat {
    match parse_unsigned(trim(part), 10, u32::MAX as nat) {
        Some(v) => v,
        None => 999,
    }
}

/// The effect of one SGR code.
pub open spec fn sgr_step(st: SgrState, code: nat) -> SgrState {
    let s = st.0;
    if code == 0 {
        (plain(), false, None)
    } else if code == 1 {
        (with_mod(s, BOLD), true, st.2)
    } else if code == 2 {
        (with_mod(s, DIM), st.1, st.2)
    } else if code == 4 {
        (with_mod(s, UNDERLINED), st.1, st.2)
    } else if code == 7 {
        (with_mod(s, REVERSED), st.1, st.2)
    } else if 30 <= code <= 37 {
        (with_fg(s, ansi_color(code, false)), st.1, Some(code as u32))
    } else if 90 <= code <= 97 {
        (with_fg(s, bright_color(code)), st.1, st.2)
    } else if 40 <= code <= 47 {
        (with_bg(s, ansi_color((code - 10) as nat, false)), st.1, st.2)
    } else {
        st
    }
}

/// The colour of SGR code 90–97.
pub open spec fn bright_color(code: nat) -> Color {
    if code == 97 {
        Color::Gray
    } else {
        ansi_color((code - 60) as nat, true)
    }
}

/// The state after the SGR codes `parts`, read left to right.
pub open spec fn sgr_fold(parts: Seq<Seq<char>>) -> SgrState
    decreases parts.len(),
{
    if parts.len() == 0 {
        (plain(), false, None)
    } else {
        sgr_step(sgr_fold(parts.drop_last()), sgr_code(parts.last()))
    }
}

/// The style of a `;`-separated SGR sequence; bold with a standard
/// foreground shows the bright variant, as terminals render it.
pub open spec fn ansi_style(codes: Seq<char>) -> Style {
    let st = sgr_fold(split_on(codes, ';'));
    match st.2 {
        Some(n) if st.1 => with_fg(st.0, ansi_color(n as nat, true)),
        _ => st.0,
    }
}

fn bright_fg(code: u32) -> (r: Color)
    requires
        90 <= code <= 97,
    ensures
        r == bright_color(code as nat),
{
    if code == 97 {
        Color::Gray
    } else {
        ansi_fg(code - 60, true)
    }
}

/// The style of an SGR code sequence such as `01;34`.
pub fn parse_ansi(codes: &str) -> (r: Style)
    ensures
        r == ansi_style(codes@),
{
    let cs = chars_of(codes);
    let parts = split_char(&cs, ';');
    let mut style = Style::new();
    let mut bold = false;
    let mut fg_code: Option<u32> = None;
    let mut i: usize = 0;
    while i < parts.len()
        invariant
            i <= parts.len(),
            views(parts@) == split_on(cs@, ';'),
            cs@ == codes@,
            (style, bold, fg_code) == sgr_fold(views(parts@).take(i as int)),
        decreases parts.len() - i,
    {
        proof {
            let t = views(parts@).take(i + 1);
            assert(t.drop_last() =~= views(parts@).take(i as int));
            assert(t.last() == parts@[i as int]@);
        }
        let t = trim_chars(&parts[i]);
        let code: u32 = match parse_u32(&t) {
            Some(v) => v,
            None => 999,
        };
        if code == 0 {
            style = Style::new();
            bold = false;
            fg_code = None;
        } else if code == 1 {
            style = style.add_modifier(BOLD);
            bold = true;
        } else if code == 2 {
            style = style.add_modifier(DIM);
        } else if code == 4 {
            style = style.add_modifier(UNDERLINED);
        } else if code == 7 {
            style = style.add_modifier(REVERSED);
        } else if 30 <= code && code <= 37 {
            style = style.fg(ansi_fg(code, false));
            fg_code = Some(code);
        } else if 90 <= code && code <= 97 {
            style = style.fg(bright_fg(code));
        } else if 40 <= code && code <= 47 {
            style = style.bg(ansi_fg(code - 10, false));
        }
        i += 1;
    }
    assert(views(parts@).take(parts.len() as int) =~= views(parts@));
    if bold {
        if let Some(n) = fg_code {
            style = style.fg(ansi_fg(n, true));
        }
    }
    style
}

// ── LS_COLORS ────────────────────────────────────────────────────────────

/// The rule of one `key=codes` piece of `LS_COLORS`: an extension pattern
/// `*.ext` becomes the key `ext:` followed by the lowercased extension.
pub open spec fn ls_rule(part: Seq<char>) -> Option<(Seq<char>, Style)> {
    let i = find_char(part, '=');
    if i < 0 {
        None
    } else {
        let key = part.take(i);
        let style = ansi_style(part.skip(i + 1));
        if has_prefix(key, "*."@) {
            Some(("ext:"@ + lowercase(key.skip(2)), style))
        } else {
            Some((key, style))
        }
    }
}

/// The rules of the pieces `parts`, in order; a later rule for the same
/// key replaces an earlier one.
pub open spec fn ls_rules(parts: Seq<Seq<char>>) -> Map<Seq<char>, Style>
    decreases parts.len(),
{
    if parts.len() == 0 {
        Map::empty()
    } else {
        let m = ls_rules(parts.drop_last());
        match ls_rule(parts.last()) {
            Some((k, st)) => m.insert(k, st),
            None => m,
        }
    }
}

/// The colour table of an `LS_COLORS` value.
pub open spec fn ls_colors_map(s: Seq<char>) -> Map<Seq<char>, Style> {
    ls_rules(split_on(s, ':'))
}

/// Parses an `LS_COLORS` value into keys (`di`, `ln`, `ext:rs`, ...) and
/// their styles.
pub fn parse_ls_colors(s: &str) -> (r: NameMap<Style>)
    ensures
        r.view_map() == ls_colors_map(s@),
{
    let cs = chars_of(s);
    let parts = split_char(&cs, ':');
    let mut map: NameMap<Style> = NameMap::new();
    let mut i: usize = 0;
    proof {
        reveal_strlit("*.");
        reveal_strlit("ext:");
    }
    while i < parts.len()
        invariant
            i <= parts.len(),
            views(parts@) == split_on(cs@, ':'),
            cs@ == s@,
            map.view_map() == ls_rules(views(parts@).take(i as int)),
            "*."@.len() == 2,
            "ext:"@ == seq!['e', 'x', 't', ':'],
        decreases parts.len() - i,
    {
        proof {
            let t = views(parts@).take(i + 1);
            assert(t.drop_last() =~= views(parts@).take(i as int));
            assert(t.last() == parts@[i as int]@);
        }
        let part = &parts[i];
        match find(part, '=') {
            Some(eq) => {
                let plen = part.len();
                let key = slice_chars(part, 0, eq);
                let val = slice_chars(part, eq + 1, plen);
                assert(key@ == part@.take(eq as int));
                assert(val@ == part@.skip(eq + 1));
                let vs = string_of(&val);
                let style = parse_ansi(vs.as_str());
                if starts_with_str(&key, "*.") {
                    let ext = slice_chars(&key, 2, key.len());
                    let low = to_lowercase(&ext);
                    let mut name: Vec<char> = Vec::new();
                    name.push('e');
                    name.push('x');
                    name.push('t');
                    name.push(':');
                    let mut k: usize = 0;
                    while k < low.len()
                        invariant
                            k <= low.len(),
                            name@ == seq!['e', 'x', 't', ':'] + low@.take(k as int),
                        decreases low.len() - k,
                    {
                        name.push(low[k]);
                        k += 1;
                        assert(name@ =~= seq!['e', 'x', 't', ':'] + low@.take(k as int));
                    }
                    assert(low@.take(low.len() as int) =~= low@);
                    assert(ext@ == key@.skip(2));
                    map.insert(string_of(&name), style);
                } else {
                    map.insert(string_of(&key), style);
                }
            },
            None => {},
        }
        i += 1;
    }
    assert(views(parts@).take(parts.len() as int) =~= views(parts@));
    map
}

// ── LSCOLORS ─────────────────────────────────────────────────────────────

/// The colour of an `LSCOLORS` letter, and whether it asks for bold
/// (capital letters); `x` and unknown letters give no colour.
pub open spec fn lsc_color(ch: char) -> (Option<Color>, bool) {
    if ch == 'a' {
        (Some(Color::Black), false)
    } else if ch == 'b' {
        (Some(Color::Red), false)
    } else if ch == 'c' {
        (Some(Color::Green), false)
    } else if ch == 'd' {
        (Some(Color::Yellow), false)
    } else if ch == 'e' {
        (Some(Color::Blue), false)
    } else if ch == 'f' {
        (Some(Color::Magenta), false)
    } else if ch == 'g' {
        (Some(Color::Cyan), false)
    } else if ch == 'h' {
        (Some(Color::Gray), false)
    } else if ch == 'A' {
        (Some(Color::DarkGray), true)
    } else if ch == 'B' {
        (Some(Color::LightRed), true)
    } else if ch == 'C' {
        (Some(Color::LightGreen), true)
    } else if ch == 'D' {
        (Some(Color::LightYellow), true)
    } else if ch == 'E' {
        (Some(Color::LightBlue), true)
    } else if ch == 'F' {
        (Some(Color::LightMagenta), true)
    } else if ch == 'G' {
        (Some(Color::LightCyan), true)
    } else if ch == 'H' {
        (Some(Color::White), true)
    } else {
        (None, false)
    }
}

/// Executable form of [`lsc_color`].
pub fn parse_lscolors_color(ch: char) -> (r: (Option<Color>, bool))
    ensures
        r == lsc_color(ch),
{
    if ch == 'a' {
        (Some(Color::Black), false)
    } else if ch == 'b' {
        (Some(Color::Red), false)
    } else if ch == 'c' {
        (Some(Color::Green), false)
    } else if ch == 'd' {
        (Some(Color::Yellow), false)
    } else if ch == 'e' {
        (Some(Color::Blue), false)
    } else if ch == 'f' {
        (Some(Color::Magenta), false)
    } else if ch == 'g' {
        (Some(Color::Cyan), false)
    } else if ch == 'h' {
        (Some(Color::Gray), false)
    } else if ch == 'A' {
        (Some(Color::DarkGray), true)
    } else if ch == 'B' {
        (Some(Color::LightRed), true)
    } else if ch == 'C' {
        (Some(Color::LightGreen), true)
    } else if ch == 'D' {
        (Some(Color::LightYellow), true)
    } else if ch == 'E' {
        (Some(Color::LightBlue), true)
    } else if ch == 'F' {
        (Some(Color::LightMagenta), true)
    } else if ch == 'G' {
        (Some(Color::LightCyan), true)
    } else if ch == 'H' {
        (Some(Color::White), true)
    } else {
        (None, false)
    }
}

/// The style of a foreground/background letter pair; bold when either
/// letter is a capital.
pub open spec fn lsc_pair(fg: char, bg: char) -> Style {
    let (f, fb) = lsc_color(fg);
    let (b, bb) = lsc_color(bg);
    let s1 = match f {
        Some(c) => with_fg(plain(), c),
        None => plain(),
    };
    let s2 = match b {
        Some(c) => with_bg(s1, c),
        None => s1,
    };
    if fb || bb {
        with_mod(s2, BOLD)
    } else {
        s2
    }
}

/// Executable form of [`lsc_pair`].
pub fn parse_lscolors_pair(fg: char, bg: char) -> (r: Style)
    ensures
        r == lsc_pair(fg, bg),
{
    let (f, fb) = parse_lscolors_color(fg);
    let (b, bb) = parse_lscolors_color(bg);
    let mut style = Style::new();
    if let Some(c) = f {
        style = style.fg(c);
    }
    if let Some(c) = b {
        style = style.bg(c);
    }
    if fb || bb {
        style = style.add_modifier(BOLD);
    }
    style
}

/// The eleven file kinds of `LSCOLORS`, in the order of their pairs.
pub open spec fn lsc_key(i: int) -> Seq<char> {
    if i == 0 {
        "di"@
    } else if i == 1 {
        "ln"@
    } else if i == 2 {
        "so"@
    } else if i == 3 {
        "pi"@
    } else if i == 4 {
        "ex"@
    } else if i == 5 {
        "bd"@
    } else if i == 6 {
        "cd"@
    } else if i == 7 {
        "su"@
    } else if i == 8 {
        "sg"@
    } else if i == 9 {
        "tw"@
    } else {
        "ow"@
    }
}

fn lsc_key_str(i: usize) -> (r: &'static str)
    requires
        i < 11,
    ensures
        r@ == lsc_key(i as int),
{
    if i == 0 {
        "di"
    } else if i == 1 {
        "ln"
    } else if i == 2 {
        "so"
    } else if i == 3 {
        "pi"
    } else if i == 4 {
        "ex"
    } else if i == 5 {
        "bd"
    } else if i == 6 {
        "cd"
    } else if i == 7 {
        "su"
    } else if i == 8 {
        "sg"
    } else if i == 9 {
        "tw"
    } else {
        "ow"
    }
}

/// The first `n` kinds of an `LSCOLORS` value `c` with their styles.
pub open spec fn lsc_rules(c: Seq<char>, n: int) -> Map<Seq<char>, Style>
    decreases n,
{
    if n <= 0 {
        Map::empty()
    } else {
        lsc_rules(c, n - 1).insert(lsc_key(n - 1), lsc_pair(c[2 * (n - 1)], c[2 * (n - 1) + 1]))
    }
}

/// The colour table of an `LSCOLORS` value: empty when it has fewer than
/// 22 characters.
pub open spec fn lsc_colors_map(c: Seq<char>) -> Map<Seq<char>, Style> {
    if c.len() < 22 {
        Map::empty()
    } else {
        lsc_rules(c, 11)
    }
}

/// Parses a BSD `LSCOLORS` value such as `ExfxcxdxCxegedabagacad`.
pub fn parse_lsc_colors(s: &str) -> (r: NameMap<Style>)
    ensures
        r.view_map() == lsc_colors_map(s@),
{
    let cs = chars_of(s);
    let mut map: NameMap<Style> = NameMap::new();
    if cs.len() < 22 {
        return map;
    }
    let mut i: usize = 0;
    while i < 11
        invariant
            i <= 11,
            cs@ == s@,
            cs@.len() >= 22,
            map.view_map() == lsc_rules(cs@, i as int),
        decreases 11 - i,
    {
        let idx = i * 2;
        let st = parse_lscolors_pair(cs[idx], cs[idx + 1]);
        let k = lsc_key_str(i);
        map.insert(string_of(&chars_of(k)), st);
        i += 1;
    }
    map
}

/// The colour table of a colouring value: `LS_COLORS` format when it holds
/// a `=`, else `LSCOLORS` format.
pub open spec fn file_colors_map(s: Seq<char>) -> Map<Seq<char>, Style> {
    if s.contains('=') {
        ls_colors_map(s)
    } else {
        lsc_colors_map(s)
    }
}

/// Parses a colouring value in either format.
pub fn parse_file_colors(s: &str) -> (r: NameMap<Style>)
    ensures
        r.view_map() == file_colors_map(s@),
{
    let cs = chars_of(s);
    if contains_char(&cs, '=') {
        parse_ls_colors(s)
    } else {
        parse_lsc_colors(s)
    }
}


// ── The style of a listing entry ─────────────────────────────────────────

/// The style of key `k` in the table, if any.
pub open spec fn style_at(m: Map<Seq<char>, Style>, k: Seq<char>) -> Option<Style> {
    if m.dom().contains(k) {
        Some(m[k])
    } else {
        None
    }
}

/// The table key of a directory: `tw` (sticky and writable by others),
/// `ow` (writable by others), `st` (sticky) or `di`.
pub open spec fn dir_key(mode: u32) -> Seq<char> {
    let sticky = mode & 0o1000 != 0;
    let other_write = mode & 0o002 != 0;
    if sticky && other_write {
        "tw"@
    } else if other_write {
        "ow"@
    } else if sticky {
        "st"@
    } else {
        "di"@
    }
}

/// The colour of an entry in the listing: links by `ln`; directories by
/// their kind, falling back to `di`; executables by `ex`; other files by
/// their lowercased extension (`ext:...`, when the name has a dot after its
/// first character); the plain style otherwise.
pub open spec fn entry_style(m: Map<Seq<char>, Style>, e: crate::app::FileEntry) -> Style {
    if e.is_link {
        match style_at(m, "ln"@) {
            Some(s) => s,
            None => plain(),
        }
    } else if e.is_dir {
        match style_at(m, dir_key(e.mode)) {
            Some(s) => s,
            None => match style_at(m, "di"@) {
                Some(s) => s,
                None => plain(),
            },
        }
    } else if e.mode & 0o111 != 0 {
        match style_at(m, "ex"@) {
            Some(s) => s,
            None => plain(),
        }
    } else {
        let d = crate::text::rfind_char(e.name@, '.');
        if d > 0 {
            match style_at(m, "ext:"@ + lowercase(e.name@.skip(d + 1))) {
                Some(s) => s,
                None => plain(),
            }
        } else {
            plain()
        }
    }
}

fn dir_key_str(mode: u32) -> (r: &'static str)
    ensures
        r@ == dir_key(mode),
{
    let sticky = mode & 0o1000 != 0;
    let other_write = mode & 0o002 != 0;
    if sticky && other_write {
        "tw"
    } else if other_write {
        "ow"
    } else if sticky {
        "st"
    } else {
        "di"
    }
}

/// The style of an entry of the listing (see [`entry_style`]).
pub fn ls_style(e: &crate::app::FileEntry, colors: &NameMap<Style>) -> (r: Style)
    ensures
        r == entry_style(colors.view_map(), *e),
{
    if e.is_link {
        return match colors.get("ln") {
            Some(s) => s,
            None => Style::new(),
        };
    }
    if e.is_dir {
        return match colors.get(dir_key_str(e.mode)) {
            Some(s) => s,
            None => match colors.get("di") {
                Some(s) => s,
                None => Style::new(),
            },
        };
    }
    if e.mode & 0o111 != 0 {
        return match colors.get("ex") {
            Some(s) => s,
            None => Style::new(),
        };
    }
    let n = chars_of(e.name.as_str());
    let nl = n.len();
    match crate::text::rfind(&n, '.') {
        Some(d) => {
            if d > 0 {
                let ext = slice_chars(&n, d + 1, nl);
                let low = to_lowercase(&ext);
                let mut key: Vec<char> = Vec::new();
                key.push('e');
                key.push('x');
                key.push('t');
                key.push(':');
                let mut k: usize = 0;
                while k < low.len()
                    invariant
                        k <= low.len(),
                        key@ == seq!['e', 'x', 't', ':'] + low@.take(k as int),
                    decreases low.len() - k,
                {
                    key.push(low[k]);
                    k += 1;
                    assert(key@ =~= seq!['e', 'x', 't', ':'] + low@.take(k as int));
                }
                assert(low@.take(low.len() as int) =~= low@);
                proof {
                    reveal_strlit("ext:");
                }
                assert(key@ =~= "ext:"@ + lowercase(e.name@.skip(d + 1)));
                match colors.get_chars(&key) {
                    Some(s) => s,
                    None => Style::new(),
                }
            } else {
                Style::new()
            }
        },
        None => Style::new(),
    }
}


/// A directory that is not a link is coloured as a directory, whatever its
/// execute bits: by the key of its kind (`tw`, `ow`, `st`) or else by `di`,
/// so a plain directory takes the `di` rule, and the `ex` rule, which is
/// for files, never decides its colour.
pub proof fn law_directories_take_directory_colours(m: Map<Seq<char>, Style>, e: crate::app::FileEntry)
    requires
        e.is_dir,
        !e.is_link,
    ensures
        (e.mode & 0o1000 == 0 && e.mode & 0o002 == 0 && m.dom().contains("di"@)) ==> entry_style(m, e) == m["di"@],
        entry_style(m, e) == entry_style(m.remove("ex"@), e),
{
    reveal_strlit("di");
    reveal_strlit("ex");
    reveal_strlit("tw");
    reveal_strlit("ow");
    reveal_strlit("st");
    let k = dir_key(e.mode);
    assert("ex"@[0] == 'e');
    assert(k[0] != 'e');
    assert(k != "ex"@);
    assert("di"@[0] != "ex"@[0]);
    assert("di"@ != "ex"@);
    assert(style_at(m, k) == style_at(m.remove("ex"@), k));
    assert(style_at(m, "di"@) == style_at(m.remove("ex"@), "di"@));
}

} // verus!
