//! Shell quoting and command-line splitting, `mountinfo` decoding and mount
//! selection, path components, and the readers of `git` command output.
use vstd::prelude::*;
use vstd::utf8::{encode_utf8, is_continuation_byte};
use crate::namemap::NameMap;
use crate::num::{parse_radix, parse_unsigned};
use crate::text::{
    chars_of, contains_run, copy_chars, has_prefix, is_blank, is_whitespace, is_ws, lines,
    push_all, split_char, split_lines, split_on, split_words, starts_with, string_of, trim,
    trim_chars, views, words,
};

verus! {

// ── Shell quoting ────────────────────────────────────────────────────────

/// Characters that make a word need quoting for `sh`.
pub open spec fn is_shell_special(c: char) -> bool {
    ||| c == ' ' || c == '\t' || c == '\n' || c == '\'' || c == '"' || c == '\\'
    ||| c == '$' || c == '`' || c == '!' || c == '&' || c == ';' || c == '|'
    ||| c == '<' || c == '>' || c == '(' || c == ')' || c == '{' || c == '}'
    ||| c == '[' || c == ']' || c == '#' || c == '~' || c == '?' || c == '*'
}

fn shell_special(c: char) -> (r: bool)
    ensures
        r == is_shell_special(c),
{
    c == ' ' || c == '\t' || c == '\n' || c == '\'' || c == '"' || c == '\\' || c == '$' || c
        == '`' || c == '!' || c == '&' || c == ';' || c == '|' || c == '<' || c == '>' || c
        == '(' || c == ')' || c == '{' || c == '}' || c == '[' || c == ']' || c == '#' || c
        == '~' || c == '?' || c == '*'
}

/// `s` with every `'` replaced by `'\''`.
pub open spec fn escape_quotes(s: Seq<char>) -> Seq<char>
    decreases s.len(),
{
    if s.len() == 0 {
        seq![]
    } else {
        escape_quotes(s.drop_last()) + (if s.last() == '\'' {
            seq!['\'', '\\', '\'', '\'']
        } else {
            seq![s.last()]
        })
    }
}

/// `s` made safe as one `sh` word: unchanged when it holds no special
/// character, otherwise wrapped in single quotes with inner quotes escaped.
pub open spec fn shell_quoted(s: Seq<char>) -> Seq<char> {
    if exists|i: int| 0 <= i < s.len() && is_shell_special(#[trigger] s[i]) {
        seq!['\''] + escape_quotes(s) + seq!['\'']
    } else {
        s
    }
}

/// Quotes `s` for `sh`.
pub fn shell_quote(s: &str) -> (r: String)
    ensures
        r@ == shell_quoted(s@),
{
    let c = chars_of(s);
    let mut special = false;
    let mut esc: Vec<char> = Vec::new();
    let mut i: usize = 0;
    while i < c.len()
        invariant
            i <= c.len(),
            c@ == s@,
            esc@ == escape_quotes(c@.take(i as int)),
            special == exists|k: int| 0 <= k < i && is_shell_special(#[trigger] c@[k]),
        decreases c.len() - i,
    {
        let ch = c[i];
        if shell_special(ch) {
            special = true;
        }
        if ch == '\'' {
            esc.push('\'');
            esc.push('\\');
            esc.push('\'');
            esc.push('\'');
        } else {
            esc.push(ch);
        }
        assert(c@.take(i + 1).drop_last() =~= c@.take(i as int));
        assert(esc@ =~= escape_quotes(c@.take(i + 1)));
        i += 1;
    }
    assert(c@.take(c.len() as int) =~= c@);
    if special {
        let mut out: Vec<char> = Vec::new();
        out.push('\'');
        push_all(&mut out, &esc);
        out.push('\'');
        assert(out@ =~= seq!['\''] + escape_quotes(s@) + seq!['\'']);
        string_of(&out)
    } else {
        string_of(&c)
    }
}

/// The askpass helper script that prints `passphrase` for `ssh`.
pub open spec fn askpass_text(passphrase: Seq<char>) -> Seq<char> {
    "#!/bin/sh\nprintf '%s\\n' "@ + shell_quoted(passphrase) + "\n"@
}

/// The text of the askpass helper script for `passphrase`.
pub fn askpass_script(passphrase: &str) -> (r: String)
    ensures
        r@ == askpass_text(passphrase@),
{
    let mut out = chars_of("#!/bin/sh\nprintf '%s\\n' ");
    let q = shell_quote(passphrase);
    let qv = chars_of(q.as_str());
    push_all(&mut out, &qv);
    let nl = chars_of("\n");
    push_all(&mut out, &nl);
    string_of(&out)
}

// ── Command-line splitting ───────────────────────────────────────────────

/// Why a command line could not be split.
#[derive(Clone, Copy, Debug, PartialEq, Eq, Structural)]
pub enum CommandLineError {
    /// A single or double quote is not closed.
    UnclosedQuote,
    /// The command line holds no program name.
    EmptyProgram,
}

impl CommandLineError {
    /// The message shown for the error.
    pub fn message(&self) -> (r: &'static str)
        ensures
            r@ == (match self {
                CommandLineError::UnclosedQuote => "引用符が閉じられていません"@,
                CommandLineError::EmptyProgram => "プログラム名が空です"@,
            }),
    {
        match self {
            CommandLineError::UnclosedQuote => "引用符が閉じられていません",
            CommandLineError::EmptyProgram => "プログラム名が空です",
        }
    }
}

/// The arguments of `s[i..]` in the given quoting state, with the partial
/// argument `cur` and the finished arguments `args`; `None` when a quote is
/// left open. Outside single quotes a backslash takes the next character
/// literally; quotes toggle their state unless inside the other kind;
/// unquoted whitespace ends an argument.
pub open spec fn split_args_from(
    s: Seq<char>,
    i: int,
    sq: bool,
    dq: bool,
    cur: Seq<char>,
    args: Seq<Seq<char>>,
) -> Option<Seq<Seq<char>>>
    decreases s.len() - i,
{
    if i < 0 || i >= s.len() {
        if sq || dq {
            None
        } else if cur.len() > 0 {
            Some(args.push(cur))
        } else {
            Some(args)
        }
    } else {
        let c = s[i];
        if c == '\'' && !dq {
            split_args_from(s, i + 1, !sq, dq, cur, args)
        } else if c == '"' && !sq {
            split_args_from(s, i + 1, sq, !dq, cur, args)
        } else if c == '\\' && !sq {
            if i + 1 < s.len() {
                split_args_from(s, i + 2, sq, dq, cur.push(s[i + 1]), args)
            } else {
                split_args_from(s, i + 1, sq, dq, cur, args)
            }
        } else if is_ws(c) && !sq && !dq {
            if cur.len() > 0 {
                split_args_from(s, i + 1, sq, dq, seq![], args.push(cur))
            } else {
                split_args_from(s, i + 1, sq, dq, seq![], args)
            }
        } else {
            split_args_from(s, i + 1, sq, dq, cur.push(c), args)
        }
    }
}

/// The arguments of a command line, `None` when a quote is left open.
pub open spec fn split_args(s: Seq<char>) -> Option<Seq<Seq<char>>> {
    split_args_from(s, 0, false, false, seq![], seq![])
}

/// The string views of a vector of strings.
pub open spec fn string_views(v: Seq<String>) -> Seq<Seq<char>> {
    v.map_values(|x: String| x@)
}

/// Splits a command line into arguments, honouring quotes and backslashes.
pub fn split_command_args(s: &str) -> (r: Result<Vec<String>, CommandLineError>)
    ensures
        match split_args(s@) {
            Some(a) => r matches Ok(v) && string_views(v@) == a,
            None => r == Err::<Vec<String>, CommandLineError>(CommandLineError::UnclosedQuote),
        },
{
    let c = chars_of(s);
    let mut args: Vec<String> = Vec::new();
    let mut cur: Vec<char> = Vec::new();
    let mut sq = false;
    let mut dq = false;
    let mut i: usize = 0;
    assert(string_views(args@) =~= seq![]);
    assert(cur@ =~= seq![]);
    while i < c.len()
        invariant
            i <= c.len(),
            c@ == s@,
            split_args(s@) == split_args_from(c@, i as int, sq, dq, cur@, string_views(args@)),
        decreases c.len() - i,
    {
        let ch = c[i];
        if ch == '\'' && !dq {
            sq = !sq;
            i += 1;
        } else if ch == '"' && !sq {
            dq = !dq;
            i += 1;
        } else if ch == '\\' && !sq {
            if i + 1 < c.len() {
                cur.push(c[i + 1]);
                i += 2;
            } else {
                i += 1;
            }
        } else if is_whitespace(ch) && !sq && !dq {
            if cur.len() > 0 {
                let ghost a0 = string_views(args@);
                let ghost w = cur@;
                args.push(string_of(&cur));
                cur = Vec::new();
                assert(string_views(args@) =~= a0.push(w));
            }
            assert(cur@ =~= seq![]);
            i += 1;
        } else {
            cur.push(ch);
            i += 1;
        }
    }
    if sq || dq {
        return Err(CommandLineError::UnclosedQuote);
    }
    if cur.len() > 0 {
        let ghost a0 = string_views(args@);
        let ghost w = cur@;
        args.push(string_of(&cur));
        assert(string_views(args@) =~= a0.push(w));
    }
    Ok(args)
}

/// The program and its arguments from a configured program line: an error
/// when quotes are unbalanced or the line holds no word.
pub fn program_argv(program: &str) -> (r: Result<Vec<String>, CommandLineError>)
    ensures
        match split_args(program@) {
            Some(a) => if a.len() > 0 {
                r matches Ok(v) && string_views(v@) == a
            } else {
                r == Err::<Vec<String>, CommandLineError>(CommandLineError::EmptyProgram)
            },
            None => r == Err::<Vec<String>, CommandLineError>(CommandLineError::UnclosedQuote),
        },
{
    match split_command_args(program) {
        Ok(v) => {
            if v.len() == 0 {
                Err(CommandLineError::EmptyProgram)
            } else {
                Ok(v)
            }
        },
        Err(e) => Err(e),
    }
}

// ── Quoting and splitting agree ──────────────────────────────────────────

/// The pieces that [`escape_quotes`] writes for `c`.
spec fn escaped(c: char) -> Seq<char> {
    if c == '\'' {
        seq!['\'', '\\', '\'', '\'']
    } else {
        seq![c]
    }
}

proof fn lemma_escape_push(u: Seq<char>, c: char)
    ensures
        escape_quotes(u.push(c)) == escape_quotes(u) + escaped(c),
{
    assert(u.push(c).drop_last() =~= u);
}

/// Inside single quotes, the escaped text of `u` reads back as `u`.
proof fn lemma_read_escaped(w: Seq<char>, pos: int, u: Seq<char>, cur: Seq<char>, args: Seq<Seq<char>>)
    requires
        0 <= pos,
        pos + escape_quotes(u).len() < w.len(),
        w.subrange(pos, pos + escape_quotes(u).len()) == escape_quotes(u),
    ensures
        split_args_from(w, pos, true, false, cur, args) == split_args_from(
            w,
            pos + escape_quotes(u).len(),
            true,
            false,
            cur + u,
            args,
        ),
    decreases u.len(),
{
    if u.len() == 0 {
        assert(cur + u =~= cur);
    } else {
        let v = u.drop_last();
        let c = u.last();
        assert(v.push(c) =~= u);
        lemma_escape_push(v, c);
        let ev = escape_quotes(v);
        let m = pos + ev.len();
        assert(w.subrange(pos, m) =~= escape_quotes(u).subrange(0, ev.len() as int));
        assert(escape_quotes(u).subrange(0, ev.len() as int) =~= ev);
        lemma_read_escaped(w, pos, v, cur, args);
        if c == '\'' {
            let wu = w.subrange(pos, pos + escape_quotes(u).len());
            assert(w[m] == wu[ev.len() as int]);
            assert(w[m + 1] == wu[ev.len() as int + 1]);
            assert(w[m + 2] == wu[ev.len() as int + 2]);
            assert(w[m + 3] == wu[ev.len() as int + 3]);
            assert(w[m] == '\'');
            assert(w[m + 1] == '\\');
            assert(w[m + 2] == '\'');
            assert(w[m + 3] == '\'');
            let cv = cur + v;
            assert(split_args_from(w, m, true, false, cv, args) == split_args_from(w, m + 1, false, false, cv, args));
            assert(split_args_from(w, m + 1, false, false, cv, args) == split_args_from(w, m + 3, false, false, cv.push('\''), args));
            assert(split_args_from(w, m + 3, false, false, cv.push('\''), args) == split_args_from(w, m + 4, true, false, cv.push('\''), args));
            assert(cv.push('\'') =~= cur + u);
        } else {
            assert(w[m] == escape_quotes(u)[ev.len() as int]);
            assert(w[m] == c);
            let cv = cur + v;
            assert(split_args_from(w, m, true, false, cv, args) == split_args_from(w, m + 1, true, false, cv.push(c), args));
            assert(cv.push(c) =~= cur + u);
        }
    }
}

/// A text with no character that needs quoting reads back as itself.
proof fn lemma_read_plain(s: Seq<char>, i: int)
    requires
        0 <= i <= s.len(),
        forall|k: int| 0 <= k < s.len() ==> !is_shell_special(#[trigger] s[k]),
        forall|k: int| 0 <= k < s.len() ==> (is_ws(#[trigger] s[k]) ==> is_shell_special(s[k])),
    ensures
        split_args_from(s, i, false, false, s.take(i), seq![]) == split_args_from(
            s,
            s.len() as int,
            false,
            false,
            s,
            seq![],
        ),
    decreases s.len() - i,
{
    if i < s.len() {
        assert(!is_shell_special(s[i]));
        assert(!is_ws(s[i]));
        assert(s.take(i).push(s[i]) =~= s.take(i + 1));
        lemma_read_plain(s, i + 1);
    } else {
        assert(s.take(i) =~= s);
    }
}

/// A word quoted for `sh` by [`shell_quote`] splits back into that one
/// word, for a non-empty word whose whitespace is all spaces, tabs and
/// newlines (other whitespace is left unquoted and splits the word).
pub proof fn law_quote_then_split(s: Seq<char>)
    requires
        s.len() > 0,
        forall|k: int| 0 <= k < s.len() ==> (is_ws(#[trigger] s[k]) ==> s[k] == ' ' || s[k] == '\t' || s[k] == '\n'),
    ensures
        split_args(shell_quoted(s)) == Some(seq![s]),
{
    if exists|i: int| 0 <= i < s.len() && is_shell_special(#[trigger] s[i]) {
        let e = escape_quotes(s);
        let q = seq!['\''] + e + seq!['\''];
        assert(shell_quoted(s) == q);
        assert(q.subrange(1, 1 + e.len() as int) =~= e);
        assert(q[0] == '\'');
        assert(split_args_from(q, 0, false, false, seq![], seq![]) == split_args_from(q, 1, true, false, seq![], seq![]));
        lemma_read_escaped(q, 1, s, seq![], seq![]);
        assert(seq![] + s =~= s);
        assert(split_args_from(q, 1 + e.len() as int, true, false, s, seq![]) == split_args_from(q, 2 + e.len() as int, false, false, s, seq![]));
        assert(q[1 + e.len() as int] == '\'');
        assert(q.len() == 2 + e.len());
        assert(seq![].push(s) =~= seq![s]);
    } else {
        assert(shell_quoted(s) == s);
        assert forall|k: int| 0 <= k < s.len() && is_ws(#[trigger] s[k]) implies is_shell_special(s[k]) by {}
        assert(s.take(0) =~= seq![]);
        lemma_read_plain(s, 0);
        assert(seq![].push(s) =~= seq![s]);
    }
}

/// How POSIX `sh` reads the words of `t[i..]` (the part of its grammar
/// that quoted words use): outside quotes, blanks (space, tab) end a word,
/// `'` opens a quote in which every character up to the next `'` stands
/// for itself, a backslash takes the next character literally (a
/// backslash-newline is removed), and any other special character (one
/// that [`shell_quote`] quotes) would be interpreted by the shell, which
/// this reading leaves undefined (`None`); an unclosed quote is `None`
/// too. `inq` says whether a quote is open, `started` whether a word has
/// begun, `cur` is the word read so far and `words` the words before it.
pub open spec fn sh_read_from(
    t: Seq<char>,
    i: int,
    inq: bool,
    started: bool,
    cur: Seq<char>,
    words: Seq<Seq<char>>,
) -> Option<Seq<Seq<char>>>
    decreases t.len() - i,
{
    if i < 0 || i >= t.len() {
        if inq {
            None
        } else if started {
            Some(words.push(cur))
        } else {
            Some(words)
        }
    } else {
        let c = t[i];
        if inq {
            if c == '\'' {
                sh_read_from(t, i + 1, false, true, cur, words)
            } else {
                sh_read_from(t, i + 1, true, true, cur.push(c), words)
            }
        } else if c == ' ' || c == '\t' {
            if started {
                sh_read_from(t, i + 1, false, false, seq![], words.push(cur))
            } else {
                sh_read_from(t, i + 1, false, false, cur, words)
            }
        } else if c == '\'' {
            sh_read_from(t, i + 1, true, true, cur, words)
        } else if c == '\\' {
            if i + 1 < t.len() {
                if t[i + 1] == '\n' {
                    sh_read_from(t, i + 2, false, started, cur, words)
                } else {
                    sh_read_from(t, i + 2, false, true, cur.push(t[i + 1]), words)
                }
            } else {
                None
            }
        } else if is_shell_special(c) {
            None
        } else {
            sh_read_from(t, i + 1, false, true, cur.push(c), words)
        }
    }
}

/// The words POSIX `sh` reads from `t` (see [`sh_read_from`]).
pub open spec fn sh_words(t: Seq<char>) -> Option<Seq<Seq<char>>> {
    sh_read_from(t, 0, false, false, seq![], seq![])
}

/// Inside single quotes, `sh` reads the escaped text of `u` back as `u`.
proof fn lemma_sh_read_escaped(w: Seq<char>, pos: int, u: Seq<char>, cur: Seq<char>, words: Seq<Seq<char>>)
    requires
        0 <= pos,
        pos + escape_quotes(u).len() < w.len(),
        w.subrange(pos, pos + escape_quotes(u).len()) == escape_quotes(u),
    ensures
        sh_read_from(w, pos, true, true, cur, words) == sh_read_from(
            w,
            pos + escape_quotes(u).len(),
            true,
            true,
            cur + u,
            words,
        ),
    decreases u.len(),
{
    if u.len() == 0 {
        assert(cur + u =~= cur);
    } else {
        let v = u.drop_last();
        let c = u.last();
        assert(v.push(c) =~= u);
        lemma_escape_push(v, c);
        let ev = escape_quotes(v);
        let m = pos + ev.len();
        assert(w.subrange(pos, m) =~= escape_quotes(u).subrange(0, ev.len() as int));
        assert(escape_quotes(u).subrange(0, ev.len() as int) =~= ev);
        lemma_sh_read_escaped(w, pos, v, cur, words);
        let wu = w.subrange(pos, pos + escape_quotes(u).len());
        let cv = cur + v;
        if c == '\'' {
            assert(w[m] == wu[ev.len() as int]);
            assert(w[m + 1] == wu[ev.len() as int + 1]);
            assert(w[m + 2] == wu[ev.len() as int + 2]);
            assert(w[m + 3] == wu[ev.len() as int + 3]);
            assert(w[m] == '\'' && w[m + 1] == '\\' && w[m + 2] == '\'' && w[m + 3] == '\'');
            assert(sh_read_from(w, m, true, true, cv, words) == sh_read_from(w, m + 1, false, true, cv, words));
            assert(sh_read_from(w, m + 1, false, true, cv, words) == sh_read_from(w, m + 3, false, true, cv.push('\''), words));
            assert(sh_read_from(w, m + 3, false, true, cv.push('\''), words) == sh_read_from(w, m + 4, true, true, cv.push('\''), words));
            assert(cv.push('\'') =~= cur + u);
        } else {
            assert(w[m] == wu[ev.len() as int]);
            assert(w[m] == c);
            assert(sh_read_from(w, m, true, true, cv, words) == sh_read_from(w, m + 1, true, true, cv.push(c), words));
            assert(cv.push(c) =~= cur + u);
        }
    }
}

/// Without special characters, `sh` reads a begun word through to the end.
proof fn lemma_sh_read_plain(s: Seq<char>, i: int)
    requires
        1 <= i <= s.len(),
        forall|k: int| 0 <= k < s.len() ==> !is_shell_special(#[trigger] s[k]),
    ensures
        sh_read_from(s, i, false, true, s.take(i), seq![]) == sh_read_from(s, s.len() as int, false, true, s, seq![]),
    decreases s.len() - i,
{
    if i < s.len() {
        assert(!is_shell_special(s[i]));
        assert(s.take(i).push(s[i]) =~= s.take(i + 1));
        lemma_sh_read_plain(s, i + 1);
    } else {
        assert(s.take(i) =~= s);
    }
}

/// Whatever a non-empty word holds, POSIX `sh` reads [`shell_quote`]'s
/// text of it as exactly that one word.
pub proof fn law_quote_reads_as_one_sh_word(s: Seq<char>)
    requires
        s.len() > 0,
    ensures
        sh_words(shell_quoted(s)) == Some(seq![s]),
{
    if exists|i: int| 0 <= i < s.len() && is_shell_special(#[trigger] s[i]) {
        let e = escape_quotes(s);
        let q = seq!['\''] + e + seq!['\''];
        assert(shell_quoted(s) == q);
        assert(q.subrange(1, 1 + e.len() as int) =~= e);
        assert(q[0] == '\'');
        assert(sh_read_from(q, 0, false, false, seq![], seq![]) == sh_read_from(q, 1, true, true, seq![], seq![]));
        lemma_sh_read_escaped(q, 1, s, seq![], seq![]);
        assert(seq![] + s =~= s);
        assert(q.len() == 2 + e.len());
        assert(q[1 + e.len() as int] == '\'');
        assert(sh_read_from(q, 1 + e.len() as int, true, true, s, seq![]) == sh_read_from(q, 2 + e.len() as int, false, true, s, seq![]));
        assert(seq![].push(s) =~= seq![s]);
    } else {
        assert(shell_quoted(s) == s);
        assert(!is_shell_special(s[0]));
        assert(seq![].push(s[0]) =~= s.take(1));
        assert(sh_read_from(s, 0, false, false, seq![], seq![]) == sh_read_from(s, 1, false, true, s.take(1), seq![]));
        lemma_sh_read_plain(s, 1);
        assert(seq![].push(s) =~= seq![s]);
    }
}

// ── mountinfo ────────────────────────────────────────────────────────────

/// The byte `b` as the character of the same number (Latin-1).
pub open spec fn byte_char(b: u8) -> char {
    (b as u32) as char
}

/// Decoding of `bytes[i..]` into `out`: a backslash followed by at least
/// three more bytes whose next three bytes read as an octal number up to 255
/// (an optional `+` allowed) stands for that character; any other byte
/// stands for itself.
pub open spec fn mount_decode_from(bytes: Seq<u8>, i: int) -> Seq<char>
    decreases bytes.len() - i,
{
    if i < 0 || i >= bytes.len() {
        seq![]
    } else if bytes[i] == 92u8 && i + 3 < bytes.len() && parse_unsigned(
        bytes.subrange(i + 1, i + 4).map_values(|b: u8| byte_char(b)),
        8,
        255,
    ) is Some {
        seq![
            (parse_unsigned(
                bytes.subrange(i + 1, i + 4).map_values(|b: u8| byte_char(b)),
                8,
                255,
            )->0 as u32) as char,
        ] + mount_decode_from(bytes, i + 4)
    } else {
        seq![byte_char(bytes[i])] + mount_decode_from(bytes, i + 1)
    }
}

/// The decoding of a `mountinfo` field given as bytes.
pub open spec fn mount_decode(bytes: Seq<u8>) -> Seq<char> {
    mount_decode_from(bytes, 0)
}

/// The byte slicing of the decoder stays on character boundaries: every
/// backslash with three more bytes after it is followed, four bytes on, by
/// the end or by the first byte of a character.
pub open spec fn mount_field_sliceable(bytes: Seq<u8>) -> bool {
    forall|i: int|
        0 <= i && i + 4 < bytes.len() && #[trigger] bytes[i] == 92u8 ==> !is_continuation_byte(
            bytes[i + 4],
        )
}

/// Decodes the octal escapes (`\040` for a space) of a `mountinfo` field.
pub fn decode_mount_field(s: &str) -> (r: String)
    requires
        mount_field_sliceable(encode_utf8(s@)),
    ensures
        r@ == mount_decode(encode_utf8(s@)),
{
    let b = s.as_bytes();
    let mut out: Vec<char> = Vec::new();
    let mut i: usize = 0;
    assert(out@ + mount_decode_from(b@, 0) =~= mount_decode(b@));
    while i < b.len()
        invariant
            i <= b.len(),
            out@ + mount_decode_from(b@, i as int) == mount_decode(b@),
        decreases b.len() - i,
    {
        let ghost o = out@;
        if b[i] == 92u8 && b.len() - i > 3 {
            let mut oct: Vec<char> = Vec::new();
            oct.push(b[i + 1] as char);
            oct.push(b[i + 2] as char);
            oct.push(b[i + 3] as char);
            assert(oct@ =~= b@.subrange(i + 1, i + 4).map_values(|x: u8| byte_char(x)));
            match parse_radix(&oct, 8, 255) {
                Some(v) => {
                    out.push((v as u8) as char);
                    assert(out@ + mount_decode_from(b@, i + 4) =~= o + mount_decode_from(
                        b@,
                        i as int,
                    ));
                    i += 4;
                    continue ;
                },
                None => {},
            }
        }
        out.push(b[i] as char);
        assert(out@ + mount_decode_from(b@, i + 1) =~= o + mount_decode_from(b@, i as int));
        i += 1;
    }
    assert(out@ =~= mount_decode(b@));
    string_of(&out)
}

// ── Finding a run of characters ─────────────────────────────────────────

/// Index of the first occurrence of `needle` in `hay` at or after `i`, or -1.
pub open spec fn find_run_from(hay: Seq<char>, needle: Seq<char>, i: int) -> int
    decreases hay.len() + 1 - i,
{
    if i < 0 || i + needle.len() > hay.len() {
        -1
    } else if hay.subrange(i, i + needle.len()) == needle {
        i
    } else {
        find_run_from(hay, needle, i + 1)
    }
}

/// Index of the first occurrence of `needle` in `hay`, or -1 (`str::find`).
pub open spec fn find_run(hay: Seq<char>, needle: Seq<char>) -> int {
    find_run_from(hay, needle, 0)
}

/// Executable form of [`find_run`].
pub fn find_sub(hay: &[char], needle: &[char]) -> (r: Option<usize>)
    ensures
        match r {
            Some(i) => find_run(hay@, needle@) == i && i + needle@.len() <= hay@.len(),
            None => find_run(hay@, needle@) == -1,
        },
{
    let mut i: usize = 0;
    while i <= hay.len() && needle.len() <= hay.len() - i
        invariant
            find_run(hay@, needle@) == find_run_from(hay@, needle@, i as int),
        decreases hay.len() + 1 - i,
    {
        let mut j: usize = 0;
        let mut ok = true;
        while j < needle.len()
            invariant_except_break
                ok,
            invariant
                i + needle@.len() <= hay@.len(),
                i + needle.len() <= hay.len(),
                j <= needle.len(),
                forall|k: int| 0 <= k < j ==> hay@[i + k] == needle@[k],
            ensures
                ok ==> j == needle.len() && forall|k: int| 0 <= k < j ==> hay@[i + k] == needle@[k],
                !ok ==> hay@.subrange(i as int, i + needle@.len()) != needle@ && needle.len() > 0,
            decreases needle.len() - j,
        {
            if hay[i + j] != needle[j] {
                assert(hay@.subrange(i as int, i + needle@.len())[j as int] != needle@[j as int]);
                ok = false;
                break;
            }
            j += 1;
        }
        if ok {
            assert(hay@.subrange(i as int, i + needle@.len()) =~= needle@);
            return Some(i);
        }
        i += 1;
    }
    None
}

// ── mountinfo lines and mount selection ──────────────────────────────────

/// The (mount point, source, file system type) of a `mountinfo` line: the
/// fields before ` - ` give the mount point (the fifth), those after give the
/// type (the first) and the source (the second); `None` when a part is
/// missing.
pub open spec fn mountinfo_entry(line: Seq<char>) -> Option<(Seq<char>, Seq<char>, Seq<char>)> {
    let k = find_run(line, " - "@);
    if k < 0 {
        None
    } else {
        let lw = words(line.take(k));
        let rw = words(line.skip(k + 3));
        if lw.len() < 5 || rw.len() < 2 {
            None
        } else {
            Some((mount_decode(encode_utf8(lw[4])), mount_decode(encode_utf8(rw[1])), rw[0]))
        }
    }
}

/// The fields that the line reader decodes can be decoded without a panic.
pub open spec fn mountinfo_line_sliceable(line: Seq<char>) -> bool {
    let k = find_run(line, " - "@);
    let lw = words(line.take(k));
    let rw = words(line.skip(k + 3));
    k >= 0 && lw.len() >= 5 && rw.len() >= 2 ==> mount_field_sliceable(encode_utf8(lw[4]))
        && mount_field_sliceable(encode_utf8(rw[1]))
}

/// Parses one line of `/proc/self/mountinfo`.
pub fn parse_mountinfo_line(line: &str) -> (r: Option<(String, String, String)>)
    requires
        mountinfo_line_sliceable(line@),
    ensures
        match mountinfo_entry(line@) {
            Some(e) => r matches Some(v) && v.0@ == e.0 && v.1@ == e.1 && v.2@ == e.2,
            None => r is None,
        },
{
    let c = chars_of(line);
    let sep = chars_of(" - ");
    proof {
        reveal_strlit(" - ");
    }
    let k = match find_sub(&c, &sep) {
        Some(k) => k,
        None => return None,
    };
    assert(k + 3 <= c.len());
    let left = crate::text::slice_chars(&c, 0, k);
    let right = crate::text::slice_chars(&c, k + 3, c.len());
    assert(left@ =~= c@.take(k as int));
    assert(right@ =~= c@.skip(k + 3));
    let lw = split_words(&left);
    let rw = split_words(&right);
    if lw.len() < 5 || rw.len() < 2 {
        return None;
    }
    assert(views(lw@)[4] == lw@[4]@);
    assert(views(rw@)[0] == rw@[0]@);
    assert(views(rw@)[1] == rw@[1]@);
    let mp_s = string_of(&lw[4]);
    let src_s = string_of(&rw[1]);
    let mount_point = decode_mount_field(mp_s.as_str());
    let fstype = string_of(&rw[0]);
    let source = decode_mount_field(src_s.as_str());
    Some((mount_point, source, fstype))
}

/// Whether `seg` is a path segment that `Path::components` keeps.
pub open spec fn kept_segment(seg: Seq<char>) -> bool {
    seg.len() > 0 && seg != "."@
}

/// The kept segments of `segs`, in order.
pub open spec fn kept_segments(segs: Seq<Seq<char>>) -> Seq<Seq<char>>
    decreases segs.len(),
{
    if segs.len() == 0 {
        seq![]
    } else if kept_segment(segs.last()) {
        kept_segments(segs.drop_last()).push(segs.last())
    } else {
        kept_segments(segs.drop_last())
    }
}

/// The components of a Unix path (`Path::components`): the root as `/`, a
/// leading `.` of a relative path as `.`, then the non-empty segments
/// between slashes other than `.`.
pub open spec fn path_components(p: Seq<char>) -> Seq<Seq<char>> {
    let root = p.len() > 0 && p[0] == '/';
    let cur = !root && p.len() > 0 && p[0] == '.' && (p.len() == 1 || p[1] == '/');
    (if root {
        seq!["/"@]
    } else {
        seq![]
    }) + (if cur {
        seq!["."@]
    } else {
        seq![]
    }) + kept_segments(split_on(p, '/'))
}

/// Whether path `p` starts with path `base`, component by component
/// (`Path::starts_with`).
pub open spec fn path_starts_with(p: Seq<char>, base: Seq<char>) -> bool {
    let a = path_components(p);
    let b = path_components(base);
    b.len() <= a.len() && a.take(b.len() as int) == b
}

/// The components of a path.
pub fn components(p: &[char]) -> (r: Vec<Vec<char>>)
    ensures
        views(r@) == path_components(p@),
{
    let mut out: Vec<Vec<char>> = Vec::new();
    let root = p.len() > 0 && p[0] == '/';
    if root {
        out.push(chars_of("/"));
    }
    if !root && p.len() > 0 && p[0] == '.' && (p.len() == 1 || p[1] == '/') {
        out.push(chars_of("."));
    }
    let ghost head = views(out@);
    let segs = split_char(p, '/');
    let mut i: usize = 0;
    let dot = chars_of(".");
    while i < segs.len()
        invariant
            i <= segs.len(),
            dot@ == "."@,
            views(out@) == head + kept_segments(views(segs@).take(i as int)),
        decreases segs.len() - i,
    {
        assert(views(segs@).take(i + 1).drop_last() =~= views(segs@).take(i as int));
        assert(views(segs@).take(i + 1).last() == segs@[i as int]@);
        if segs[i].len() > 0 && !crate::text::chars_eq(&segs[i], &dot) {
            let ghost before = views(out@);
            out.push(copy_chars(&segs[i]));
            assert(views(out@) =~= before.push(segs@[i as int]@));
        }
        i += 1;
    }
    assert(views(segs@).take(segs.len() as int) =~= views(segs@));
    assert(views(out@) =~= path_components(p@));
    out
}

/// Whether the components `b` are a prefix of the components `a`.
fn components_prefix(a: &Vec<Vec<char>>, b: &Vec<Vec<char>>) -> (r: bool)
    ensures
        r == (views(b@).len() <= views(a@).len() && views(a@).take(views(b@).len() as int)
            == views(b@)),
{
    if b.len() > a.len() {
        return false;
    }
    let mut i: usize = 0;
    while i < b.len()
        invariant
            b.len() <= a.len(),
            i <= b.len(),
            forall|k: int| 0 <= k < i ==> views(a@)[k] == views(b@)[k],
        decreases b.len() - i,
    {
        if !crate::text::chars_eq(&a[i], &b[i]) {
            assert(views(a@).take(b.len() as int)[i as int] != views(b@)[i as int]);
            return false;
        }
        i += 1;
    }
    assert(views(a@).take(b.len() as int) =~= views(b@));
    true
}

/// Executable form of [`path_starts_with`].
pub fn path_starts_with_exec(p: &[char], base: &[char]) -> (r: bool)
    ensures
        r == path_starts_with(p@, base@),
{
    let a = components(p);
    let b = components(base);
    components_prefix(&a, &b)
}

/// The mount whose point is the deepest ancestor of `canon` among the
/// `mountinfo` lines `ls`; among equally deep ones the last.
pub open spec fn best_mount(ls: Seq<Seq<char>>, canon: Seq<char>) -> Option<
    (Seq<char>, Seq<char>, Seq<char>),
>
    decreases ls.len(),
{
    if ls.len() == 0 {
        None
    } else {
        let best = best_mount(ls.drop_last(), canon);
        match mountinfo_entry(ls.last()) {
            Some(m) => if path_starts_with(canon, m.0) && match best {
                Some(b) => path_components(m.0).len() >= path_components(b.0).len(),
                None => true,
            } {
                Some(m)
            } else {
                best
            },
            None => best,
        }
    }
}

/// The volume label of a path: `source (fstype)` of its mount, just the
/// source when one of the two is empty, empty when no mount matches.
pub open spec fn volume_label(canon: Seq<char>, mountinfo: Seq<char>) -> Seq<char> {
    match best_mount(lines(mountinfo), canon) {
        Some(m) => if m.1.len() > 0 && m.2.len() > 0 {
            m.1 + " ("@ + m.2 + ")"@
        } else {
            m.1
        },
        None => seq![],
    }
}

/// Every line of `mountinfo` can be read without a panic.
pub open spec fn mountinfo_sliceable(mountinfo: Seq<char>) -> bool {
    forall|i: int|
        0 <= i < lines(mountinfo).len() ==> mountinfo_line_sliceable(#[trigger] lines(mountinfo)[i])
}

/// The volume label of the canonical path `canon` from the text of
/// `/proc/self/mountinfo`.
pub fn volume_info(canon: &str, mountinfo: &str) -> (r: String)
    requires
        mountinfo_sliceable(mountinfo@),
    ensures
        r@ == volume_label(canon@, mountinfo@),
{
    let cc = chars_of(canon);
    let c = chars_of(mountinfo);
    let ls = split_lines(&c);
    let mut best: Option<(String, String, String)> = None;
    let mut best_depth: usize = 0;
    let mut i: usize = 0;
    while i < ls.len()
        invariant
            i <= ls.len(),
            cc@ == canon@,
            views(ls@) == lines(mountinfo@),
            mountinfo_sliceable(mountinfo@),
            match best_mount(views(ls@).take(i as int), canon@) {
                Some(m) => best matches Some(b) && b.0@ == m.0 && b.1@ == m.1 && b.2@ == m.2
                    && best_depth == path_components(m.0).len(),
                None => best is None,
            },
        decreases ls.len() - i,
    {
        assert(views(ls@).take(i + 1).drop_last() =~= views(ls@).take(i as int));
        assert(views(ls@).take(i + 1).last() == ls@[i as int]@);
        assert(views(ls@)[i as int] == ls@[i as int]@);
        let line_s = string_of(&ls[i]);
        match parse_mountinfo_line(line_s.as_str()) {
            Some(m) => {
                let mp = chars_of(m.0.as_str());
                let mc = components(&mp);
                let cc_comp = components(&cc);
                if components_prefix(&cc_comp, &mc) {
                    let depth = mc.len();
                    let take = match &best {
                        None => true,
                        Some(_) => depth >= best_depth,
                    };
                    if take {
                        best = Some(m);
                        best_depth = depth;
                    }
                }
            },
            None => {},
        }
        i += 1;
    }
    assert(views(ls@).take(ls.len() as int) =~= views(ls@));
    match best {
        Some((_, source, fstype)) => {
            if source.as_str().unicode_len() > 0 && fstype.as_str().unicode_len() > 0 {
                let mut out = chars_of(source.as_str());
                let open = chars_of(" (");
                push_all(&mut out, &open);
                let fv = chars_of(fstype.as_str());
                push_all(&mut out, &fv);
                let close = chars_of(")");
                push_all(&mut out, &close);
                string_of(&out)
            } else {
                source
            }
        },
        None => String::new(),
    }
}

// ── git output ───────────────────────────────────────────────────────────

/// The message of a failed `git` command: its trimmed standard error, or
/// `git error` when that is empty.
pub open spec fn git_error_text(stderr: Seq<char>) -> Seq<char> {
    if trim(stderr).len() == 0 {
        "git error"@
    } else {
        trim(stderr)
    }
}

/// The message reported for a failed `git` command.
pub fn git_error_message(stderr: &str) -> (r: String)
    ensures
        r@ == git_error_text(stderr@),
{
    let c = chars_of(stderr);
    let t = trim_chars(&c);
    if t.len() == 0 {
        string_of(&chars_of("git error"))
    } else {
        string_of(&t)
    }
}

/// The branch name printed by `git rev-parse --abbrev-ref HEAD`: the trimmed
/// output, none when it is empty.
pub fn branch_from_output(stdout: &str) -> (r: Option<String>)
    ensures
        trim(stdout@).len() == 0 ==> r is None,
        trim(stdout@).len() > 0 ==> (r matches Some(b) && b@ == trim(stdout@)),
{
    let c = chars_of(stdout);
    let t = trim_chars(&c);
    if t.len() == 0 {
        None
    } else {
        Some(string_of(&t))
    }
}

/// A commit count printed by `git rev-list --count`: the trimmed output as a
/// `u32`, 0 when it does not parse.
pub fn count_from_output(stdout: &str) -> (r: u32)
    ensures
        r as nat == match parse_unsigned(trim(stdout@), 10, u32::MAX as nat) {
            Some(v) => v,
            None => 0,
        },
{
    let c = chars_of(stdout);
    let t = trim_chars(&c);
    match parse_radix(&t, 10, u32::MAX as u64) {
        Some(v) => v as u32,
        None => 0,
    }
}

/// Why `git push` cannot start.
#[derive(Clone, Copy, Debug, PartialEq, Eq, Structural)]
pub enum PushError {
    /// `HEAD` does not name a branch.
    DetachedHead,
}

impl PushError {
    /// The message shown for the error.
    pub fn message(&self) -> (r: &'static str)
        ensures
            r@ == "HEAD がブランチを指していません (detached HEAD)"@,
    {
        match self {
            PushError::DetachedHead => "HEAD がブランチを指していません (detached HEAD)",
        }
    }
}

/// The branch to push from the output of `git branch --show-current`: the
/// trimmed output, an error when it is empty.
pub fn push_branch(stdout: &str) -> (r: Result<String, PushError>)
    ensures
        trim(stdout@).len() == 0 ==> r == Err::<String, PushError>(PushError::DetachedHead),
        trim(stdout@).len() > 0 ==> (r matches Ok(b) && b@ == trim(stdout@)),
{
    match branch_from_output(stdout) {
        Some(b) => Ok(b),
        None => Err(PushError::DetachedHead),
    }
}

/// The arguments of `git stash push`: with `-m msg` unless the message is
/// blank.
pub open spec fn stash_push_argv(msg: Seq<char>) -> Seq<Seq<char>> {
    if is_blank(msg) {
        seq!["stash"@, "push"@]
    } else {
        seq!["stash"@, "push"@, "-m"@, msg]
    }
}

/// The arguments of `git stash push` for a stash message.
pub fn git_stash_push(msg: &str) -> (r: Vec<String>)
    ensures
        string_views(r@) == stash_push_argv(msg@),
{
    let c = chars_of(msg);
    let mut v: Vec<String> = Vec::new();
    v.push(string_of(&chars_of("stash")));
    v.push(string_of(&chars_of("push")));
    if !crate::text::blank(&c) {
        v.push(string_of(&chars_of("-m")));
        v.push(string_of(&c));
    }
    assert(string_views(v@) =~= stash_push_argv(msg@));
    v
}

fn words_argv(a: &str, b: &str) -> (r: Vec<String>)
    ensures
        string_views(r@) == seq![a@, b@],
{
    let mut v: Vec<String> = Vec::new();
    v.push(string_of(&chars_of(a)));
    v.push(string_of(&chars_of(b)));
    assert(string_views(v@) =~= seq![a@, b@]);
    v
}

/// The arguments of `git fetch origin`.
pub fn git_fetch() -> (r: Vec<String>)
    ensures
        string_views(r@) == seq!["fetch"@, "origin"@],
{
    words_argv("fetch", "origin")
}

/// The arguments of `git pull --rebase` (fetch, then replay local commits
/// on top of the fetched branch).
pub fn git_pull() -> (r: Vec<String>)
    ensures
        string_views(r@) == seq!["pull"@, "--rebase"@],
{
    words_argv("pull", "--rebase")
}

/// The arguments of `git stash pop`.
pub fn git_stash_pop() -> (r: Vec<String>)
    ensures
        string_views(r@) == seq!["stash"@, "pop"@],
{
    words_argv("stash", "pop")
}

/// The arguments of `git push origin <branch>`, the branch being the output
/// of `git branch --show-current` (trimmed); an error on a detached `HEAD`.
pub fn git_push(show_current: &str) -> (r: Result<Vec<String>, PushError>)
    ensures
        trim(show_current@).len() == 0 ==> r == Err::<Vec<String>, PushError>(PushError::DetachedHead),
        trim(show_current@).len() > 0 ==> (r matches Ok(v) && string_views(v@) == seq![
            "push"@,
            "origin"@,
            trim(show_current@),
        ]),
{
    match push_branch(show_current) {
        Ok(b) => {
            let mut v = words_argv("push", "origin");
            let ghost before = string_views(v@);
            v.push(b);
            assert(string_views(v@) =~= before.push(trim(show_current@)));
            Ok(v)
        },
        Err(e) => Err(e),
    }
}

/// `s` without any leading or trailing `"` (`trim_matches('"')`).
pub open spec fn trim_quotes(s: Seq<char>) -> Seq<char>
    decreases s.len(),
{
    if s.len() > 0 && s[0] == '"' {
        trim_quotes(s.drop_first())
    } else if s.len() > 0 && s.last() == '"' {
        trim_quotes(s.drop_last())
    } else {
        s
    }
}

fn trim_quotes_exec(s: &[char]) -> (r: Vec<char>)
    ensures
        r@ == trim_quotes(s@),
{
    let mut a: usize = 0;
    let mut b: usize = s.len();
    assert(s@.subrange(0, s@.len() as int) =~= s@);
    while a < b && (s[a] == '"' || s[b - 1] == '"')
        invariant
            a <= b <= s.len(),
            trim_quotes(s@) == trim_quotes(s@.subrange(a as int, b as int)),
        decreases b - a,
    {
        let ghost t = s@.subrange(a as int, b as int);
        if s[a] == '"' {
            assert(t.drop_first() =~= s@.subrange(a + 1, b as int));
            a += 1;
        } else {
            assert(t.drop_last() =~= s@.subrange(a as int, b - 1));
            b -= 1;
        }
    }
    crate::text::slice_chars(s, a, b)
}

/// The number of bytes of `c` in UTF-8.
pub open spec fn utf8_len(c: char) -> nat {
    if (c as u32) < 0x80 {
        1
    } else if (c as u32) < 0x800 {
        2
    } else if (c as u32) < 0x10000 {
        3
    } else {
        4
    }
}

/// The number of bytes of `s` in UTF-8 (`str::len`).
pub open spec fn byte_len(s: Seq<char>) -> nat
    decreases s.len(),
{
    if s.len() == 0 {
        0
    } else {
        byte_len(s.drop_last()) + utf8_len(s.last())
    }
}

/// The number of characters that make up the first three bytes of `s`,
/// when byte 3 falls between two characters (`is_char_boundary(3)`).
pub open spec fn cut3(s: Seq<char>) -> Option<int> {
    if s.len() >= 1 && byte_len(s.take(1)) == 3 {
        Some(1)
    } else if s.len() >= 2 && byte_len(s.take(2)) == 3 {
        Some(2)
    } else if s.len() >= 3 && byte_len(s.take(3)) == 3 {
        Some(3)
    } else {
        None
    }
}

/// The status letter of a porcelain line: `?` for untracked, else the
/// index letter, else the work-tree letter (a space when both are).
pub open spec fn porcelain_letter(line: Seq<char>) -> char {
    let x = line[0];
    let y = if line.len() >= 2 { line[1] } else { ' ' };
    if x == '?' {
        '?'
    } else if x != ' ' {
        x
    } else {
        y
    }
}

/// The entry of one `git status --porcelain` line: the top-level name below
/// the listed directory and its status letter (see [`porcelain_letter`]);
/// none for lines shorter than three bytes, for clean lines and for paths
/// outside `prefix`. The path starts after the third byte.
pub open spec fn porcelain_entry(line: Seq<char>, prefix: Option<Seq<char>>) -> Option<
    (Seq<char>, char),
> {
    if byte_len(line) < 3 {
        None
    } else {
        let ch = porcelain_letter(line);
        let name0 = trim_quotes(line.skip(cut3(line)->Some_0));
        let k = find_run(name0, " -> "@);
        let name1 = if k >= 0 {
            name0.skip(k + 4)
        } else {
            name0
        };
        if ch == ' ' {
            None
        } else {
            match prefix {
                Some(p) => if has_prefix(name1, p) {
                    Some((split_on(name1.skip(p.len() as int), '/')[0], ch))
                } else {
                    None
                },
                None => Some((split_on(name1, '/')[0], ch)),
            }
        }
    }
}

/// The status map built from porcelain lines: later lines win.
pub open spec fn status_map(ls: Seq<Seq<char>>, prefix: Option<Seq<char>>) -> Map<Seq<char>, char>
    decreases ls.len(),
{
    if ls.len() == 0 {
        Map::empty()
    } else {
        let m = status_map(ls.drop_last(), prefix);
        match porcelain_entry(ls.last(), prefix) {
            Some(e) => m.insert(e.0, e.1),
            None => m,
        }
    }
}

/// The porcelain lines can be read: every line of three bytes or more that
/// is not clean has a character boundary at byte 3, where the path is cut
/// off (`line[3..]` panics otherwise).
pub open spec fn porcelain_sliceable(out: Seq<char>) -> bool {
    forall|i: int|
        0 <= i < lines(out).len() && byte_len(#[trigger] lines(out)[i]) >= 3
            && porcelain_letter(lines(out)[i]) != ' ' ==> cut3(lines(out)[i]) is Some
}

proof fn lemma_byte_len_at_least_len(s: Seq<char>)
    ensures
        byte_len(s) >= s.len(),
    decreases s.len(),
{
    if s.len() > 0 {
        lemma_byte_len_at_least_len(s.drop_last());
    }
}

proof fn lemma_byte_len_prefixes(s: Seq<char>)
    ensures
        s.len() >= 1 ==> byte_len(s.take(1)) == utf8_len(s[0]),
        s.len() >= 2 ==> byte_len(s.take(2)) == utf8_len(s[0]) + utf8_len(s[1]),
        s.len() >= 3 ==> byte_len(s.take(3)) == utf8_len(s[0]) + utf8_len(s[1]) + utf8_len(s[2]),
{
    if s.len() >= 1 {
        assert(s.take(1).drop_last() =~= Seq::<char>::empty());
        assert(byte_len(Seq::<char>::empty()) == 0);
        assert(s.take(1).last() == s[0]);
        assert(byte_len(s.take(1)) == utf8_len(s[0]));
    }
    if s.len() >= 2 {
        assert(s.take(2).drop_last() =~= s.take(1));
        assert(s.take(2).last() == s[1]);
        assert(byte_len(s.take(2)) == byte_len(s.take(1)) + utf8_len(s[1]));
        if s.len() >= 3 {
            assert(s.take(3).drop_last() =~= s.take(2));
            assert(s.take(3).last() == s[2]);
            assert(byte_len(s.take(3)) == byte_len(s.take(2)) + utf8_len(s[2]));
        }
    }
}

fn utf8_len_of(c: char) -> (r: usize)
    ensures
        r == utf8_len(c),
{
    let u = c as u32;
    if u < 0x80 {
        1
    } else if u < 0x800 {
        2
    } else if u < 0x10000 {
        3
    } else {
        4
    }
}

/// Whether the line has three bytes or more, and where byte 3 cuts it
/// (see [`cut3`]).
fn line_cut(line: &Vec<char>) -> (r: (bool, Option<usize>))
    ensures
        r.0 == (byte_len(line@) >= 3),
        match cut3(line@) {
            Some(k) => r.1 == Some(k as usize),
            None => r.1 is None,
        },
{
    proof {
        lemma_byte_len_prefixes(line@);
        lemma_byte_len_at_least_len(line@);
        assert(line@.take(line@.len() as int) =~= line@);
    }
    let n = line.len();
    if n == 0 {
        return (false, None);
    }
    let b1 = utf8_len_of(line[0]);
    let c1: Option<usize> = if b1 == 3 { Some(1) } else { None };
    if n == 1 {
        return (b1 >= 3, c1);
    }
    let b2 = b1 + utf8_len_of(line[1]);
    let c2: Option<usize> = if b1 == 3 { Some(1) } else if b2 == 3 { Some(2) } else { None };
    if n == 2 {
        return (b2 >= 3, c2);
    }
    let b3 = b2 + utf8_len_of(line[2]);
    let c3: Option<usize> = if b1 == 3 { Some(1) } else if b2 == 3 { Some(2) } else if b3 == 3 { Some(3) } else { None };
    (true, c3)
}

/// Per-name git status letters of one directory.
pub type GitStatus = NameMap<char>;

/// Reads the output of `git status --porcelain` (run at the repository
/// root) into per-name letters for the directory whose path below the root,
/// with a trailing `/`, is `prefix` (none at the root).
pub fn parse_git_status(porcelain: &str, prefix: Option<&str>) -> (r: GitStatus)
    requires
        porcelain_sliceable(porcelain@),
    ensures
        r.view_map() == status_map(
            lines(porcelain@),
            match prefix {
                Some(p) => Some(p@),
                None => None,
            },
        ),
{
    let ghost pre: Option<Seq<char>> = match prefix {
        Some(p) => Some(p@),
        None => None,
    };
    let pv: Option<Vec<char>> = match prefix {
        Some(p) => Some(chars_of(p)),
        None => None,
    };
    let c = chars_of(porcelain);
    let ls = split_lines(&c);
    let arrow = chars_of(" -> ");
    proof {
        reveal_strlit(" -> ");
    }
    let mut map = GitStatus::new();
    let mut i: usize = 0;
    while i < ls.len()
        invariant
            i <= ls.len(),
            views(ls@) == lines(porcelain@),
            porcelain_sliceable(porcelain@),
            arrow@ == " -> "@,
            arrow@.len() == 4,
            match pv {
                Some(v) => pre == Some(v@),
                None => pre is None,
            },
            map.view_map() == status_map(views(ls@).take(i as int), pre),
        decreases ls.len() - i,
    {
        assert(views(ls@).take(i + 1).drop_last() =~= views(ls@).take(i as int));
        assert(views(ls@).take(i + 1).last() == ls@[i as int]@);
        let line = &ls[i];
        let ghost l = line@;
        let (long, cut) = line_cut(line);
        if long {
            let x = line[0];
            let y = if line.len() >= 2 { line[1] } else { ' ' };
            let ch = if x == '?' {
                '?'
            } else if x != ' ' {
                x
            } else {
                y
            };
            if ch != ' ' {
                assert(porcelain_letter(l) == ch);
                assert(lines(porcelain@)[i as int] == l);
                let k = match cut {
                    Some(k) => k,
                    None => {
                        assert(false);
                        0
                    },
                };
                let rest = crate::text::slice_chars(line, k, line.len());
                assert(rest@ =~= l.skip(k as int));
                let name0 = trim_quotes_exec(&rest);
                let name1 = match find_sub(&name0, &arrow) {
                    Some(k) => {
                        assert(k + 4 <= name0.len());
                        crate::text::slice_chars(&name0, k + 4, name0.len())
                    },
                    None => name0,
                };
                let name2: Option<Vec<char>> = match &pv {
                    Some(p) => {
                        if starts_with(&name1, p) {
                            Some(crate::text::slice_chars(&name1, p.len(), name1.len()))
                        } else {
                            None
                        }
                    },
                    None => Some(name1),
                };
                match name2 {
                    Some(n) => {
                        let parts = split_char(&n, '/');
                        assert(views(parts@)[0] == parts@[0]@);
                        map.insert(string_of(&parts[0]), ch);
                    },
                    None => {},
                }
            }
        }
        i += 1;
    }
    assert(views(ls@).take(ls.len() as int) =~= views(ls@));
    map
}

// ── Directory tree listings ──────────────────────────────────────────────

/// Whether a directory entry is shown: hidden names (leading `.`) only when
/// `show_hidden` holds.
pub open spec fn shown(name: Seq<char>, show_hidden: bool) -> bool {
    show_hidden || !(name.len() > 0 && name[0] == '.')
}

/// Whether some shown entry of a listing (name, is-directory pairs) is a
/// directory (`tree_has_children`).
pub fn has_visible_subdir(entries: &Vec<(String, bool)>, show_hidden: bool) -> (r: bool)
    ensures
        r == exists|i: int|
            0 <= i < entries@.len() && #[trigger] entries@[i].1 && shown(
                entries@[i].0@,
                show_hidden,
            ),
{
    let mut i: usize = 0;
    while i < entries.len()
        invariant
            i <= entries.len(),
            forall|k: int|
                0 <= k < i ==> !(#[trigger] entries@[k].1 && shown(entries@[k].0@, show_hidden)),
        decreases entries.len() - i,
    {
        let n = chars_of(entries[i].0.as_str());
        let hidden = n.len() > 0 && n[0] == '.';
        if entries[i].1 && (show_hidden || !hidden) {
            assert(entries@[i as int].1 && shown(entries@[i as int].0@, show_hidden));
            return true;
        }
        i += 1;
    }
    false
}

/// The shown subdirectory names of a listing, in listing order.
pub open spec fn shown_dirs(entries: Seq<(String, bool)>, show_hidden: bool) -> Seq<String>
    decreases entries.len(),
{
    if entries.len() == 0 {
        seq![]
    } else if entries.last().1 && shown(entries.last().0@, show_hidden) {
        shown_dirs(entries.drop_last(), show_hidden).push(entries.last().0)
    } else {
        shown_dirs(entries.drop_last(), show_hidden)
    }
}

/// Sort keys that order names by their lowercase form.
pub open spec fn lower_name_keys(names: Seq<String>) -> Seq<crate::order::KeyView> {
    names.map_values(|n: String| (crate::text::lowercase(n@), seq![], 0nat))
}

/// The subdirectory names shown in the tree below a directory
/// (`tree_list_subdirs`): shown directories, sorted by lowercase name
/// (stable).
pub fn tree_subdirs(entries: Vec<(String, bool)>, show_hidden: bool) -> (r: Vec<String>)
    ensures
        crate::order::is_stable_sort_of(
            r@,
            shown_dirs(entries@, show_hidden),
            lower_name_keys(shown_dirs(entries@, show_hidden)),
            false,
        ),
{
    let ghost e0 = entries@;
    let mut entries = entries;
    let mut names: Vec<String> = Vec::new();
    let mut keys: Vec<crate::order::SortKey> = Vec::new();
    let n = entries.len();
    let mut i: usize = 0;
    while entries.len() > 0
        invariant
            n == e0.len(),
            entries@ == e0.skip(i as int),
            i + entries@.len() == n,
            names@ == shown_dirs(e0.take(i as int), show_hidden),
            crate::order::kvs(keys@) == lower_name_keys(names@),
        decreases entries@.len(),
    {
        let (name, is_dir) = entries.remove(0);
        assert(e0.take(i + 1).drop_last() =~= e0.take(i as int));
        assert(e0.take(i + 1).last() == (name, is_dir));
        let nv = chars_of(name.as_str());
        let hidden = nv.len() > 0 && nv[0] == '.';
        if is_dir && (show_hidden || !hidden) {
            let ghost old_names = names@;
            let ghost old_keys = crate::order::kvs(keys@);
            let low = crate::text::to_lowercase(&nv);
            names.push(name);
            keys.push(crate::order::SortKey { major: low, minor: Vec::new(), num: 0 });
            assert(crate::order::kvs(keys@) =~= lower_name_keys(names@)) by {
                assert(crate::order::kvs(keys@) =~= old_keys.push(
                    (crate::text::lowercase(nv@), seq![], 0nat),
                ));
                assert(lower_name_keys(names@) =~= lower_name_keys(old_names).push(
                    (crate::text::lowercase(nv@), seq![], 0nat),
                ));
            }
        }
        i += 1;
        assert(entries@ =~= e0.skip(i as int));
    }
    assert(e0.take(n as int) =~= e0);
    crate::order::stable_sort_by_keys(names, keys, false)
}


proof fn lemma_no_arrow_before(rest: Seq<char>, a: Seq<char>, i: int)
    requires
        0 <= i <= a.len(),
        rest.len() >= a.len() + 4,
        rest.subrange(a.len() as int, a.len() as int + 4) == " -> "@,
        " -> "@.len() == 4,
        " -> "@[0] == ' ',
        forall|k: int| 0 <= k < a.len() ==> rest[k] == a[k] && a[k] != ' ',
    ensures
        find_run_from(rest, " -> "@, i) == a.len(),
    decreases a.len() - i,
{
    if i < a.len() {
        assert(rest.subrange(i, i + 4)[0] == rest[i]);
        assert(rest.subrange(i, i + 4) != " -> "@);
        lemma_no_arrow_before(rest, a, i + 1);
    }
}

proof fn lemma_split_no_sep(b: Seq<char>, sep: char, i: int)
    requires
        0 <= i <= b.len(),
        forall|k: int| 0 <= k < b.len() ==> b[k] != sep,
    ensures
        crate::text::split_from(b, sep, i, b.take(i)) == seq![b],
    decreases b.len() - i,
{
    if i < b.len() {
        assert(b.take(i).push(b[i]) =~= b.take(i + 1));
        lemma_split_no_sep(b, sep, i + 1);
    } else {
        assert(b.take(i) =~= b);
    }
}

/// A rename line of `git status --porcelain` (`XY old -> new`) marks the
/// file under its new name, the path after ` -> `, with the line's letter;
/// the old name, which is gone from the directory, gets no mark.
pub proof fn law_rename_marks_destination(x: char, a: Seq<char>, b: Seq<char>)
    requires
        x != ' ',
        (x as u32) < 0x80,
        forall|k: int| 0 <= k < a.len() ==> a[k] != ' ' && a[k] != '"',
        b.len() > 0,
        forall|k: int| 0 <= k < b.len() ==> b[k] != '"' && b[k] != '/',
    ensures
        porcelain_entry(seq![x, ' ', ' '] + a + " -> "@ + b, None) == Some((b, x)),
        status_map(seq![seq![x, ' ', ' '] + a + " -> "@ + b], None) == Map::<Seq<char>, char>::empty().insert(b, x),
{
    reveal_strlit(" -> ");
    let line = seq![x, ' ', ' '] + a + " -> "@ + b;
    lemma_byte_len_at_least_len(line);
    lemma_byte_len_prefixes(line);
    assert(line[0] == x && line[1] == ' ' && line[2] == ' ');
    assert(cut3(line) == Some(3int));
    assert(porcelain_letter(line) == x);
    let rest = a + " -> "@ + b;
    assert(line.skip(3) =~= rest);
    assert(rest.len() > 0);
    assert(rest[0] != '"') by {
        if a.len() > 0 {
            assert(rest[0] == a[0]);
        } else {
            assert(rest[0] == ' ');
        }
    }
    assert(rest.last() == b.last());
    assert(trim_quotes(rest) == rest);
    assert(rest.subrange(a.len() as int, a.len() as int + 4) =~= " -> "@);
    assert forall|k: int| 0 <= k < a.len() implies rest[k] == a[k] && a[k] != ' ' by {}
    lemma_no_arrow_before(rest, a, 0);
    assert(find_run(rest, " -> "@) == a.len());
    assert(rest.skip(a.len() as int + 4) =~= b);
    lemma_split_no_sep(b, '/', 0);
    assert(b.take(0) =~= seq![]);
    assert(split_on(b, '/') == seq![b]);
    assert(porcelain_entry(line, None) == Some((b, x)));
    let ls = seq![line];
    assert(ls.drop_last() =~= Seq::<Seq<char>>::empty());
    assert(ls.last() == line);
    assert(status_map(ls.drop_last(), None) == Map::<Seq<char>, char>::empty());
}

} // verus!
