//! Decimal rendering and radix-8/10 parsing of unsigned and signed integers,
//! with the acceptance rules of `str::parse` and `from_str_radix`.
use vstd::prelude::*;

verus! {

// ── Digits ──────────────────────────────────────────────────────────────

/// The ASCII digit for a value below ten.
pub open spec fn digit_char(d: nat) -> char {
    if d == 0 {
        '0'
    } else if d == 1 {
        '1'
    } else if d == 2 {
        '2'
    } else if d == 3 {
        '3'
    } else if d == 4 {
        '4'
    } else if d == 5 {
        '5'
    } else if d == 6 {
        '6'
    } else if d == 7 {
        '7'
    } else if d == 8 {
        '8'
    } else {
        '9'
    }
}

/// Executable form of [`digit_char`].
pub fn digit_to_char(d: u64) -> (c: char)
    requires
        d < 10,
    ensures
        c == digit_char(d as nat),
{
    if d == 0 {
        '0'
    } else if d == 1 {
        '1'
    } else if d == 2 {
        '2'
    } else if d == 3 {
        '3'
    } else if d == 4 {
        '4'
    } else if d == 5 {
        '5'
    } else if d == 6 {
        '6'
    } else if d == 7 {
        '7'
    } else if d == 8 {
        '8'
    } else {
        '9'
    }
}

/// The decimal rendering of `n`, without sign or padding (`{}`).
pub open spec fn dec(n: nat) -> Seq<char>
    decreases n,
{
    if n < 10 {
        seq![digit_char(n)]
    } else {
        dec(n / 10).push(digit_char(n % 10))
    }
}

/// `s` padded on the left with `fill` up to `width` characters.
pub open spec fn pad_left(s: Seq<char>, width: nat, fill: char) -> Seq<char> {
    if s.len() >= width {
        s
    } else {
        Seq::new((width - s.len()) as nat, |i: int| fill) + s
    }
}

/// The rendering of `n` with at least two digits (`{:02}`).
pub open spec fn dec2(n: nat) -> Seq<char> {
    pad_left(dec(n), 2, '0')
}

/// Appends the decimal rendering of `n` to `out`.
pub fn push_dec(out: &mut Vec<char>, n: u64)
    ensures
        final(out)@ == old(out)@ + dec(n as nat),
    decreases n,
{
    let ghost o = out@;
    if n >= 10 {
        push_dec(out, n / 10);
    }
    out.push(digit_to_char(n % 10));
    if n >= 10 {
        assert(out@ =~= o + dec(n as nat));
    } else {
        assert(out@ =~= o + dec(n as nat));
    }
}

/// The decimal rendering of `n`.
pub fn dec_chars(n: u64) -> (r: Vec<char>)
    ensures
        r@ == dec(n as nat),
{
    let mut r: Vec<char> = Vec::new();
    push_dec(&mut r, n);
    assert(r@ =~= dec(n as nat));
    r
}

/// Appends `n` rendered with at least two digits.
pub fn push_dec2(out: &mut Vec<char>, n: u64)
    ensures
        final(out)@ == old(out)@ + dec2(n as nat),
{
    let ghost o = out@;
    if n < 10 {
        out.push('0');
        out.push(digit_to_char(n));
        assert(dec(n as nat) =~= seq![digit_char(n as nat)]);
        assert(out@ =~= o + dec2(n as nat));
    } else {
        push_dec(out, n);
        proof {
            lemma_dec_len_ge2(n as nat);
        }
        assert(out@ =~= o + dec2(n as nat));
    }
}

proof fn lemma_dec_len_pos(n: nat)
    ensures
        dec(n).len() >= 1,
    decreases n,
{
    if n >= 10 {
        lemma_dec_len_pos(n / 10);
    }
}

proof fn lemma_dec_len_ge2(n: nat)
    requires
        n >= 10,
    ensures
        dec(n).len() >= 2,
{
    lemma_dec_len_pos(n / 10);
}

// ── Parsing ─────────────────────────────────────────────────────────────

/// Whether `c` is a digit of the given radix (8 or 10).
pub open spec fn is_radix_digit(c: char, radix: nat) -> bool {
    48 <= (c as u32) && (c as u32) < 48 + radix
}

/// The value of a digit character.
pub open spec fn digit_val(c: char) -> nat {
    if (c as u32) >= 48 {
        ((c as u32) - 48) as nat
    } else {
        0
    }
}

/// Whether every character of `s` is a digit of `radix`.
pub open spec fn all_radix_digits(s: Seq<char>, radix: nat) -> bool {
    forall|i: int| 0 <= i < s.len() ==> is_radix_digit(#[trigger] s[i], radix)
}

/// The value of the digit string `s` in `radix`.
pub open spec fn radix_val(s: Seq<char>, radix: nat) -> nat
    decreases s.len(),
{
    if s.len() == 0 {
        0
    } else {
        radix_val(s.drop_last(), radix) * radix + digit_val(s.last())
    }
}

/// The digits part of an unsigned number: one leading `+` is dropped.
pub open spec fn unsigned_digits(s: Seq<char>) -> Seq<char> {
    if s.len() > 0 && s[0] == '+' {
        s.drop_first()
    } else {
        s
    }
}

/// What `from_str_radix` / `str::parse` give for an unsigned type whose
/// largest value is `max`: an optional `+`, then one or more digits, and a
/// value that fits.
pub open spec fn parse_unsigned(s: Seq<char>, radix: nat, max: nat) -> Option<nat> {
    let d = unsigned_digits(s);
    if d.len() > 0 && all_radix_digits(d, radix) && radix_val(d, radix) <= max {
        Some(radix_val(d, radix))
    } else {
        None
    }
}

/// What `str::parse::<i32>` gives: an optional sign, then one or more
/// digits, and a value within the range of `i32`.
pub open spec fn parse_i32(s: Seq<char>) -> Option<int> {
    if s.len() > 0 && s[0] == '-' {
        let d = s.drop_first();
        if d.len() > 0 && all_radix_digits(d, 10) && radix_val(d, 10) <= 0x8000_0000 {
            Some(-(radix_val(d, 10) as int))
        } else {
            None
        }
    } else {
        match parse_unsigned(s, 10, 0x7fff_ffff) {
            Some(v) => Some(v as int),
            None => None,
        }
    }
}

proof fn lemma_radix_val_prefix(s: Seq<char>, radix: nat, i: int)
    requires
        radix >= 1,
        0 <= i <= s.len(),
    ensures
        radix_val(s, radix) >= radix_val(s.take(i), radix),
    decreases s.len() - i,
{
    if i < s.len() {
        assert(s.drop_last().take(i) =~= s.take(i));
        lemma_radix_val_prefix(s.drop_last(), radix, i);
        let v = radix_val(s.drop_last(), radix);
        assert(v * radix >= v) by (nonlinear_arith)
            requires
                radix >= 1,
        ;
    } else {
        assert(s.take(i) =~= s);
    }
}

/// Parses `s` as an unsigned number in `radix` (8 or 10) whose largest
/// accepted value is `max`.
pub fn parse_radix(s: &[char], radix: u64, max: u64) -> (r: Option<u64>)
    requires
        radix == 8 || radix == 10,
    ensures
        match parse_unsigned(s@, radix as nat, max as nat) {
            Some(v) => r == Some(v as u64),
            None => r is None,
        },
{
    let start: usize = if s.len() > 0 && s[0] == '+' {
        1
    } else {
        0
    };
    let ghost d = unsigned_digits(s@);
    assert(d =~= s@.subrange(start as int, s@.len() as int));
    if start >= s.len() {
        return None;
    }
    let mut acc: u64 = 0;
    let mut i: usize = start;
    while i < s.len()
        invariant
            start <= i <= s.len(),
            d == s@.subrange(start as int, s@.len() as int),
            d == unsigned_digits(s@),
            radix == 8 || radix == 10,
            acc as nat == radix_val(d.take(i - start), radix as nat),
            acc <= max,
            all_radix_digits(d.take(i - start), radix as nat),
        decreases s.len() - i,
    {
        let c = s[i];
        let u = c as u32;
        let ghost k = (i - start) as int;
        assert(d[k] == c);
        if !(48 <= u && (u as u64) < 48 + radix) {
            assert(!is_radix_digit(d[k], radix as nat));
            assert(!all_radix_digits(d, radix as nat));
            assert(parse_unsigned(s@, radix as nat, max as nat) is None);
            return None;
        }
        let dv = (u - 48) as u64;
        assert(d.take(k + 1).drop_last() =~= d.take(k));
        assert(radix_val(d.take(k + 1), radix as nat) == acc * radix + dv);
        let next = match acc.checked_mul(radix) {
            Some(m) => m.checked_add(dv),
            None => None,
        };
        match next {
            Some(v) if v <= max => {
                acc = v;
            },
            _ => {
                proof {
                    lemma_radix_val_prefix(d, radix as nat, k + 1);
                    assert(acc * radix + dv > max);
                    assert(radix_val(d, radix as nat) > max);
                    assert(parse_unsigned(s@, radix as nat, max as nat) is None);
                }
                return None;
            },
        }
        i += 1;
        assert(all_radix_digits(d.take(i - start), radix as nat)) by {
            assert forall|j: int| 0 <= j < d.take(i - start).len() implies is_radix_digit(
                #[trigger] d.take(i - start)[j],
                radix as nat,
            ) by {
                if j < k {
                    assert(d.take(k)[j] == d.take(i - start)[j]);
                }
            }
        }
    }
    assert(d.take(s.len() - start) =~= d);
    Some(acc)
}

/// `str::parse::<u64>`.
pub fn parse_u64(s: &[char]) -> (r: Option<u64>)
    ensures
        match parse_unsigned(s@, 10, u64::MAX as nat) {
            Some(v) => r == Some(v as u64),
            None => r is None,
        },
{
    parse_radix(s, 10, u64::MAX)
}

/// `str::parse::<u32>`.
pub fn parse_u32(s: &[char]) -> (r: Option<u32>)
    ensures
        match parse_unsigned(s@, 10, u32::MAX as nat) {
            Some(v) => r == Some(v as u32),
            None => r is None,
        },
{
    match parse_radix(s, 10, u32::MAX as u64) {
        Some(v) => Some(v as u32),
        None => None,
    }
}

/// `str::parse::<i32>`.
pub fn parse_i32_chars(s: &[char]) -> (r: Option<i32>)
    ensures
        match parse_i32(s@) {
            Some(v) => r == Some(v as i32),
            None => r is None,
        },
{
    if s.len() > 0 && s[0] == '-' {
        let mut rest: Vec<char> = Vec::new();
        let mut i: usize = 1;
        while i < s.len()
            invariant
                1 <= i <= s.len(),
                rest@ == s@.subrange(1, i as int),
            decreases s.len() - i,
        {
            rest.push(s[i]);
            i += 1;
            assert(rest@ =~= s@.subrange(1, i as int));
        }
        assert(rest@ =~= s@.drop_first());
        if rest.len() > 0 && rest[0] == '+' {
            // "-+5" is not a number
            assert(!all_radix_digits(s@.drop_first(), 10)) by {
                assert(!is_radix_digit(s@.drop_first()[0], 10));
            }
            return None;
        }
        assert(unsigned_digits(rest@) == rest@);
        match parse_radix(&rest, 10, 0x8000_0000) {
            Some(v) => {
                let r: i32 = if v == 0x8000_0000 {
                    i32::MIN
                } else {
                    -(v as i32)
                };
                Some(r)
            },
            None => None,
        }
    } else {
        match parse_radix(s, 10, 0x7fff_ffff) {
            Some(v) => Some(v as i32),
            None => None,
        }
    }
}

} // verus!
