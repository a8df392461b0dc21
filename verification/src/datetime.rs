//! Local dates and times as the listing shows them: `YYYY-MM-DD`, `HH:MM`
//! and `HH:MM:SS`, from the local calendar fields that `chrono` gives.
use vstd::prelude::*;
use crate::num::{dec, pad_left, push_dec, push_dec2};
use crate::text::string_of;
use chrono::{Datelike, Local, TimeZone, Timelike};

verus! {

/// Calendar fields: year, month, day, hour, minute, second.
pub type DateTimeParts = (i32, u32, u32, u32, u32, u32);

/// The fields are in their ranges (month 1–12, day 1–31, hour 0–23,
/// minute and second 0–59).
pub open spec fn parts_ok(p: DateTimeParts) -> bool {
    1 <= p.1 <= 12 && 1 <= p.2 <= 31 && p.3 < 24 && p.4 < 60 && p.5 < 60
}

/// The number of days from 1970-01-01 to the given day of the proleptic
/// Gregorian calendar (negative before it).
pub open spec fn civil_days(y: int, m: int, d: int) -> int {
    let yy = if m <= 2 { y - 1 } else { y };
    let era = yy / 400;
    let yoe = yy - era * 400;
    let mp = (m + 9) % 12;
    let doy = (153 * mp + 2) / 5 + d - 1;
    let doe = yoe * 365 + yoe / 4 - yoe / 100 + doy;
    era * 146097 + doe - 719468
}

/// The calendar fields read as seconds since 1970-01-01 00:00:00.
pub open spec fn wall_seconds(p: DateTimeParts) -> int {
    civil_days(p.0 as int, p.1 as int, p.2 as int) * 86400 + p.3 * 3600 + p.4 * 60 + p.5
}

/// `p` is the wall-clock time of the Unix time `secs` in a time zone
/// whose offset from UTC is less than a day.
pub open spec fn is_local_time_of(p: DateTimeParts, secs: int) -> bool {
    -86400 < wall_seconds(p) - secs < 86400
}

/// The Unix times that lie well inside the range that `chrono` can
/// represent (about 34,800 years either side of 1970).
pub open spec fn well_in_range(secs: int) -> bool {
    -0x100_0000_0000 <= secs <= 0x100_0000_0000
}

/// The local calendar fields of a Unix time, as `chrono::Local` gives them
/// (`timestamp_opt(secs, 0).single()`). `timestamp_opt` builds the UTC
/// instant and adds the zone's offset, a `FixedOffset` of less than a day,
/// so the fields are the wall-clock time of `secs` at that offset; it
/// answers `None` only for a time outside the representable range. Which
/// offset applies depends on the machine's time zone and is left unsaid.
/// `chrono` panics while reading the zone only when the system's time-zone
/// data is corrupt (`expect` in its Unix zone lookup); no `requires` can
/// rule that out, and this contract says nothing of that case.
#[verifier::external_body]
fn local_parts(secs: i64) -> (r: Option<DateTimeParts>)
    ensures
        r matches Some(p) ==> parts_ok(p) && is_local_time_of(p, secs as int),
        well_in_range(secs as int) ==> r is Some,
{
    Local.timestamp_opt(secs, 0).single().map(
        |dt| (dt.year(), dt.month(), dt.day(), dt.hour(), dt.minute(), dt.second()),
    )
}

/// The current local calendar fields (`chrono::Local::now`); they depend
/// on the clock and the time zone. `chrono` panics here only when the
/// system clock is set before 1970, which no `requires` can rule out.
#[verifier::external_body]
fn local_now_parts() -> (r: DateTimeParts)
    ensures
        parts_ok(r),
{
    let dt = Local::now();
    (dt.year(), dt.month(), dt.day(), dt.hour(), dt.minute(), dt.second())
}

/// A year as `%Y` writes it: four digits from 0 to 9999, else with a sign
/// and at least four digits.
pub open spec fn year_text(y: int) -> Seq<char> {
    if 0 <= y <= 9999 {
        pad_left(dec(y as nat), 4, '0')
    } else if y > 9999 {
        seq!['+'] + dec(y as nat)
    } else {
        seq!['-'] + pad_left(dec((-y) as nat), 4, '0')
    }
}

/// Two digits, with a leading zero below ten.
pub open spec fn two(n: nat) -> Seq<char> {
    pad_left(dec(n), 2, '0')
}

/// The date, the time to the minute and the time to the second.
pub open spec fn datetime_text(p: DateTimeParts) -> (Seq<char>, Seq<char>, Seq<char>) {
    (
        year_text(p.0 as int) + seq!['-'] + two(p.1 as nat) + seq!['-'] + two(p.2 as nat),
        two(p.3 as nat) + seq![':'] + two(p.4 as nat),
        two(p.3 as nat) + seq![':'] + two(p.4 as nat) + seq![':'] + two(p.5 as nat),
    )
}

fn push_padded(out: &mut Vec<char>, n: u64, width: usize)
    requires
        width <= 4,
    ensures
        final(out)@ == old(out)@ + pad_left(dec(n as nat), width as nat, '0'),
{
    let mut d: Vec<char> = Vec::new();
    push_dec(&mut d, n);
    assert(d@ =~= dec(n as nat));
    let ghost o = out@;
    let mut k: usize = d.len();
    while k < width
        invariant
            d.len() <= k <= width || (k == d.len() && k >= width),
            out@ == o + Seq::new((k - d.len()) as nat, |_i: int| '0'),
            d@ == dec(n as nat),
        decreases width - k,
    {
        out.push('0');
        k += 1;
        assert(out@ =~= o + Seq::new((k - d.len()) as nat, |_i: int| '0'));
    }
    let ghost mid = out@;
    let mut j: usize = 0;
    while j < d.len()
        invariant
            j <= d.len(),
            out@ == mid + d@.take(j as int),
        decreases d.len() - j,
    {
        out.push(d[j]);
        j += 1;
        assert(out@ =~= mid + d@.take(j as int));
    }
    assert(d@.take(d.len() as int) =~= d@);
    assert(out@ =~= o + pad_left(dec(n as nat), width as nat, '0'));
}

/// Formats calendar fields as the date, the time to the minute and the
/// time to the second.
pub fn format_datetime(p: DateTimeParts) -> (r: (String, String, String))
    requires
        parts_ok(p),
    ensures
        (r.0@, r.1@, r.2@) == datetime_text(p),
{
    let (y, mo, d, h, mi, s) = p;
    let mut date: Vec<char> = Vec::new();
    if 0 <= y && y <= 9999 {
        push_padded(&mut date, y as u64, 4);
    } else if y > 9999 {
        date.push('+');
        push_dec(&mut date, y as u64);
    } else {
        date.push('-');
        let a: i64 = -(y as i64);
        push_padded(&mut date, a as u64, 4);
    }
    date.push('-');
    push_dec2(&mut date, mo as u64);
    date.push('-');
    push_dec2(&mut date, d as u64);
    let mut hm: Vec<char> = Vec::new();
    push_dec2(&mut hm, h as u64);
    hm.push(':');
    push_dec2(&mut hm, mi as u64);
    let mut full: Vec<char> = Vec::new();
    push_dec2(&mut full, h as u64);
    full.push(':');
    push_dec2(&mut full, mi as u64);
    full.push(':');
    push_dec2(&mut full, s as u64);
    assert(date@ =~= datetime_text(p).0);
    assert(hm@ =~= datetime_text(p).1);
    assert(full@ =~= datetime_text(p).2);
    (string_of(&date), string_of(&hm), string_of(&full))
}

/// A `u64` read as an `i64` (two's complement wrap above `i64::MAX`).
pub open spec fn wrapped_i64(secs: u64) -> int {
    if secs <= i64::MAX { secs as int } else { secs - 0x1_0000_0000_0000_0000 }
}

/// The local date, time and time with seconds of a Unix time; the epoch's
/// when the time lies outside what the local calendar can represent.
pub fn fmt_datetime(secs: u64) -> (r: (String, String, String))
    ensures
        exists|p: DateTimeParts|
            #![trigger datetime_text(p)]
            {
                &&& parts_ok(p)
                &&& (r.0@, r.1@, r.2@) == datetime_text(p)
                &&& (is_local_time_of(p, wrapped_i64(secs)) || is_local_time_of(p, 0))
                &&& (well_in_range(wrapped_i64(secs)) ==> is_local_time_of(p, wrapped_i64(secs)))
            },
{
    let t: i64 = if secs <= i64::MAX as u64 {
        secs as i64
    } else {
        let low: u64 = secs - 0x8000_0000_0000_0000u64;
        (low as i64) - i64::MAX - 1
    };
    assert(t == wrapped_i64(secs));
    let p = match local_parts(t) {
        Some(p) => p,
        None => {
            assert(well_in_range(0));
            local_parts(0).unwrap()
        },
    };
    let r = format_datetime(p);
    assert((r.0@, r.1@, r.2@) == datetime_text(p));
    r
}

/// The current local date and time, `YYYY-MM-DD HH:MM:SS`.
pub fn now_str() -> (r: String)
    ensures
        exists|p: DateTimeParts| parts_ok(p) && r@ == datetime_text(p).0 + seq![' '] + datetime_text(p).2,
{
    let p = local_now_parts();
    let (d, _, f) = format_datetime(p);
    let mut v = crate::text::chars_of(d.as_str());
    v.push(' ');
    let fc = crate::text::chars_of(f.as_str());
    let ghost o = v@;
    let mut k: usize = 0;
    while k < fc.len()
        invariant
            k <= fc.len(),
            v@ == o + fc@.take(k as int),
        decreases fc.len() - k,
    {
        v.push(fc[k]);
        k += 1;
        assert(v@ =~= o + fc@.take(k as int));
    }
    assert(fc@.take(fc.len() as int) =~= fc@);
    string_of(&v)
}

/// A start time as the process details show it: `YYYY-MM-DD HH:MM:SS`
/// from local calendar fields, `?` when there are none.
pub open spec fn timestamp_text(p: Option<DateTimeParts>) -> Seq<char> {
    match p {
        Some(q) => datetime_text(q).0 + seq![' '] + datetime_text(q).2,
        None => "?"@,
    }
}

/// The text of local calendar fields (see [`timestamp_text`]).
pub fn fmt_timestamp_parts(p: Option<DateTimeParts>) -> (r: String)
    requires
        p matches Some(q) ==> parts_ok(q),
    ensures
        r@ == timestamp_text(p),
{
    match p {
        None => string_of(&crate::text::chars_of("?")),
        Some(q) => {
            let (d, _, f) = format_datetime(q);
            let mut v = crate::text::chars_of(d.as_str());
            v.push(' ');
            let fc = crate::text::chars_of(f.as_str());
            crate::text::push_all(&mut v, &fc);
            assert(v@ =~= timestamp_text(p));
            string_of(&v)
        },
    }
}

/// A Unix time as local `YYYY-MM-DD HH:MM:SS` (`%Y-%m-%d %H:%M:%S`): the
/// wall-clock time of `unix_secs` in the local time zone. `chrono` gives a
/// single local time for every instant it can represent, so `?` comes only
/// for times outside that range.
pub fn format_unix_timestamp(unix_secs: i64) -> (r: String)
    ensures
        r@ == "?"@ || exists|p: DateTimeParts|
            parts_ok(p) && is_local_time_of(p, unix_secs as int) && r@ == timestamp_text(Some(p)),
        well_in_range(unix_secs as int) ==> exists|p: DateTimeParts|
            parts_ok(p) && is_local_time_of(p, unix_secs as int) && r@ == timestamp_text(Some(p)),
{
    let p = local_parts(unix_secs);
    fmt_timestamp_parts(p)
}

} // verus!
