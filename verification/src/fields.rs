//! Reading numeric fields out of whitespace-separated records, with the
//! fallback value the record readers use when a field is missing or bad.
use vstd::prelude::*;
use crate::num::{parse_unsigned, parse_i32, parse_radix, parse_i32_chars};
use crate::text::{views, words};

verus! {

/// Field `k` of `ws` parsed as an unsigned number up to `max`, or `default`
/// when the field is missing or does not parse
/// (`fields.get(k).and_then(|s| s.parse().ok()).unwrap_or(default)`).
pub open spec fn field_num(ws: Seq<Seq<char>>, k: int, max: nat, default: nat) -> nat {
    if 0 <= k < ws.len() {
        match parse_unsigned(ws[k], 10, max) {
            Some(v) => v,
            None => default,
        }
    } else {
        default
    }
}

/// Field `k` of `ws` parsed as an `i32`, or `default`.
pub open spec fn field_i32(ws: Seq<Seq<char>>, k: int, default: int) -> int {
    if 0 <= k < ws.len() {
        match parse_i32(ws[k]) {
            Some(v) => v,
            None => default,
        }
    } else {
        default
    }
}

/// Executable form of [`field_num`] for `u64` fields.
pub fn field_u64(ws: &Vec<Vec<char>>, k: usize, default: u64) -> (r: u64)
    ensures
        r as nat == field_num(views(ws@), k as int, u64::MAX as nat, default as nat),
{
    if k < ws.len() {
        assert(views(ws@)[k as int] == ws@[k as int]@);
        match parse_radix(&ws[k], 10, u64::MAX) {
            Some(v) => v,
            None => default,
        }
    } else {
        default
    }
}

/// Executable form of [`field_num`] for `u32` fields.
pub fn field_u32(ws: &Vec<Vec<char>>, k: usize, default: u32) -> (r: u32)
    ensures
        r as nat == field_num(views(ws@), k as int, u32::MAX as nat, default as nat),
{
    if k < ws.len() {
        assert(views(ws@)[k as int] == ws@[k as int]@);
        match parse_radix(&ws[k], 10, u32::MAX as u64) {
            Some(v) => v as u32,
            None => default,
        }
    } else {
        default
    }
}

/// Executable form of [`field_i32`].
pub fn field_i32_at(ws: &Vec<Vec<char>>, k: usize, default: i32) -> (r: i32)
    ensures
        r as int == field_i32(views(ws@), k as int, default as int),
{
    if k < ws.len() {
        assert(views(ws@)[k as int] == ws@[k as int]@);
        match parse_i32_chars(&ws[k]) {
            Some(v) => v,
            None => default,
        }
    } else {
        default
    }
}

/// The second word of `line` as a `u64`, or `default`
/// (`line.split_whitespace().nth(1).and_then(parse).unwrap_or(default)`).
pub open spec fn second_u64(line: Seq<char>, default: nat) -> nat {
    field_num(words(line), 1, u64::MAX as nat, default)
}

/// The second word of `line` as a `u32`, or `default`.
pub open spec fn second_u32(line: Seq<char>, default: nat) -> nat {
    field_num(words(line), 1, u32::MAX as nat, default)
}

} // verus!
