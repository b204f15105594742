//! Number literals: digit runs and the prefixed literal forms.
//!
//! A number literal is a required, mutually exclusive prefix followed by a
//! run of digits of the matching base. The prefixed forms are tried ahead of
//! the bare decimal form, since decimal has no prefix and would otherwise
//! shadow the others.

use crate::scan::{is_digit, run_end, scan_run, ByteClass, B_0};
use vstd::prelude::*;

verus! {

/// the byte `'x'`
pub const B_LOW_X: u8 = 120;

/// the byte `'o'`
pub const B_LOW_O: u8 = 111;

/// the byte `'b'`
pub const B_LOW_B: u8 = 98;

/// A run of decimal digits starting at `start`; its end, or `start` when the
/// first byte is no decimal digit.
pub fn decimal(s: &[u8], start: usize) -> (r: usize)
    requires
        start <= s@.len(),
    ensures
        r == run_end(s@, start as int, ByteClass::Decimal),
        start <= r <= s@.len(),
{
    scan_run(s, start, ByteClass::Decimal)
}

/// A run of hexadecimal digits starting at `start`; its end, or `start` when
/// the first byte is no hexadecimal digit.
pub fn hexadecimal(s: &[u8], start: usize) -> (r: usize)
    requires
        start <= s@.len(),
    ensures
        r == run_end(s@, start as int, ByteClass::Hexadecimal),
        start <= r <= s@.len(),
{
    scan_run(s, start, ByteClass::Hexadecimal)
}

/// A run of octal digits starting at `start`; its end, or `start` when the
/// first byte is no octal digit.
pub fn octal(s: &[u8], start: usize) -> (r: usize)
    requires
        start <= s@.len(),
    ensures
        r == run_end(s@, start as int, ByteClass::Octal),
        start <= r <= s@.len(),
{
    scan_run(s, start, ByteClass::Octal)
}

/// A run of binary digits starting at `start`; its end, or `start` when the
/// first byte is no binary digit.
pub fn binary(s: &[u8], start: usize) -> (r: usize)
    requires
        start <= s@.len(),
    ensures
        r == run_end(s@, start as int, ByteClass::Binary),
        start <= r <= s@.len(),
{
    scan_run(s, start, ByteClass::Binary)
}

/// Where a literal of a prefixed base starts at `i`: the end of `prefix`
/// (two bytes, `0` and then `marker`) followed by at least one digit of
/// class `c`, or nothing.
pub open spec fn spec_prefixed_lit(s: Seq<u8>, i: int, marker: u8, c: ByteClass) -> Option<int> {
    if 0 <= i && i + 1 < s.len() && s[i] == B_0 && s[i + 1] == marker {
        let e = run_end(s, i + 2, c);
        if e > i + 2 {
            Some(e)
        } else {
            None
        }
    } else {
        None
    }
}

/// Where a bare decimal literal starts at `i`: the end of a nonempty run of
/// decimal digits, or nothing.
pub open spec fn spec_decimal_lit(s: Seq<u8>, i: int) -> Option<int> {
    let e = run_end(s, i, ByteClass::Decimal);
    if e > i {
        Some(e)
    } else {
        None
    }
}

/// Match a prefixed number literal at `start`.
fn prefixed_lit(s: &[u8], start: usize, marker: u8, c: ByteClass) -> (r: Option<usize>)
    requires
        start <= s@.len(),
    ensures
        r is Some <==> spec_prefixed_lit(s@, start as int, marker, c) is Some,
        r is Some ==> r->0 as int == spec_prefixed_lit(s@, start as int, marker, c)->0,
        r is Some ==> start < r->0 <= s@.len(),
{
    if start < s.len() && start + 1 < s.len() && s[start] == B_0 && s[start + 1] == marker {
        let e = scan_run(s, start + 2, c);
        if e > start + 2 {
            Some(e)
        } else {
            None
        }
    } else {
        None
    }
}

/// Match a hexadecimal literal at `start`: `0x` and then hexadecimal digits.
pub fn hexadecimal_lit(s: &[u8], start: usize) -> (r: Option<usize>)
    requires
        start <= s@.len(),
    ensures
        r is Some <==> spec_prefixed_lit(s@, start as int, B_LOW_X, ByteClass::Hexadecimal)
            is Some,
        r is Some ==> r->0 as int == spec_prefixed_lit(
            s@,
            start as int,
            B_LOW_X,
            ByteClass::Hexadecimal,
        )->0,
        r is Some ==> start < r->0 <= s@.len(),
{
    prefixed_lit(s, start, B_LOW_X, ByteClass::Hexadecimal)
}

/// Match an octal literal at `start`: `0o` and then octal digits.
pub fn octal_lit(s: &[u8], start: usize) -> (r: Option<usize>)
    requires
        start <= s@.len(),
    ensures
        r is Some <==> spec_prefixed_lit(s@, start as int, B_LOW_O, ByteClass::Octal) is Some,
        r is Some ==> r->0 as int == spec_prefixed_lit(
            s@,
            start as int,
            B_LOW_O,
            ByteClass::Octal,
        )->0,
        r is Some ==> start < r->0 <= s@.len(),
{
    prefixed_lit(s, start, B_LOW_O, ByteClass::Octal)
}

/// Match a binary literal at `start`: `0b` and then binary digits.
pub fn binary_lit(s: &[u8], start: usize) -> (r: Option<usize>)
    requires
        start <= s@.len(),
    ensures
        r is Some <==> spec_prefixed_lit(s@, start as int, B_LOW_B, ByteClass::Binary) is Some,
        r is Some ==> r->0 as int == spec_prefixed_lit(
            s@,
            start as int,
            B_LOW_B,
            ByteClass::Binary,
        )->0,
        r is Some ==> start < r->0 <= s@.len(),
{
    prefixed_lit(s, start, B_LOW_B, ByteClass::Binary)
}

/// Match a bare decimal literal at `start`: one or more decimal digits.
pub fn decimal_lit(s: &[u8], start: usize) -> (r: Option<usize>)
    requires
        start <= s@.len(),
    ensures
        r is Some <==> spec_decimal_lit(s@, start as int) is Some,
        r is Some ==> r->0 as int == spec_decimal_lit(s@, start as int)->0,
        r is Some ==> start < r->0 <= s@.len(),
{
    let e = decimal(s, start);
    if e > start {
        Some(e)
    } else {
        None
    }
}

/// Where the number literal that starts at `i` ends: the prefixed bases are
/// tried in a fixed order ahead of bare decimal. The caller guarantees a
/// digit at `i`, so the decimal form cannot fail.
pub open spec fn spec_number_end(s: Seq<u8>, i: int) -> int
    recommends
        0 <= i < s.len(),
        is_digit(s[i]),
{
    if spec_prefixed_lit(s, i, B_LOW_X, ByteClass::Hexadecimal) is Some {
        spec_prefixed_lit(s, i, B_LOW_X, ByteClass::Hexadecimal)->0
    } else if spec_prefixed_lit(s, i, B_LOW_O, ByteClass::Octal) is Some {
        spec_prefixed_lit(s, i, B_LOW_O, ByteClass::Octal)->0
    } else if spec_prefixed_lit(s, i, B_LOW_B, ByteClass::Binary) is Some {
        spec_prefixed_lit(s, i, B_LOW_B, ByteClass::Binary)->0
    } else if spec_decimal_lit(s, i) is Some {
        spec_decimal_lit(s, i)->0
    } else {
        i + 1
    }
}

/// Match the number literal that starts at `start`, which holds a digit.
pub fn number_end(s: &[u8], start: usize) -> (r: usize)
    requires
        start < s@.len(),
        is_digit(s@[start as int]),
    ensures
        r == spec_number_end(s@, start as int),
        start < r <= s@.len(),
{
    if let Some(e) = hexadecimal_lit(s, start) {
        e
    } else if let Some(e) = octal_lit(s, start) {
        e
    } else if let Some(e) = binary_lit(s, start) {
        e
    } else if let Some(e) = decimal_lit(s, start) {
        e
    } else {
        // A digit stands at `start`, so the decimal run is nonempty and the
        // bare decimal form cannot have failed.
        proof {
            crate::scan::lemma_run_end_bounds(s@, start as int + 1, ByteClass::Decimal);
        }
        vstd::pervasive::unreached()
    }
}

} // verus!
