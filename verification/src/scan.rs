//! Byte classes and maximal-munch runs: the lexer's scanning primitives.

use vstd::prelude::*;

verus! {

/// the byte `' '`
pub const B_SPACE: u8 = 32;

/// the byte `'\t'`
pub const B_TAB: u8 = 9;

/// the byte `'\n'`
pub const B_LF: u8 = 10;

/// the byte `'\r'`
pub const B_CR: u8 = 13;

/// the byte `'0'`
pub const B_0: u8 = 48;

/// the byte `'9'`
pub const B_9: u8 = 57;

/// the byte `'a'`
pub const B_LOW_A: u8 = 97;

/// the byte `'z'`
pub const B_LOW_Z: u8 = 122;

/// the byte `'A'`
pub const B_UP_A: u8 = 65;

/// the byte `'Z'`
pub const B_UP_Z: u8 = 90;

/// the byte `'_'`
pub const B_UNDERSCORE: u8 = 95;

/// The classes of bytes that the lexer consumes in maximal runs.
#[derive(Clone, Copy, Debug, PartialEq, Eq, Structural)]
pub enum ByteClass {
    /// space, tab, line feed, carriage return
    Whitespace,
    /// `0` to `9`
    Decimal,
    /// `0` to `9`, `a` to `f`, `A` to `F`
    Hexadecimal,
    /// `0` to `7`
    Octal,
    /// `0` or `1`
    Binary,
    /// the body of a value identifier: lowercase, digits, `_`
    IdentBody,
    /// the body of a type identifier: letters and digits
    TypeIdentBody,
}

/// An ASCII lowercase letter.
pub open spec fn is_lower(b: u8) -> bool {
    B_LOW_A <= b <= B_LOW_Z
}

/// An ASCII uppercase letter.
pub open spec fn is_upper(b: u8) -> bool {
    B_UP_A <= b <= B_UP_Z
}

/// An ASCII decimal digit.
pub open spec fn is_digit(b: u8) -> bool {
    B_0 <= b <= B_9
}

/// A whitespace byte: space, tab, line feed or carriage return.
pub open spec fn is_whitespace(b: u8) -> bool {
    b == B_SPACE || b == B_TAB || b == B_LF || b == B_CR
}

/// Whether byte `b` belongs to class `c`.
pub open spec fn in_class(c: ByteClass, b: u8) -> bool {
    match c {
        ByteClass::Whitespace => is_whitespace(b),
        ByteClass::Decimal => is_digit(b),
        ByteClass::Hexadecimal => is_digit(b) || B_LOW_A <= b <= 102 || B_UP_A <= b <= 70,
        ByteClass::Octal => B_0 <= b <= 55,
        ByteClass::Binary => b == B_0 || b == 49,
        ByteClass::IdentBody => is_lower(b) || is_digit(b) || b == B_UNDERSCORE,
        ByteClass::TypeIdentBody => is_lower(b) || is_upper(b) || is_digit(b),
    }
}

/// The end of the run of bytes of class `c` that starts at `i`:
/// the first position at or after `i` whose byte is outside the class.
pub open spec fn run_end(s: Seq<u8>, i: int, c: ByteClass) -> int
    decreases s.len() - i,
{
    if 0 <= i < s.len() && in_class(c, s[i]) {
        run_end(s, i + 1, c)
    } else {
        i
    }
}

/// The run that starts at `i` stays between `i` and the end of the input.
pub proof fn lemma_run_end_bounds(s: Seq<u8>, i: int, c: ByteClass)
    requires
        0 <= i <= s.len(),
    ensures
        i <= run_end(s, i, c) <= s.len(),
    decreases s.len() - i,
{
    if 0 <= i < s.len() && in_class(c, s[i]) {
        lemma_run_end_bounds(s, i + 1, c);
    }
}

/// Whether byte `b` belongs to class `c`.
pub fn byte_in_class(c: ByteClass, b: u8) -> (r: bool)
    ensures
        r == in_class(c, b),
{
    match c {
        ByteClass::Whitespace => b == B_SPACE || b == B_TAB || b == B_LF || b == B_CR,
        ByteClass::Decimal => B_0 <= b && b <= B_9,
        ByteClass::Hexadecimal => (B_0 <= b && b <= B_9) || (B_LOW_A <= b && b <= 102) || (B_UP_A
            <= b && b <= 70),
        ByteClass::Octal => B_0 <= b && b <= 55,
        ByteClass::Binary => b == B_0 || b == 49,
        ByteClass::IdentBody => (B_LOW_A <= b && b <= B_LOW_Z) || (B_0 <= b && b <= B_9) || b
            == B_UNDERSCORE,
        ByteClass::TypeIdentBody => (B_LOW_A <= b && b <= B_LOW_Z) || (B_UP_A <= b && b <= B_UP_Z)
            || (B_0 <= b && b <= B_9),
    }
}

/// Walk forward from `start` while the bytes stay in class `c`.
pub fn scan_run(s: &[u8], start: usize, c: ByteClass) -> (r: usize)
    requires
        start <= s@.len(),
    ensures
        r == run_end(s@, start as int, c),
        start <= r <= s@.len(),
{
    let mut i = start;
    loop
        invariant
            start <= i <= s@.len(),
            run_end(s@, start as int, c) == run_end(s@, i as int, c),
        ensures
            start <= i <= s@.len(),
            run_end(s@, start as int, c) == i,
        decreases s@.len() - i,
    {
        if i < s.len() {
            if byte_in_class(c, s[i]) {
                i = i + 1;
            } else {
                break ;
            }
        } else {
            break ;
        }
    }
    i
}

} // verus!
