//! The lexer: raw bytes to a flat list of tokens.
//!
//! Classification is maximal munch inside each class, with the classes tried
//! in a fixed priority order. Keywords and primitive-type names share the
//! value-identifier pattern, so they are recognised by comparing the maximal
//! identifier run against the reserved words: a longer run such as `fn_foo`
//! stays one identifier. Whitespace is elided from the token stream; its
//! byte ranges are re-attached later as unclassified spans. Any byte that
//! matches no rule becomes a single-byte error token, which guarantees
//! forward progress.

use crate::number::{number_end, spec_number_end};
use crate::scan::{
    byte_in_class, is_digit, is_lower, is_upper, is_whitespace, run_end, scan_run, ByteClass,
    B_UNDERSCORE,
};
use crate::token::{Token, TokenKind};
use vstd::prelude::*;
use vstd::string::StringSliceAdditionalSpecFns;

verus! {

/// the byte `'"'`
pub const B_DQUOTE: u8 = 34;

/// the byte `'\''`
pub const B_SQUOTE: u8 = 39;

/// the byte `'('`
pub const B_OPEN_PAREN: u8 = 40;

/// the byte `')'`
pub const B_CLOSE_PAREN: u8 = 41;

/// the byte `'{'`
pub const B_OPEN_BRACE: u8 = 123;

/// the byte `'}'`
pub const B_CLOSE_BRACE: u8 = 125;

/// the byte `'='`
pub const B_EQUALS: u8 = 61;

/// the byte `';'`
pub const B_SEMI: u8 = 59;

/// the byte `','`
pub const B_COMMA: u8 = 44;

/// the byte `':'`
pub const B_COLON: u8 = 58;

/// the byte `'-'`
pub const B_DASH: u8 = 45;

/// the byte `'>'`
pub const B_GT: u8 = 62;

/// the byte `'+'`
pub const B_PLUS: u8 = 43;

/// the byte `'.'`
pub const B_DOT: u8 = 46;

/// the byte `'?'`
pub const B_QUESTION: u8 = 63;

/// the byte `'&'`
pub const B_AMP: u8 = 38;

/// the byte `'*'`
pub const B_STAR: u8 = 42;

/// the byte `'m'`
pub const B_LOW_M: u8 = 109;

/// the byte `'u'`
pub const B_LOW_U: u8 = 117;

/// the byte `'t'`
pub const B_LOW_T: u8 = 116;

/// Whether the identifier word `w` is a primitive-type name.
pub open spec fn is_primitive_word(w: Seq<u8>) -> bool {
    ||| (w.len() == 2 && w[0] == 117 && w[1] == 56)  // u8
    ||| (w.len() == 3 && w[0] == 117 && w[1] == 49 && w[2] == 54)  // u16
    ||| (w.len() == 3 && w[0] == 117 && w[1] == 51 && w[2] == 50)  // u32
    ||| (w.len() == 3 && w[0] == 117 && w[1] == 54 && w[2] == 52)  // u64
    ||| (w.len() == 4 && w[0] == 117 && w[1] == 49 && w[2] == 50 && w[3] == 56)  // u128
    ||| (w.len() == 5 && w[0] == 117 && w[1] == 115 && w[2] == 105 && w[3] == 122 && w[4]
        == 101)  // usize
    ||| (w.len() == 2 && w[0] == 105 && w[1] == 56)  // i8
    ||| (w.len() == 3 && w[0] == 105 && w[1] == 49 && w[2] == 54)  // i16
    ||| (w.len() == 3 && w[0] == 105 && w[1] == 51 && w[2] == 50)  // i32
    ||| (w.len() == 3 && w[0] == 105 && w[1] == 54 && w[2] == 52)  // i64
    ||| (w.len() == 4 && w[0] == 105 && w[1] == 49 && w[2] == 50 && w[3] == 56)  // i128
    ||| (w.len() == 5 && w[0] == 105 && w[1] == 115 && w[2] == 105 && w[3] == 122 && w[4]
        == 101)  // isize
    ||| (w.len() == 3 && w[0] == 102 && w[1] == 51 && w[2] == 50)  // f32
    ||| (w.len() == 3 && w[0] == 102 && w[1] == 54 && w[2] == 52)  // f64
    ||| (w.len() == 4 && w[0] == 98 && w[1] == 111 && w[2] == 111 && w[3] == 108)  // bool
    ||| (w.len() == 3 && w[0] == 115 && w[1] == 116 && w[2] == 114)  // str
}

/// The kind of the identifier word `w`: a keyword where it equals one
/// exactly, a primitive-type name where it equals one exactly, otherwise a
/// plain value identifier.
pub open spec fn spec_ident_kind(w: Seq<u8>) -> TokenKind {
    if w.len() == 2 && w[0] == 102 && w[1] == 110 {  // fn
        TokenKind::Fn
    } else if w.len() == 6 && w[0] == 115 && w[1] == 116 && w[2] == 114 && w[3] == 117 && w[4]
        == 99 && w[5] == 116 {  // struct
        TokenKind::Struct
    } else if w.len() == 5 && w[0] == 116 && w[1] == 114 && w[2] == 97 && w[3] == 105 && w[4]
        == 116 {  // trait
        TokenKind::Trait
    } else if w.len() == 3 && w[0] == 108 && w[1] == 101 && w[2] == 116 {  // let
        TokenKind::Let
    } else if w.len() == 3 && w[0] == 117 && w[1] == 115 && w[2] == 101 {  // use
        TokenKind::Use
    } else if w.len() == 4 && w[0] == 116 && w[1] == 121 && w[2] == 112 && w[3] == 101 {  // type
        TokenKind::Type
    } else if is_primitive_word(w) {
        TokenKind::PrimIdent
    } else {
        TokenKind::Ident
    }
}

/// The position of the first `"` at or after `i`, or the input's length
/// where none follows.
pub open spec fn quote_end(s: Seq<u8>, i: int) -> int
    decreases s.len() - i,
{
    if !(0 <= i < s.len()) {
        s.len() as int
    } else if s[i] == B_DQUOTE {
        i
    } else {
        quote_end(s, i + 1)
    }
}

/// The kind and the end of the token that starts at `i`, a non-whitespace
/// position. The priority order is: number literals (the prefixed bases
/// ahead of bare decimal), string literals, character literals ahead of
/// lifetime identifiers, punctuation (with `::` ahead of `:`, `->` ahead of
/// `-`, and `&mut` ahead of `&`), then the identifier classes.
#[verifier::opaque]
pub open spec fn spec_token_at(s: Seq<u8>, i: int) -> (TokenKind, int)
    recommends
        0 <= i < s.len(),
        !is_whitespace(s[i]),
{
    let b = s[i];
    if is_digit(b) {
        (TokenKind::NumberLit, spec_number_end(s, i))
    } else if b == B_DQUOTE {
        let q = quote_end(s, i + 1);
        if q < s.len() {
            (TokenKind::StrLit, q + 1)
        } else {
            // An unterminated string: the quote alone is an error token.
            (TokenKind::Error, i + 1)
        }
    } else if b == B_SQUOTE {
        if i + 2 < s.len() && s[i + 2] == B_SQUOTE {
            (TokenKind::CharLit, i + 3)
        } else {
            let j = if i + 1 < s.len() && s[i + 1] == B_UNDERSCORE {
                i + 2
            } else {
                i + 1
            };
            if j < s.len() && is_lower(s[j]) {
                (TokenKind::TickIdent, run_end(s, j + 1, ByteClass::IdentBody))
            } else {
                (TokenKind::Error, i + 1)
            }
        }
    } else if b == B_OPEN_PAREN {
        (TokenKind::OpenParen, i + 1)
    } else if b == B_CLOSE_PAREN {
        (TokenKind::CloseParen, i + 1)
    } else if b == B_OPEN_BRACE {
        (TokenKind::OpenBrace, i + 1)
    } else if b == B_CLOSE_BRACE {
        (TokenKind::CloseBrace, i + 1)
    } else if b == B_EQUALS {
        (TokenKind::Equals, i + 1)
    } else if b == B_SEMI {
        (TokenKind::Semi, i + 1)
    } else if b == B_COMMA {
        (TokenKind::Comma, i + 1)
    } else if b == B_PLUS {
        (TokenKind::Plus, i + 1)
    } else if b == B_DOT {
        (TokenKind::Dot, i + 1)
    } else if b == B_QUESTION {
        (TokenKind::Question, i + 1)
    } else if b == B_STAR {
        (TokenKind::Star, i + 1)
    } else if b == B_COLON {
        if i + 1 < s.len() && s[i + 1] == B_COLON {
            (TokenKind::DoubleColon, i + 2)
        } else {
            (TokenKind::Colon, i + 1)
        }
    } else if b == B_DASH {
        if i + 1 < s.len() && s[i + 1] == B_GT {
            (TokenKind::ThinArrow, i + 2)
        } else {
            (TokenKind::Error, i + 1)
        }
    } else if b == B_AMP {
        if i + 3 < s.len() && s[i + 1] == B_LOW_M && s[i + 2] == B_LOW_U && s[i + 3] == B_LOW_T {
            (TokenKind::AmpMut, i + 4)
        } else {
            (TokenKind::Amp, i + 1)
        }
    } else if is_upper(b) {
        (TokenKind::TypeIdent, run_end(s, i + 1, ByteClass::TypeIdentBody))
    } else if is_lower(b) {
        let e = run_end(s, i + 1, ByteClass::IdentBody);
        (spec_ident_kind(s.subrange(i, e)), e)
    } else if b == B_UNDERSCORE {
        if i + 1 < s.len() && is_upper(s[i + 1]) {
            (TokenKind::TypeIdent, run_end(s, i + 2, ByteClass::TypeIdentBody))
        } else if i + 1 < s.len() && is_lower(s[i + 1]) {
            let e = run_end(s, i + 2, ByteClass::IdentBody);
            (spec_ident_kind(s.subrange(i, e)), e)
        } else {
            (TokenKind::Error, i + 1)
        }
    } else {
        (TokenKind::Error, i + 1)
    }
}

/// The tokens of `s` from position `i` on, in source order. The end of each
/// token is forced past its start and into the input, so that lexing always
/// advances; the lexer's rules respect those bounds anyway.
pub open spec fn spec_lex(s: Seq<u8>, i: int) -> Seq<Token>
    decreases s.len() - i,
{
    if !(0 <= i < s.len()) {
        Seq::empty()
    } else if is_whitespace(s[i]) {
        spec_lex(s, i + 1)
    } else {
        let ke = spec_token_at(s, i);
        let e = if ke.1 <= i {
            i + 1
        } else if ke.1 > s.len() {
            s.len() as int
        } else {
            ke.1
        };
        seq![Token { kind: ke.0, start: i as usize, end: e as usize }] + spec_lex(s, e)
    }
}

/// The tokens of the whole input, in source order.
pub open spec fn spec_tokens(s: Seq<u8>) -> Seq<Token> {
    spec_lex(s, 0)
}

/// The kind of the identifier whose bytes are `s[start..end]`.
fn ident_kind(s: &[u8], start: usize, end: usize) -> (k: TokenKind)
    requires
        start < end <= s@.len(),
    ensures
        k == spec_ident_kind(s@.subrange(start as int, end as int)),
{
    let n = end - start;
    if n == 2 && s[start] == 102 && s[start + 1] == 110 {  // fn
        TokenKind::Fn
    } else if n == 6 && s[start] == 115 && s[start + 1] == 116 && s[start + 2] == 114 && s[start
        + 3] == 117 && s[start + 4] == 99 && s[start + 5] == 116 {  // struct
        TokenKind::Struct
    } else if n == 5 && s[start] == 116 && s[start + 1] == 114 && s[start + 2] == 97 && s[start
        + 3] == 105 && s[start + 4] == 116 {  // trait
        TokenKind::Trait
    } else if n == 3 && s[start] == 108 && s[start + 1] == 101 && s[start + 2] == 116 {  // let
        TokenKind::Let
    } else if n == 3 && s[start] == 117 && s[start + 1] == 115 && s[start + 2] == 101 {  // use
        TokenKind::Use
    } else if n == 4 && s[start] == 116 && s[start + 1] == 121 && s[start + 2] == 112 && s[start
        + 3] == 101 {  // type
        TokenKind::Type
    } else if is_primitive_ident(s, start, end) {
        TokenKind::PrimIdent
    } else {
        TokenKind::Ident
    }
}

/// Whether the identifier whose bytes are `s[start..end]` names a primitive
/// type.
fn is_primitive_ident(s: &[u8], start: usize, end: usize) -> (r: bool)
    requires
        start < end <= s@.len(),
    ensures
        r == is_primitive_word(s@.subrange(start as int, end as int)),
{
    let n = end - start;
    if n == 2 {
        (s[start] == 117 && s[start + 1] == 56)  // u8
        || (s[start] == 105 && s[start + 1] == 56)  // i8
    } else if n == 3 {
        let a = s[start];
        let b = s[start + 1];
        let c = s[start + 2];
        ((a == 117 || a == 105) && ((b == 49 && c == 54) || (b == 51 && c == 50) || (b == 54 && c
            == 52)))  // u16 u32 u64 i16 i32 i64
        || (a == 102 && ((b == 51 && c == 50) || (b == 54 && c == 52)))  // f32 f64
        || (a == 115 && b == 116 && c == 114)  // str
    } else if n == 4 {
        ((s[start] == 117 || s[start] == 105) && s[start + 1] == 49 && s[start + 2] == 50 && s[
            start + 3] == 56)  // u128 i128
        || (s[start] == 98 && s[start + 1] == 111 && s[start + 2] == 111 && s[start + 3]
            == 108)  // bool
    } else if n == 5 {
        (s[start] == 117 || s[start] == 105) && s[start + 1] == 115 && s[start + 2] == 105 && s[
            start + 3] == 122 && s[start + 4] == 101  // usize isize
    } else {
        false
    }
}

/// The position of the first `"` at or after `start`, or the input's length.
fn find_quote(s: &[u8], start: usize) -> (r: usize)
    requires
        start <= s@.len(),
    ensures
        r as int == quote_end(s@, start as int),
        start <= r <= s@.len(),
{
    let mut i = start;
    loop
        invariant
            start <= i <= s@.len(),
            quote_end(s@, start as int) == quote_end(s@, i as int),
        ensures
            start <= i <= s@.len(),
            quote_end(s@, start as int) == i as int,
        decreases s@.len() - i,
    {
        if i < s.len() {
            if s[i] == B_DQUOTE {
                break ;
            } else {
                i = i + 1;
            }
        } else {
            break ;
        }
    }
    i
}

/// The kind and the end of the token that starts at `i`, a non-whitespace
/// position within the input.
fn token_at(s: &[u8], i: usize) -> (r: (TokenKind, usize))
    requires
        i < s@.len(),
        !is_whitespace(s@[i as int]),
    ensures
        r.0 == spec_token_at(s@, i as int).0,
        r.1 as int == spec_token_at(s@, i as int).1,
        i < r.1 <= s@.len(),
{
    proof {
        reveal(spec_token_at);
    }
    let b = s[i];
    if b >= 48 && b <= 57 {  // a decimal digit
        (TokenKind::NumberLit, number_end(s, i))
    } else if b == B_DQUOTE {
        let q = find_quote(s, i + 1);
        if q < s.len() {
            (TokenKind::StrLit, q + 1)
        } else {
            (TokenKind::Error, i + 1)
        }
    } else if b == B_SQUOTE {
        if s.len() - i > 2 && s[i + 2] == B_SQUOTE {
            (TokenKind::CharLit, i + 3)
        } else {
            let j = if i + 1 < s.len() && s[i + 1] == B_UNDERSCORE {
                i + 2
            } else {
                i + 1
            };
            if j < s.len() && s[j] >= 97 && s[j] <= 122 {  // a lowercase letter
                (TokenKind::TickIdent, scan_run(s, j + 1, ByteClass::IdentBody))
            } else {
                (TokenKind::Error, i + 1)
            }
        }
    } else if b == B_OPEN_PAREN {
        (TokenKind::OpenParen, i + 1)
    } else if b == B_CLOSE_PAREN {
        (TokenKind::CloseParen, i + 1)
    } else if b == B_OPEN_BRACE {
        (TokenKind::OpenBrace, i + 1)
    } else if b == B_CLOSE_BRACE {
        (TokenKind::CloseBrace, i + 1)
    } else if b == B_EQUALS {
        (TokenKind::Equals, i + 1)
    } else if b == B_SEMI {
        (TokenKind::Semi, i + 1)
    } else if b == B_COMMA {
        (TokenKind::Comma, i + 1)
    } else if b == B_PLUS {
        (TokenKind::Plus, i + 1)
    } else if b == B_DOT {
        (TokenKind::Dot, i + 1)
    } else if b == B_QUESTION {
        (TokenKind::Question, i + 1)
    } else if b == B_STAR {
        (TokenKind::Star, i + 1)
    } else if b == B_COLON {
        if i + 1 < s.len() && s[i + 1] == B_COLON {
            (TokenKind::DoubleColon, i + 2)
        } else {
            (TokenKind::Colon, i + 1)
        }
    } else if b == B_DASH {
        if i + 1 < s.len() && s[i + 1] == B_GT {
            (TokenKind::ThinArrow, i + 2)
        } else {
            (TokenKind::Error, i + 1)
        }
    } else if b == B_AMP {
        if s.len() - i > 3 && s[i + 1] == B_LOW_M && s[i + 2] == B_LOW_U && s[i + 3] == B_LOW_T {
            (TokenKind::AmpMut, i + 4)
        } else {
            (TokenKind::Amp, i + 1)
        }
    } else if b >= 65 && b <= 90 {  // an uppercase letter
        (TokenKind::TypeIdent, scan_run(s, i + 1, ByteClass::TypeIdentBody))
    } else if b >= 97 && b <= 122 {  // a lowercase letter
        let e = scan_run(s, i + 1, ByteClass::IdentBody);
        (ident_kind(s, i, e), e)
    } else if b == B_UNDERSCORE {
        if i + 1 < s.len() && s[i + 1] >= 65 && s[i + 1] <= 90 {
            (TokenKind::TypeIdent, scan_run(s, i + 2, ByteClass::TypeIdentBody))
        } else if i + 1 < s.len() && s[i + 1] >= 97 && s[i + 1] <= 122 {
            let e = scan_run(s, i + 2, ByteClass::IdentBody);
            (ident_kind(s, i, e), e)
        } else {
            (TokenKind::Error, i + 1)
        }
    } else {
        (TokenKind::Error, i + 1)
    }
}

/// Lex a whole byte slice into tokens, in source order.
pub fn lex_bytes(s: &[u8]) -> (r: Vec<Token>)
    ensures
        r@ == spec_tokens(s@),
{
    let mut out: Vec<Token> = Vec::new();
    let mut i: usize = 0;
    loop
        invariant
            i <= s@.len(),
            out@ + spec_lex(s@, i as int) == spec_tokens(s@),
        ensures
            out@ == spec_tokens(s@),
        decreases s@.len() - i,
    {
        if i >= s.len() {
            proof {
                assert(out@ + spec_lex(s@, i as int) =~= out@);
            }
            break ;
        }
        if byte_in_class(ByteClass::Whitespace, s[i]) {
            i = i + 1;
        } else {
            let ghost out0 = out@;
            let ghost i0 = i as int;
            let ke = token_at(s, i);
            let t = Token { kind: ke.0, start: i, end: ke.1 };
            out.push(t);
            proof {
                assert(out@ + spec_lex(s@, ke.1 as int) =~= out0 + spec_lex(s@, i0));
            }
            i = ke.1;
        }
    }
    out
}

/// Lex a string into tokens, in source order.
pub fn tokenize(s: &str) -> (r: Vec<Token>)
    ensures
        r@ == spec_tokens(s.spec_bytes()),
{
    lex_bytes(s.as_bytes())
}

/// Lex a string into tokens, reversed, so that a stack that pops from the
/// vector's tail hands them out in source order.
pub fn lex(s: &str) -> (r: Vec<Token>)
    ensures
        r@ == spec_tokens(s.spec_bytes()).reverse(),
{
    let fwd = tokenize(s);
    let mut out: Vec<Token> = Vec::new();
    let mut j = fwd.len();
    while j > 0
        invariant
            j <= fwd@.len(),
            out@.len() == fwd@.len() - j,
            forall|k: int|
                0 <= k < out@.len() ==> out@[k] == fwd@[fwd@.len() - 1 - k],
        decreases j,
    {
        j = j - 1;
        out.push(fwd[j]);
    }
    proof {
        assert(out@ =~= fwd@.reverse());
    }
    out
}

} // verus!
