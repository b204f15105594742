//! Tokens: the lexer's output, consumed exactly once by the parser.

use vstd::prelude::*;

verus! {

/// The closed set of token kinds the lexer can produce.
///
/// Keywords and primitive-type names are exact matches inside the
/// value-identifier class; the lexer recognises them only when the maximal
/// identifier run equals the reserved word, so `fn_foo` is one `Ident`.
#[derive(Clone, Copy, Debug, PartialEq, Eq, Structural)]
pub enum TokenKind {
    /// the keyword `fn`
    Fn,
    /// the keyword `struct`
    Struct,
    /// the keyword `trait`
    Trait,
    /// the keyword `let`
    Let,
    /// the keyword `use`
    Use,
    /// the keyword `type`
    Type,
    /// a primitive-type name such as `u32`, `bool` or `str`
    PrimIdent,
    /// a type identifier: leading uppercase, optionally after `_`
    TypeIdent,
    /// a value identifier: leading lowercase, optionally after `_`
    Ident,
    /// a lifetime identifier: a quote followed by a value identifier
    TickIdent,
    /// a number literal: decimal, or `0x`/`0o`/`0b` prefixed
    NumberLit,
    /// a string literal, quotes included
    StrLit,
    /// a character literal, quotes included
    CharLit,
    /// `(`
    OpenParen,
    /// `)`
    CloseParen,
    /// `{`
    OpenBrace,
    /// `}`
    CloseBrace,
    /// `=`
    Equals,
    /// `;`
    Semi,
    /// `,`
    Comma,
    /// `::`
    DoubleColon,
    /// `->`
    ThinArrow,
    /// `:`
    Colon,
    /// `+`
    Plus,
    /// `.`
    Dot,
    /// `?`
    Question,
    /// `&`
    Amp,
    /// `&mut`; tried ahead of the plain borrow, since `&` is a prefix of it
    AmpMut,
    /// `*`
    Star,
    /// a byte that matches no rule
    Error,
}

/// A token: a kind and the byte range of the input it covers.
#[derive(Clone, Copy, Debug, PartialEq, Eq, Structural)]
pub struct Token {
    /// the token's kind
    pub kind: TokenKind,
    /// the byte offset at which the token starts
    pub start: usize,
    /// the byte offset just past the token's last byte
    pub end: usize,
}

} // verus!
