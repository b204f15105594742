use hi::lexer::tokenize;
use hi::number::{binary, binary_lit, decimal, decimal_lit, hexadecimal, hexadecimal_lit, octal, octal_lit};
use hi::parser::Parser;
use hi::span::{HighlightGroup, HighlightedSpan};
use hi::token::TokenKind;

fn sp(start: usize, end: usize, group: HighlightGroup) -> HighlightedSpan {
    HighlightedSpan { start, end, group: Some(group) }
}

#[test]
fn parse_zeros() {
    assert_eq!(binary(b"000", 0), 3);
}

#[test]
fn parse_ones() {
    assert_eq!(binary(b"11", 0), 2);
}

#[test]
fn parse_ones_and_zeros() {
    assert_eq!(binary(b"11010001100101110110011011001101111", 0), 35);
}

#[test]
fn parse_digits() {
    assert_eq!(decimal(b"1234567890", 0), 10);
}

#[test]
fn parse_digits_between_0_and_9() {
    assert_eq!(hexadecimal(b"1234567890", 0), 10);
}

#[test]
fn parse_digits_between_a_and_f() {
    assert_eq!(hexadecimal(b"abcdef", 0), 6);
}

#[test]
#[allow(non_snake_case)]
fn parse_digits_between_A_and_F() {
    assert_eq!(hexadecimal(b"ABCDEF", 0), 6);
}

#[test]
fn parse_digits_between_0_and_8() {
    assert_eq!(octal(b"01234567", 0), 8);
}

#[test]
fn cannot_parse_digits_above_and_including_8() {
    assert_eq!(octal(b"89", 0), 0);
}

#[test]
fn parse_hexadecimal_literal() {
    let s = b"0xDEADBEEF";
    assert_eq!(hexadecimal_lit(s, 0), Some(10));
    assert_eq!(&s[0..2], b"0x");
    assert_eq!(&s[2..10], b"DEADBEEF");
}

#[test]
fn parse_octal_literal() {
    let s = b"0o1234567";
    assert_eq!(octal_lit(s, 0), Some(9));
    assert_eq!(&s[0..2], b"0o");
    assert_eq!(&s[2..9], b"1234567");
}

#[test]
fn parse_binary_literal() {
    let s = b"0b010101";
    assert_eq!(binary_lit(s, 0), Some(8));
    assert_eq!(&s[0..2], b"0b");
    assert_eq!(&s[2..8], b"010101");
}

#[test]
fn parse_decimal_literal() {
    assert_eq!(decimal_lit(b"123456789", 0), Some(9));
}

#[test]
fn parse_variable() {
    let mut parser = Parser::new("foobar");
    hi::grammar::parse_expr(&mut parser, false);
    assert_eq!(parser.output, vec![sp(0, 6, HighlightGroup::VariableUse)]);
}

#[test]
fn prefixed_literal_without_digits_falls_back_to_decimal() {
    assert_eq!(hexadecimal_lit(b"0x", 0), None);
    assert_eq!(decimal_lit(b"0x", 0), Some(1));
    let toks = tokenize("0x");
    assert_eq!(toks[0].kind, TokenKind::NumberLit);
    assert_eq!((toks[0].start, toks[0].end), (0, 1));
    assert_eq!(toks[1].kind, TokenKind::Ident);
}

#[test]
fn prefixed_bases_take_priority_over_decimal() {
    let toks = tokenize("0b01 0o7 0x9");
    assert_eq!(toks.len(), 3);
    assert_eq!((toks[0].start, toks[0].end), (0, 4));
    assert_eq!((toks[1].start, toks[1].end), (5, 8));
    assert_eq!((toks[2].start, toks[2].end), (9, 12));
}

#[test]
fn parse_u32() {
    let toks = tokenize("u32");
    assert_eq!(toks.len(), 1);
    assert_eq!(toks[0].kind, TokenKind::PrimIdent);
    let out = Parser::new("fn f() -> u32").parse();
    assert_eq!(out[5], sp(10, 13, HighlightGroup::PrimitiveTy));
}

#[test]
fn parse_i32() {
    let toks = tokenize("i32");
    assert_eq!(toks.len(), 1);
    assert_eq!(toks[0].kind, TokenKind::PrimIdent);
    let out = Parser::new("fn f() -> i32").parse();
    assert_eq!(out[5], sp(10, 13, HighlightGroup::PrimitiveTy));
}

#[test]
fn parse_bool() {
    let toks = tokenize("bool");
    assert_eq!(toks.len(), 1);
    assert_eq!(toks[0].kind, TokenKind::PrimIdent);
    let out = Parser::new("fn f() -> bool").parse();
    assert_eq!(out[5], sp(10, 14, HighlightGroup::PrimitiveTy));
}

#[test]
fn parse_str() {
    let toks = tokenize("str");
    assert_eq!(toks.len(), 1);
    assert_eq!(toks[0].kind, TokenKind::PrimIdent);
    let out = Parser::new("fn f() -> str").parse();
    assert_eq!(out[5], sp(10, 13, HighlightGroup::PrimitiveTy));
}

#[test]
fn parse_non_primitive_type() {
    let toks = tokenize("String");
    assert_eq!(toks.len(), 1);
    assert_eq!(toks[0].kind, TokenKind::TypeIdent);
    let out = Parser::new("fn f() -> String").parse();
    assert_eq!(out[5], sp(10, 16, HighlightGroup::TyUse));
}

#[test]
fn primitive_name_with_suffix_is_an_identifier() {
    let toks = tokenize("u32x bools");
    assert_eq!(toks[0].kind, TokenKind::Ident);
    assert_eq!(toks[1].kind, TokenKind::Ident);
}
