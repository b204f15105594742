//! Expressions: identifiers, calls, literals, tuples, prefix and postfix
//! operators.
//!
//! An identifier followed by an open parenthesis is a function call;
//! otherwise it is a variable definition in pattern position and a variable
//! use in value position. The position flag is threaded explicitly through
//! every expression call.

use crate::parser::{pstate, sp_at, sp_eat, sp_push, PState, Parser};
use crate::span::{span_for, HighlightGroup};
use crate::token::TokenKind;
use vstd::prelude::*;

verus! {

/// The state after one expression is parsed at `st`: the primary form,
/// then any postfix chain.
pub open spec fn spec_expr(st: PState, is_pattern: bool) -> PState
    decreases st.0.len(), 2int,
{
    if st.0.len() == 0 {
        st
    } else {
        let k = st.0.last().kind;
        let stp = if k == TokenKind::Ident {
            let var = st.0.last();
            let st1 = (st.0.drop_last(), st.1);
            if sp_at(st1.0, TokenKind::OpenParen) {
                spec_tuple((st1.0, st1.1.push(span_for(var, HighlightGroup::FunctionCall))), false)
            } else {
                (
                    st1.0,
                    st1.1.push(
                        span_for(
                            var,
                            if is_pattern {
                                HighlightGroup::VariableDef
                            } else {
                                HighlightGroup::VariableUse
                            },
                        ),
                    ),
                )
            }
        } else if k == TokenKind::TypeIdent {
            let name = st.0.last();
            let st1 = (st.0.drop_last(), st.1.push(span_for(name, HighlightGroup::TyUse)));
            if sp_at(st1.0, TokenKind::OpenBrace) {
                spec_struct_fields(sp_eat(st1, HighlightGroup::Delimiter))
            } else if sp_at(st1.0, TokenKind::OpenParen) {
                spec_tuple(st1, false)
            } else {
                st1
            }
        } else if k == TokenKind::NumberLit {
            sp_eat(st, HighlightGroup::Number)
        } else if k == TokenKind::StrLit {
            sp_eat(st, HighlightGroup::StringLit)
        } else if k == TokenKind::CharLit {
            sp_eat(st, HighlightGroup::CharLit)
        } else if k == TokenKind::OpenParen {
            spec_tuple(st, is_pattern)
        } else if k == TokenKind::Star || k == TokenKind::Amp || k == TokenKind::AmpMut {
            spec_expr(sp_eat(st, HighlightGroup::PointerOper), is_pattern)
        } else {
            sp_eat(st, HighlightGroup::Error)
        };
        if stp.0.len() < st.0.len() {
            spec_postfix(stp)
        } else {
            stp
        }
    }
}

/// The state after a postfix chain is parsed at `st`: member accesses and
/// method calls after `.`, and the try operator `?`, disambiguated by one
/// token of lookahead after the dot.
pub open spec fn spec_postfix(st: PState) -> PState
    decreases st.0.len(), 0int,
{
    if sp_at(st.0, TokenKind::Dot) {
        let st1 = sp_eat(st, HighlightGroup::MemberOper);
        let st2 = if sp_at(st1.0, TokenKind::Ident) {
            let name = st1.0.last();
            let st1b = (st1.0.drop_last(), st1.1);
            if sp_at(st1b.0, TokenKind::OpenParen) {
                spec_tuple((st1b.0, st1b.1.push(span_for(name, HighlightGroup::FunctionCall))), false)
            } else {
                (st1b.0, st1b.1.push(span_for(name, HighlightGroup::MemberUse)))
            }
        } else {
            st1
        };
        if st2.0.len() < st.0.len() {
            spec_postfix(st2)
        } else {
            st2
        }
    } else if sp_at(st.0, TokenKind::Question) {
        let st1 = sp_eat(st, HighlightGroup::OtherOper);
        if st1.0.len() < st.0.len() {
            spec_postfix(st1)
        } else {
            st1
        }
    } else {
        st
    }
}

/// The state after a struct literal's named fields are parsed at `st`, the
/// open brace already consumed: `name`, `:`, a value expression and an
/// optional comma, repeated until the closing brace or the end of the
/// input.
pub open spec fn spec_struct_fields(st: PState) -> PState
    decreases st.0.len(), 3int,
{
    if st.0.len() == 0 {
        st
    } else if st.0.last().kind == TokenKind::CloseBrace {
        sp_eat(st, HighlightGroup::Delimiter)
    } else {
        let st2 = if st.0.last().kind == TokenKind::Ident {
            let name = st.0.last();
            let st1 = (st.0.drop_last(), st.1.push(span_for(name, HighlightGroup::MemberUse)));
            let st1b = sp_push(st1, TokenKind::Colon, HighlightGroup::Separator);
            let st1c = spec_expr(st1b, false);
            if sp_at(st1c.0, TokenKind::Comma) {
                sp_eat(st1c, HighlightGroup::Separator)
            } else {
                st1c
            }
        } else {
            sp_eat(st, HighlightGroup::Error)
        };
        if st2.0.len() < st.0.len() {
            spec_struct_fields(st2)
        } else {
            st2
        }
    }
}

/// The state after a parenthesised expression or tuple is parsed at `st`.
pub open spec fn spec_tuple(st: PState, is_pattern: bool) -> PState
    decreases st.0.len(), 1int,
{
    if st.0.len() == 0 {
        st
    } else {
        let st1 = sp_push(st, TokenKind::OpenParen, HighlightGroup::Delimiter);
        let st2 = spec_tuple_items(st1, is_pattern);
        sp_push(st2, TokenKind::CloseParen, HighlightGroup::Delimiter)
    }
}

/// The state after the elements of a tuple are parsed at `st`: separators
/// and element expressions until the closing parenthesis, or the end of the
/// input for a truncated tuple.
pub open spec fn spec_tuple_items(st: PState, is_pattern: bool) -> PState
    decreases st.0.len(), 3int,
{
    if st.0.len() == 0 {
        st
    } else {
        let st1 = if sp_at(st.0, TokenKind::Comma) {
            sp_eat(st, HighlightGroup::Separator)
        } else {
            st
        };
        if st1.0.len() == 0 {
            st1
        } else if sp_at(st1.0, TokenKind::CloseParen) {
            st1
        } else {
            let st2 = spec_expr(st1, is_pattern);
            if st2.0.len() < st.0.len() {
                spec_tuple_items(st2, is_pattern)
            } else {
                st2
            }
        }
    }
}

/// Parse one expression. In pattern position a bare identifier defines a
/// variable; in value position it uses one.
pub fn parse_expr(p: &mut Parser, is_pattern: bool)
    ensures
        pstate(*final(p)) == spec_expr(pstate(*old(p)), is_pattern),
        final(p).tokens@.len() <= old(p).tokens@.len(),
        old(p).tokens@.len() > 0 ==> final(p).tokens@.len() < old(p).tokens@.len(),
    decreases p.tokens@.len(), 2int,
{
    let t = match p.peek() {
        Some(t) => t,
        None => {
            return ;
        },
    };
    match t.kind {
        TokenKind::Ident => {
            let var = p.next().unwrap();
            if p.at(TokenKind::OpenParen) {
                p.output.push(span_for_exec(var, HighlightGroup::FunctionCall));
                parse_tuple(p, false);
            } else {
                let group = if is_pattern {
                    HighlightGroup::VariableDef
                } else {
                    HighlightGroup::VariableUse
                };
                p.output.push(span_for_exec(var, group));
            }
        },
        TokenKind::TypeIdent => {
            let name = p.next().unwrap();
            p.output.push(span_for_exec(name, HighlightGroup::TyUse));
            if p.at(TokenKind::OpenBrace) {
                p.eat(HighlightGroup::Delimiter);
                parse_struct_fields(p);
            } else if p.at(TokenKind::OpenParen) {
                parse_tuple(p, false);
            }
        },
        TokenKind::NumberLit => p.eat(HighlightGroup::Number),
        TokenKind::StrLit => p.eat(HighlightGroup::StringLit),
        TokenKind::CharLit => p.eat(HighlightGroup::CharLit),
        TokenKind::OpenParen => parse_tuple(p, is_pattern),
        TokenKind::Star | TokenKind::Amp | TokenKind::AmpMut => {
            p.eat(HighlightGroup::PointerOper);
            parse_expr(p, is_pattern);
        },
        _ => p.eat(HighlightGroup::Error),
    }
    parse_postfix(p);
}

/// Parse a postfix chain: `.name` member accesses, `.name(...)` method
/// calls, and `?`.
fn parse_postfix(p: &mut Parser)
    ensures
        pstate(*final(p)) == spec_postfix(pstate(*old(p))),
        final(p).tokens@.len() <= old(p).tokens@.len(),
    decreases p.tokens@.len(), 0int,
{
    let ghost st0 = pstate(*p);
    loop
        invariant_except_break
            spec_postfix(pstate(*p)) == spec_postfix(st0),
            p.tokens@.len() <= old(p).tokens@.len(),
            st0 == pstate(*old(p)),
        ensures
            pstate(*p) == spec_postfix(st0),
            p.tokens@.len() <= st0.0.len(),
        decreases p.tokens@.len(),
    {
        if p.at(TokenKind::Dot) {
            p.eat(HighlightGroup::MemberOper);
            if p.at(TokenKind::Ident) {
                let name = p.next().unwrap();
                if p.at(TokenKind::OpenParen) {
                    p.output.push(span_for_exec(name, HighlightGroup::FunctionCall));
                    parse_tuple(p, false);
                } else {
                    p.output.push(span_for_exec(name, HighlightGroup::MemberUse));
                }
            }
        } else if p.at(TokenKind::Question) {
            p.eat(HighlightGroup::OtherOper);
        } else {
            break ;
        }
    }
}

/// Parse a struct literal's named fields, the open brace already consumed.
pub fn parse_struct_fields(p: &mut Parser)
    ensures
        pstate(*final(p)) == spec_struct_fields(pstate(*old(p))),
        final(p).tokens@.len() <= old(p).tokens@.len(),
    decreases p.tokens@.len(), 3int,
{
    let ghost st0 = pstate(*p);
    loop
        invariant_except_break
            spec_struct_fields(pstate(*p)) == spec_struct_fields(st0),
            p.tokens@.len() <= old(p).tokens@.len(),
            st0 == pstate(*old(p)),
        ensures
            pstate(*p) == spec_struct_fields(st0),
            p.tokens@.len() <= st0.0.len(),
        decreases p.tokens@.len(),
    {
        if p.at_end() {
            break ;
        }
        if p.at(TokenKind::CloseBrace) {
            p.eat(HighlightGroup::Delimiter);
            break ;
        }
        if p.at(TokenKind::Ident) {
            let name = p.next().unwrap();
            p.output.push(span_for_exec(name, HighlightGroup::MemberUse));
            p.push(TokenKind::Colon, HighlightGroup::Separator);
            parse_expr(p, false);
            if p.at(TokenKind::Comma) {
                p.eat(HighlightGroup::Separator);
            }
        } else {
            p.eat(HighlightGroup::Error);
        }
    }
}

/// Parse a parenthesised expression or tuple: the delimiters, the comma
/// separators, and the element expressions.
pub fn parse_tuple(p: &mut Parser, is_pattern: bool)
    requires
        sp_at(old(p).tokens@, TokenKind::OpenParen),
    ensures
        pstate(*final(p)) == spec_tuple(pstate(*old(p)), is_pattern),
        final(p).tokens@.len() < old(p).tokens@.len(),
    decreases p.tokens@.len(), 1int,
{
    p.push(TokenKind::OpenParen, HighlightGroup::Delimiter);
    let ghost st1 = pstate(*p);
    loop
        invariant_except_break
            spec_tuple_items(pstate(*p), is_pattern) == spec_tuple_items(st1, is_pattern),
            p.tokens@.len() <= st1.0.len(),
            st1.0.len() < old(p).tokens@.len(),
        ensures
            pstate(*p) == spec_tuple_items(st1, is_pattern),
            p.tokens@.len() <= st1.0.len() < old(p).tokens@.len(),
        decreases p.tokens@.len(),
    {
        if p.at(TokenKind::Comma) {
            p.eat(HighlightGroup::Separator);
        }
        if p.at_end() {
            break ;
        }
        if p.at(TokenKind::CloseParen) {
            break ;
        }
        parse_expr(p, is_pattern);
    }
    p.push(TokenKind::CloseParen, HighlightGroup::Delimiter);
}

/// The classified span of an already-consumed token.
fn span_for_exec(t: crate::token::Token, group: HighlightGroup) -> (r: crate::span::HighlightedSpan)
    ensures
        r == span_for(t, group),
{
    crate::span::HighlightedSpan { start: t.start, end: t.end, group: Some(group) }
}

} // verus!
