//! Function items: `fn name() [-> Type] (block | `;` | error)`.

use crate::grammar::block::{parse_block, spec_block};
use crate::parser::{pstate, sp_at, sp_eat, sp_push, PState, Parser};
use crate::span::{span_for, HighlightGroup, HighlightedSpan};
use crate::token::TokenKind;
use vstd::prelude::*;

verus! {

/// The state after the optional return-type clause is parsed at `st`. When
/// `->` is present but no type follows, the arrow itself is emitted as an
/// error and nothing stands for the missing type: only real tokens can
/// bound a span.
pub open spec fn spec_fn_return_type(st: PState) -> PState {
    if sp_at(st.0, TokenKind::ThinArrow) {
        let arrow = st.0.last();
        let st1 = (st.0.drop_last(), st.1);
        if sp_at(st1.0, TokenKind::TypeIdent) {
            (
                st1.0.drop_last(),
                st1.1.push(span_for(arrow, HighlightGroup::Separator)).push(
                    span_for(st1.0.last(), HighlightGroup::TyUse),
                ),
            )
        } else if sp_at(st1.0, TokenKind::PrimIdent) {
            (
                st1.0.drop_last(),
                st1.1.push(span_for(arrow, HighlightGroup::Separator)).push(
                    span_for(st1.0.last(), HighlightGroup::PrimitiveTy),
                ),
            )
        } else {
            (st1.0, st1.1.push(span_for(arrow, HighlightGroup::Error)))
        }
    } else {
        st
    }
}

/// The state after a function item is parsed at `st`: keyword, name,
/// parameter delimiters, optional return type, then a body chosen by one
/// token of lookahead: a terminator, a block, or a single error token.
pub open spec fn spec_fn_item(st: PState) -> PState
    decreases st.0.len(), 6int,
{
    if st.0.len() == 0 {
        st
    } else {
        let st1 = sp_push(st, TokenKind::Fn, HighlightGroup::OtherKeyword);
        let st2 = sp_push(st1, TokenKind::Ident, HighlightGroup::FunctionDef);
        let st3 = sp_push(st2, TokenKind::OpenParen, HighlightGroup::Delimiter);
        let st4 = sp_push(st3, TokenKind::CloseParen, HighlightGroup::Delimiter);
        let st5 = spec_fn_return_type(st4);
        if sp_at(st5.0, TokenKind::Semi) {
            sp_push(st5, TokenKind::Semi, HighlightGroup::Terminator)
        } else if sp_at(st5.0, TokenKind::OpenBrace) {
            spec_block(st5)
        } else {
            sp_eat(st5, HighlightGroup::Error)
        }
    }
}

/// Parse a function item.
pub fn parse_fn(p: &mut Parser)
    requires
        sp_at(old(p).tokens@, TokenKind::Fn),
    ensures
        pstate(*final(p)) == spec_fn_item(pstate(*old(p))),
        final(p).tokens@.len() < old(p).tokens@.len(),
    decreases p.tokens@.len(), 6int,
{
    p.push(TokenKind::Fn, HighlightGroup::OtherKeyword);
    p.push(TokenKind::Ident, HighlightGroup::FunctionDef);
    p.push(TokenKind::OpenParen, HighlightGroup::Delimiter);
    p.push(TokenKind::CloseParen, HighlightGroup::Delimiter);
    if p.at(TokenKind::ThinArrow) {
        let arrow = p.next().unwrap();
        if p.at(TokenKind::TypeIdent) {
            let ty = p.next().unwrap();
            p.output.push(
                HighlightedSpan {
                    start: arrow.start,
                    end: arrow.end,
                    group: Some(HighlightGroup::Separator),
                },
            );
            p.output.push(
                HighlightedSpan { start: ty.start, end: ty.end, group: Some(HighlightGroup::TyUse) },
            );
        } else if p.at(TokenKind::PrimIdent) {
            let ty = p.next().unwrap();
            p.output.push(
                HighlightedSpan {
                    start: arrow.start,
                    end: arrow.end,
                    group: Some(HighlightGroup::Separator),
                },
            );
            p.output.push(
                HighlightedSpan {
                    start: ty.start,
                    end: ty.end,
                    group: Some(HighlightGroup::PrimitiveTy),
                },
            );
        } else {
            p.output.push(
                HighlightedSpan {
                    start: arrow.start,
                    end: arrow.end,
                    group: Some(HighlightGroup::Error),
                },
            );
        }
    }
    if p.at(TokenKind::Semi) {
        p.push(TokenKind::Semi, HighlightGroup::Terminator);
    } else if p.at(TokenKind::OpenBrace) {
        parse_block(p);
    } else {
        p.eat(HighlightGroup::Error);
    }
}

} // verus!
