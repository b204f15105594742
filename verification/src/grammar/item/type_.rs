//! Type-alias items: `type Name [= Type];`.

use crate::parser::{pstate, sp_at, sp_eat, sp_push, PState, Parser};
use crate::span::HighlightGroup;
use crate::token::TokenKind;
use vstd::prelude::*;

verus! {

/// The state after a type-alias item is parsed at `st`: keyword, type name,
/// an optional aliased type after `=`, terminator.
pub open spec fn spec_type_item(st: PState) -> PState {
    let st1 = sp_push(st, TokenKind::Type, HighlightGroup::OtherKeyword);
    let st2 = sp_push(st1, TokenKind::TypeIdent, HighlightGroup::TyDef);
    let st3 = if sp_at(st2.0, TokenKind::Equals) {
        let st2b = sp_eat(st2, HighlightGroup::AssignOper);
        if sp_at(st2b.0, TokenKind::TypeIdent) {
            sp_eat(st2b, HighlightGroup::TyUse)
        } else if sp_at(st2b.0, TokenKind::PrimIdent) {
            sp_eat(st2b, HighlightGroup::PrimitiveTy)
        } else if sp_at(st2b.0, TokenKind::Semi) {
            st2b
        } else {
            sp_eat(st2b, HighlightGroup::Error)
        }
    } else {
        st2
    };
    sp_push(st3, TokenKind::Semi, HighlightGroup::Terminator)
}

/// Parse a type-alias item.
pub fn parse_type_alias(p: &mut Parser)
    requires
        sp_at(old(p).tokens@, TokenKind::Type),
    ensures
        pstate(*final(p)) == spec_type_item(pstate(*old(p))),
        final(p).tokens@.len() < old(p).tokens@.len(),
{
    p.push(TokenKind::Type, HighlightGroup::OtherKeyword);
    p.push(TokenKind::TypeIdent, HighlightGroup::TyDef);
    if p.at(TokenKind::Equals) {
        p.eat(HighlightGroup::AssignOper);
        if p.at(TokenKind::TypeIdent) {
            p.eat(HighlightGroup::TyUse);
        } else if p.at(TokenKind::PrimIdent) {
            p.eat(HighlightGroup::PrimitiveTy);
        } else if !p.at(TokenKind::Semi) {
            // A missing aliased type leaves the terminator in place for the
            // final expectation below; anything else is one error token.
            p.eat(HighlightGroup::Error);
        }
    }
    p.push(TokenKind::Semi, HighlightGroup::Terminator);
}

} // verus!
