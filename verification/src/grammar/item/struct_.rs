//! Struct items: `struct Name;`.

use crate::parser::{pstate, sp_at, sp_push, PState, Parser};
use crate::span::HighlightGroup;
use crate::token::TokenKind;
use vstd::prelude::*;

verus! {

/// The state after a struct item is parsed at `st`: keyword, type name,
/// terminator.
pub open spec fn spec_struct_item(st: PState) -> PState {
    let st1 = sp_push(st, TokenKind::Struct, HighlightGroup::OtherKeyword);
    let st2 = sp_push(st1, TokenKind::TypeIdent, HighlightGroup::TyDef);
    sp_push(st2, TokenKind::Semi, HighlightGroup::Terminator)
}

/// Parse a struct item.
pub fn parse_struct(p: &mut Parser)
    requires
        sp_at(old(p).tokens@, TokenKind::Struct),
    ensures
        pstate(*final(p)) == spec_struct_item(pstate(*old(p))),
        final(p).tokens@.len() < old(p).tokens@.len(),
{
    p.push(TokenKind::Struct, HighlightGroup::OtherKeyword);
    p.push(TokenKind::TypeIdent, HighlightGroup::TyDef);
    p.push(TokenKind::Semi, HighlightGroup::Terminator);
}

} // verus!
