//! Use items: `use path::to::Name;`.

use crate::parser::{pstate, sp_at, sp_eat, sp_push, PState, Parser};
use crate::span::HighlightGroup;
use crate::token::TokenKind;
use vstd::prelude::*;

verus! {

/// The state after a use path is parsed at `st`: lowercase segments are
/// module uses, an uppercase segment is a type use, and `::` separates
/// them; the path ends at the first token of no such kind.
pub open spec fn spec_use_path(st: PState) -> PState
    decreases st.0.len(),
{
    if sp_at(st.0, TokenKind::DoubleColon) {
        spec_use_path(sp_eat(st, HighlightGroup::Separator))
    } else if sp_at(st.0, TokenKind::Ident) {
        spec_use_path(sp_eat(st, HighlightGroup::ModuleUse))
    } else if sp_at(st.0, TokenKind::TypeIdent) {
        spec_use_path(sp_eat(st, HighlightGroup::TyUse))
    } else {
        st
    }
}

/// The state after a use item is parsed at `st`: keyword, path, terminator.
pub open spec fn spec_use_item(st: PState) -> PState {
    let st1 = sp_push(st, TokenKind::Use, HighlightGroup::OtherKeyword);
    let st2 = spec_use_path(st1);
    sp_push(st2, TokenKind::Semi, HighlightGroup::Terminator)
}

/// Parse a use item.
pub fn parse_use(p: &mut Parser)
    requires
        sp_at(old(p).tokens@, TokenKind::Use),
    ensures
        pstate(*final(p)) == spec_use_item(pstate(*old(p))),
        final(p).tokens@.len() < old(p).tokens@.len(),
{
    p.push(TokenKind::Use, HighlightGroup::OtherKeyword);
    let ghost st1 = pstate(*p);
    loop
        invariant_except_break
            spec_use_path(pstate(*p)) == spec_use_path(st1),
            p.tokens@.len() <= st1.0.len(),
            st1.0.len() < old(p).tokens@.len(),
        ensures
            pstate(*p) == spec_use_path(st1),
            p.tokens@.len() <= st1.0.len() < old(p).tokens@.len(),
        decreases p.tokens@.len(),
    {
        if p.at(TokenKind::DoubleColon) {
            p.eat(HighlightGroup::Separator);
        } else if p.at(TokenKind::Ident) {
            p.eat(HighlightGroup::ModuleUse);
        } else if p.at(TokenKind::TypeIdent) {
            p.eat(HighlightGroup::TyUse);
        } else {
            break ;
        }
    }
    p.push(TokenKind::Semi, HighlightGroup::Terminator);
}

} // verus!
