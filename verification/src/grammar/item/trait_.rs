//! Trait items: `trait Name { item* }`. Traits nest item declarations, so
//! this rule recurses back into item dispatch.

use crate::grammar::item::{parse_item, spec_item};
use crate::parser::{pstate, sp_at, sp_push, PState, Parser};
use crate::span::HighlightGroup;
use crate::token::TokenKind;
use vstd::prelude::*;

verus! {

/// The state after a trait's nested items are parsed at `st`: items until
/// the closing brace (left for the trait rule) or the end of the input.
pub open spec fn spec_trait_items(st: PState) -> PState
    decreases st.0.len(), 8int,
{
    if st.0.len() == 0 {
        st
    } else if st.0.last().kind == TokenKind::CloseBrace {
        st
    } else {
        let st2 = spec_item(st);
        if st2.0.len() < st.0.len() {
            spec_trait_items(st2)
        } else {
            st2
        }
    }
}

/// The state after a trait item is parsed at `st`: keyword, interface name,
/// open brace, nested items, close brace.
pub open spec fn spec_trait_item(st: PState) -> PState
    decreases st.0.len(), 6int,
{
    if st.0.len() == 0 {
        st
    } else {
        let st1 = sp_push(st, TokenKind::Trait, HighlightGroup::OtherKeyword);
        let st2 = sp_push(st1, TokenKind::TypeIdent, HighlightGroup::InterfaceDef);
        let st3 = sp_push(st2, TokenKind::OpenBrace, HighlightGroup::Delimiter);
        let st4 = spec_trait_items(st3);
        sp_push(st4, TokenKind::CloseBrace, HighlightGroup::Delimiter)
    }
}

/// Parse a trait item.
pub fn parse_trait(p: &mut Parser)
    requires
        sp_at(old(p).tokens@, TokenKind::Trait),
    ensures
        pstate(*final(p)) == spec_trait_item(pstate(*old(p))),
        final(p).tokens@.len() < old(p).tokens@.len(),
    decreases p.tokens@.len(), 6int,
{
    p.push(TokenKind::Trait, HighlightGroup::OtherKeyword);
    p.push(TokenKind::TypeIdent, HighlightGroup::InterfaceDef);
    p.push(TokenKind::OpenBrace, HighlightGroup::Delimiter);
    let ghost st3 = pstate(*p);
    loop
        invariant_except_break
            spec_trait_items(pstate(*p)) == spec_trait_items(st3),
            p.tokens@.len() <= st3.0.len(),
            st3.0.len() < old(p).tokens@.len(),
        ensures
            pstate(*p) == spec_trait_items(st3),
            p.tokens@.len() <= st3.0.len() < old(p).tokens@.len(),
        decreases p.tokens@.len(),
    {
        if p.at_end() {
            break ;
        }
        if p.at(TokenKind::CloseBrace) {
            break ;
        }
        parse_item(p);
    }
    p.push(TokenKind::CloseBrace, HighlightGroup::Delimiter);
}

} // verus!
