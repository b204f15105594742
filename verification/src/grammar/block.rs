//! Blocks: `{`, statements, `}`.

use crate::grammar::stmt::{parse_stmt, spec_stmt};
use crate::parser::{pstate, sp_at, sp_eat, PState, Parser};
use crate::span::HighlightGroup;
use crate::token::TokenKind;
use vstd::prelude::*;

verus! {

/// The state after a block is parsed at `st`: the open delimiter, then
/// statements until the matching close brace or the end of the input.
pub open spec fn spec_block(st: PState) -> PState
    decreases st.0.len(), 5int,
{
    let st1 = sp_eat(st, HighlightGroup::Delimiter);
    if st1.0.len() < st.0.len() {
        spec_block_items(st1)
    } else {
        st1
    }
}

/// The state after a block's statements are parsed at `st`. On every
/// iteration the conditions are checked in this order: end of input
/// (a truncated block simply stops, with no error for the missing brace),
/// close brace (consumed as a delimiter), otherwise one statement.
pub open spec fn spec_block_items(st: PState) -> PState
    decreases st.0.len(), 6int,
{
    if st.0.len() == 0 {
        st
    } else if st.0.last().kind == TokenKind::CloseBrace {
        sp_eat(st, HighlightGroup::Delimiter)
    } else {
        let st2 = spec_stmt(st);
        if st2.0.len() < st.0.len() {
            spec_block_items(st2)
        } else {
            st2
        }
    }
}

/// Parse a block.
pub fn parse_block(p: &mut Parser)
    requires
        sp_at(old(p).tokens@, TokenKind::OpenBrace),
    ensures
        pstate(*final(p)) == spec_block(pstate(*old(p))),
        final(p).tokens@.len() < old(p).tokens@.len(),
    decreases p.tokens@.len(), 5int,
{
    p.eat(HighlightGroup::Delimiter);
    let ghost st1 = pstate(*p);
    loop
        invariant_except_break
            spec_block_items(pstate(*p)) == spec_block_items(st1),
            p.tokens@.len() <= st1.0.len(),
            st1.0.len() < old(p).tokens@.len(),
        ensures
            pstate(*p) == spec_block_items(st1),
            p.tokens@.len() <= st1.0.len() < old(p).tokens@.len(),
        decreases p.tokens@.len(),
    {
        if p.at_end() {
            break ;
        }
        if p.at(TokenKind::CloseBrace) {
            p.eat(HighlightGroup::Delimiter);
            break ;
        }
        parse_stmt(p);
    }
}

} // verus!
