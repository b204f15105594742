//! Statements: let-statements and expression-statements.

use crate::grammar::expr::{parse_expr, spec_expr};
use crate::parser::{pstate, sp_at, sp_eat, sp_push, PState, Parser};
use crate::span::HighlightGroup;
use crate::token::TokenKind;
use vstd::prelude::*;

verus! {

/// The state after one statement is parsed at `st`. A `let` keyword opens a
/// let-statement: pattern, assignment operator, value, terminator. Anything
/// else is an expression-statement, whose terminator is consumed only when
/// the next token is not already a close brace: a statement without a
/// trailing semicolon is the block's tail expression.
pub open spec fn spec_stmt(st: PState) -> PState
    decreases st.0.len(), 4int,
{
    if sp_at(st.0, TokenKind::Let) {
        let st1 = sp_eat(st, HighlightGroup::OtherKeyword);
        let st2 = spec_expr(st1, true);
        let st3 = sp_push(st2, TokenKind::Equals, HighlightGroup::AssignOper);
        let st4 = if st3.0.len() < st.0.len() {
            spec_expr(st3, false)
        } else {
            st3
        };
        sp_push(st4, TokenKind::Semi, HighlightGroup::Terminator)
    } else {
        let st1 = spec_expr(st, false);
        if sp_at(st1.0, TokenKind::CloseBrace) {
            st1
        } else {
            sp_push(st1, TokenKind::Semi, HighlightGroup::Terminator)
        }
    }
}

/// Parse one statement.
pub fn parse_stmt(p: &mut Parser)
    ensures
        pstate(*final(p)) == spec_stmt(pstate(*old(p))),
        final(p).tokens@.len() <= old(p).tokens@.len(),
        old(p).tokens@.len() > 0 ==> final(p).tokens@.len() < old(p).tokens@.len(),
    decreases p.tokens@.len(), 4int,
{
    if p.at(TokenKind::Let) {
        p.eat(HighlightGroup::OtherKeyword);
        parse_expr(p, true);
        p.push(TokenKind::Equals, HighlightGroup::AssignOper);
        parse_expr(p, false);
        p.push(TokenKind::Semi, HighlightGroup::Terminator);
    } else {
        parse_expr(p, false);
        if !p.at(TokenKind::CloseBrace) {
            p.push(TokenKind::Semi, HighlightGroup::Terminator);
        }
    }
}

} // verus!
