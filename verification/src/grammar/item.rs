//! Item dispatch: recovery until a token that begins an item.

pub mod fn_;
pub mod struct_;
pub mod trait_;
pub mod type_;
pub mod use_;

use crate::parser::{pstate, sp_eat, PState, Parser};
use crate::span::HighlightGroup;
use crate::token::TokenKind;
use fn_::{parse_fn, spec_fn_item};
use struct_::{parse_struct, spec_struct_item};
use trait_::{parse_trait, spec_trait_item};
use type_::{parse_type_alias, spec_type_item};
use use_::{parse_use, spec_use_item};
use vstd::prelude::*;

verus! {

/// Whether token kind `k` begins an item.
pub open spec fn is_item_start(k: TokenKind) -> bool {
    ||| k == TokenKind::Fn
    ||| k == TokenKind::Struct
    ||| k == TokenKind::Trait
    ||| k == TokenKind::Type
    ||| k == TokenKind::Use
}

/// The state after the item rule runs at `st`: tokens are consumed as
/// errors one at a time until one that begins an item is found and its rule
/// runs, or a close brace (left for the caller) or the end of the input
/// stops the rule. Recovery skips forward only; it never consumes past the
/// keyword that starts a valid item.
pub open spec fn spec_item(st: PState) -> PState
    decreases st.0.len(), 7int,
{
    if st.0.len() == 0 {
        st
    } else {
        let k = st.0.last().kind;
        if k == TokenKind::Fn {
            spec_fn_item(st)
        } else if k == TokenKind::Struct {
            spec_struct_item(st)
        } else if k == TokenKind::Trait {
            spec_trait_item(st)
        } else if k == TokenKind::Type {
            spec_type_item(st)
        } else if k == TokenKind::Use {
            spec_use_item(st)
        } else if k == TokenKind::CloseBrace {
            st
        } else {
            spec_item(sp_eat(st, HighlightGroup::Error))
        }
    }
}

/// Parse one item, after recovering from any error tokens in front of it.
pub fn parse_item(p: &mut Parser)
    ensures
        pstate(*final(p)) == spec_item(pstate(*old(p))),
        final(p).tokens@.len() <= old(p).tokens@.len(),
        old(p).tokens@.len() > 0 && old(p).tokens@.last().kind != TokenKind::CloseBrace
            ==> final(p).tokens@.len() < old(p).tokens@.len(),
    decreases p.tokens@.len(), 7int,
{
    loop
        invariant_except_break
            spec_item(pstate(*p)) == spec_item(pstate(*old(p))),
            p.tokens@.len() < old(p).tokens@.len() || pstate(*p) == pstate(*old(p)),
        ensures
            pstate(*p) == spec_item(pstate(*old(p))),
            p.tokens@.len() <= old(p).tokens@.len(),
            old(p).tokens@.len() > 0 && old(p).tokens@.last().kind != TokenKind::CloseBrace
                ==> p.tokens@.len() < old(p).tokens@.len(),
        decreases p.tokens@.len(),
    {
        let t = match p.peek() {
            Some(t) => t,
            None => {
                break ;
            },
        };
        match t.kind {
            TokenKind::Fn => {
                parse_fn(p);
                break ;
            },
            TokenKind::Struct => {
                parse_struct(p);
                break ;
            },
            TokenKind::Trait => {
                parse_trait(p);
                break ;
            },
            TokenKind::Type => {
                parse_type_alias(p);
                break ;
            },
            TokenKind::Use => {
                parse_use(p);
                break ;
            },
            TokenKind::CloseBrace => {
                break ;
            },
            _ => p.eat(HighlightGroup::Error),
        }
    }
}

} // verus!
