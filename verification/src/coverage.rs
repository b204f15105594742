//! The partition invariant: for an input of length `n`, the emitted spans,
//! concatenated in order, cover `[0, n)` exactly once, with no gap, no
//! overlap and no out-of-order range, whatever the input holds.
//!
//! The proof follows the pipeline. The lexer produces nonempty, ordered,
//! disjoint tokens within the input. The parser emits exactly one span per
//! consumed token, in consumption order, and consumes the whole stream. The
//! gap-attachment pass then turns that ordered list of token spans into a
//! contiguous partition.

use crate::fill::{gap_span, spec_fill};
use crate::lexer::{spec_lex, spec_token_at, spec_tokens};
use crate::parser::{sp_at, sp_eat, sp_push, PState};
use crate::span::{span_for, HighlightGroup, HighlightedSpan};
use crate::token::{Token, TokenKind};
use vstd::prelude::*;

verus! {

/// Tokens in source order, each nonempty, all within `[lo, hi]`, and
/// mutually disjoint.
pub open spec fn tokens_wf(ts: Seq<Token>, lo: int, hi: int) -> bool {
    &&& forall|k: int|
        0 <= k < ts.len() ==> lo <= (#[trigger] ts[k]).start < ts[k].end <= hi
    &&& forall|k1: int, k2: int|
        #![trigger ts[k1], ts[k2]]
        0 <= k1 && k2 == k1 + 1 && k2 < ts.len() ==> ts[k1].end <= ts[k2].start
}

/// Putting a token in front of a well-formed token list keeps it well
/// formed, provided the token is nonempty, lies after `lo`, and ends before
/// the list begins.
proof fn lemma_tokens_wf_cons(t: Token, rest: Seq<Token>, lo: int, mid: int, hi: int)
    requires
        tokens_wf(rest, mid, hi),
        lo <= t.start,
        t.start < t.end,
        t.end <= hi,
        t.end <= mid,
    ensures
        tokens_wf(seq![t] + rest, lo, hi),
{
    let ts = seq![t] + rest;
    assert forall|k: int| 0 <= k < ts.len() implies lo <= (#[trigger] ts[k]).start < ts[k].end
        <= hi by {
        if k > 0 {
            assert(ts[k] == rest[k - 1]);
        }
    }
    assert forall|k1: int, k2: int|
        #![trigger ts[k1], ts[k2]]
        0 <= k1 && k2 == k1 + 1 && k2 < ts.len() implies ts[k1].end <= ts[k2].start by {
        if k1 == 0 {
            assert(ts[1] == rest[0]);
        } else {
            assert(ts[k1] == rest[k1 - 1]);
            assert(ts[k2] == rest[k2 - 1]);
        }
    }
}

/// What the lexer produces from position `i` on is well formed: nonempty,
/// ordered, disjoint tokens between `i` and the end of the input.
pub proof fn lemma_lex_wf(s: Seq<u8>, i: int)
    requires
        0 <= i <= s.len() <= usize::MAX,
    ensures
        tokens_wf(spec_lex(s, i), i, s.len() as int),
    decreases s.len() - i,
{
    if !(0 <= i < s.len()) {
    } else if crate::scan::is_whitespace(s[i]) {
        lemma_lex_wf(s, i + 1);
    } else {
        let ke = spec_token_at(s, i);
        let e = if ke.1 <= i {
            i + 1
        } else if ke.1 > s.len() {
            s.len() as int
        } else {
            ke.1
        };
        lemma_lex_wf(s, e);
        let t = Token { kind: ke.0, start: i as usize, end: e as usize };
        assert(spec_lex(s, i) == seq![t] + spec_lex(s, e));
        lemma_tokens_wf_cons(t, spec_lex(s, e), i, e, s.len() as int);
    }
}

/// The parser step from `st` to `st2` leaves a prefix of the token stack in
/// place and appends exactly one span per consumed token, in consumption
/// order, each over its token's byte range.
pub open spec fn emits(st: PState, st2: PState) -> bool {
    &&& st2.0.len() <= st.0.len()
    &&& st2.0 == st.0.take(st2.0.len() as int)
    &&& st2.1.len() == st.1.len() + (st.0.len() - st2.0.len())
    &&& st2.1.take(st.1.len() as int) == st.1
    &&& forall|k: int|
        st.1.len() <= k < st2.1.len() ==> (#[trigger] st2.1[k]).start == st.0[st.0.len() - 1 - (k
            - st.1.len())].start && st2.1[k].end == st.0[st.0.len() - 1 - (k - st.1.len())].end
}

/// A step that consumes and emits nothing.
proof fn lemma_emits_refl(st: PState)
    ensures
        emits(st, st),
{
    assert(st.0.take(st.0.len() as int) =~= st.0);
    assert(st.1.take(st.1.len() as int) =~= st.1);
}

/// Two consecutive steps make one step.
proof fn lemma_emits_trans(a: PState, b: PState, c: PState)
    requires
        emits(a, b),
        emits(b, c),
    ensures
        emits(a, c),
{
    assert(c.0 =~= a.0.take(c.0.len() as int));
    assert(c.1.take(a.1.len() as int) =~= a.1);
    assert forall|k: int| a.1.len() <= k < c.1.len() implies (#[trigger] c.1[k]).start == a.0[
        a.0.len() - 1 - (k - a.1.len())].start && c.1[k].end == a.0[a.0.len() - 1 - (k
        - a.1.len())].end by {
        let j = a.0.len() - 1 - (k - a.1.len());
        if k < b.1.len() {
            assert(c.1[k] == c.1.take(b.1.len() as int)[k]);
            assert(c.1[k] == b.1[k]);
        } else {
            assert(b.0.len() - 1 - (k - b.1.len()) == j);
            assert(b.0[j] == a.0.take(b.0.len() as int)[j]);
        }
    }
}

/// Consuming one token and emitting its span is a step.
proof fn lemma_emits_eat(st: PState, group: HighlightGroup)
    ensures
        emits(st, sp_eat(st, group)),
{
    let st2 = sp_eat(st, group);
    if st.0.len() == 0 {
        lemma_emits_refl(st);
    } else {
        assert(st2.0 =~= st.0.take(st2.0.len() as int));
        assert(st2.1.take(st.1.len() as int) =~= st.1);
    }
}

/// The expect-or-error primitive is a step, whichever way it goes.
proof fn lemma_emits_push(st: PState, kind: TokenKind, group: HighlightGroup)
    ensures
        emits(st, sp_push(st, kind, group)),
{
    if sp_at(st.0, kind) {
        lemma_emits_eat(st, group);
    } else {
        lemma_emits_eat(st, HighlightGroup::Error);
    }
}

/// The return-type clause is a step.
proof fn lemma_return_type_emits(st: PState)
    ensures
        emits(st, crate::grammar::item::fn_::spec_fn_return_type(st)),
{
    let st2 = crate::grammar::item::fn_::spec_fn_return_type(st);
    if sp_at(st.0, TokenKind::ThinArrow) {
        let st1 = (st.0.drop_last(), st.1);
        if sp_at(st1.0, TokenKind::TypeIdent) || sp_at(st1.0, TokenKind::PrimIdent) {
            assert(st2.0 =~= st.0.take(st2.0.len() as int));
            assert(st2.1.take(st.1.len() as int) =~= st.1);
            assert(st2.1[st.1.len() as int].start == st.0[st.0.len() - 1].start);
            assert(st2.1[st.1.len() as int + 1].start == st.0[st.0.len() - 2].start);
        } else {
            assert(st2 == sp_eat(st, HighlightGroup::Error));
            lemma_emits_eat(st, HighlightGroup::Error);
        }
    } else {
        lemma_emits_refl(st);
    }
}

/// The expression rule is a step.
proof fn lemma_expr_emits(st: PState, is_pattern: bool)
    ensures
        emits(st, crate::grammar::expr::spec_expr(st, is_pattern)),
    decreases st.0.len(), 2int,
{
    if st.0.len() == 0 {
        lemma_emits_refl(st);
    } else {
        let k = st.0.last().kind;
        let stp = if k == TokenKind::Ident {
            let var = st.0.last();
            let st1 = (st.0.drop_last(), st.1);
            if sp_at(st1.0, TokenKind::OpenParen) {
                let st2 = (st1.0, st1.1.push(span_for(var, HighlightGroup::FunctionCall)));
                assert(st2 == sp_eat(st, HighlightGroup::FunctionCall));
                lemma_emits_eat(st, HighlightGroup::FunctionCall);
                lemma_tuple_emits(st2, false);
                lemma_emits_trans(st, st2, crate::grammar::expr::spec_tuple(st2, false));
                crate::grammar::expr::spec_tuple(st2, false)
            } else {
                let g = if is_pattern {
                    HighlightGroup::VariableDef
                } else {
                    HighlightGroup::VariableUse
                };
                assert((st1.0, st1.1.push(span_for(var, g))) == sp_eat(st, g));
                lemma_emits_eat(st, g);
                (st1.0, st1.1.push(span_for(var, g)))
            }
        } else if k == TokenKind::TypeIdent {
            let name = st.0.last();
            let st1 = (st.0.drop_last(), st.1.push(span_for(name, HighlightGroup::TyUse)));
            assert(st1 == sp_eat(st, HighlightGroup::TyUse));
            lemma_emits_eat(st, HighlightGroup::TyUse);
            if sp_at(st1.0, TokenKind::OpenBrace) {
                let st2 = sp_eat(st1, HighlightGroup::Delimiter);
                lemma_emits_eat(st1, HighlightGroup::Delimiter);
                lemma_emits_trans(st, st1, st2);
                lemma_struct_fields_emits(st2);
                lemma_emits_trans(st, st2, crate::grammar::expr::spec_struct_fields(st2));
                crate::grammar::expr::spec_struct_fields(st2)
            } else if sp_at(st1.0, TokenKind::OpenParen) {
                lemma_tuple_emits(st1, false);
                lemma_emits_trans(st, st1, crate::grammar::expr::spec_tuple(st1, false));
                crate::grammar::expr::spec_tuple(st1, false)
            } else {
                st1
            }
        } else if k == TokenKind::NumberLit {
            lemma_emits_eat(st, HighlightGroup::Number);
            sp_eat(st, HighlightGroup::Number)
        } else if k == TokenKind::StrLit {
            lemma_emits_eat(st, HighlightGroup::StringLit);
            sp_eat(st, HighlightGroup::StringLit)
        } else if k == TokenKind::CharLit {
            lemma_emits_eat(st, HighlightGroup::CharLit);
            sp_eat(st, HighlightGroup::CharLit)
        } else if k == TokenKind::OpenParen {
            lemma_tuple_emits(st, is_pattern);
            crate::grammar::expr::spec_tuple(st, is_pattern)
        } else if k == TokenKind::Star || k == TokenKind::Amp || k == TokenKind::AmpMut {
            let st1 = sp_eat(st, HighlightGroup::PointerOper);
            lemma_emits_eat(st, HighlightGroup::PointerOper);
            lemma_expr_emits(st1, is_pattern);
            lemma_emits_trans(st, st1, crate::grammar::expr::spec_expr(st1, is_pattern));
            crate::grammar::expr::spec_expr(st1, is_pattern)
        } else {
            lemma_emits_eat(st, HighlightGroup::Error);
            sp_eat(st, HighlightGroup::Error)
        };
        if stp.0.len() < st.0.len() {
            lemma_postfix_emits(stp);
            lemma_emits_trans(st, stp, crate::grammar::expr::spec_postfix(stp));
        }
    }
}

/// The postfix rule is a step.
proof fn lemma_postfix_emits(st: PState)
    ensures
        emits(st, crate::grammar::expr::spec_postfix(st)),
    decreases st.0.len(), 0int,
{
    if sp_at(st.0, TokenKind::Dot) {
        let st1 = sp_eat(st, HighlightGroup::MemberOper);
        lemma_emits_eat(st, HighlightGroup::MemberOper);
        let st2 = if sp_at(st1.0, TokenKind::Ident) {
            let name = st1.0.last();
            let st1b = (st1.0.drop_last(), st1.1);
            if sp_at(st1b.0, TokenKind::OpenParen) {
                let stc = (st1b.0, st1b.1.push(span_for(name, HighlightGroup::FunctionCall)));
                assert(stc == sp_eat(st1, HighlightGroup::FunctionCall));
                lemma_emits_eat(st1, HighlightGroup::FunctionCall);
                lemma_emits_trans(st, st1, stc);
                lemma_tuple_emits(stc, false);
                lemma_emits_trans(st, stc, crate::grammar::expr::spec_tuple(stc, false));
                crate::grammar::expr::spec_tuple(stc, false)
            } else {
                let stm = (st1b.0, st1b.1.push(span_for(name, HighlightGroup::MemberUse)));
                assert(stm == sp_eat(st1, HighlightGroup::MemberUse));
                lemma_emits_eat(st1, HighlightGroup::MemberUse);
                lemma_emits_trans(st, st1, stm);
                stm
            }
        } else {
            st1
        };
        if st2.0.len() < st.0.len() {
            lemma_postfix_emits(st2);
            lemma_emits_trans(st, st2, crate::grammar::expr::spec_postfix(st2));
        }
    } else if sp_at(st.0, TokenKind::Question) {
        let st1 = sp_eat(st, HighlightGroup::OtherOper);
        lemma_emits_eat(st, HighlightGroup::OtherOper);
        if st1.0.len() < st.0.len() {
            lemma_postfix_emits(st1);
            lemma_emits_trans(st, st1, crate::grammar::expr::spec_postfix(st1));
        }
    } else {
        lemma_emits_refl(st);
    }
}

/// The struct-literal fields loop is a step.
proof fn lemma_struct_fields_emits(st: PState)
    ensures
        emits(st, crate::grammar::expr::spec_struct_fields(st)),
    decreases st.0.len(), 3int,
{
    if st.0.len() == 0 {
        lemma_emits_refl(st);
    } else if st.0.last().kind == TokenKind::CloseBrace {
        lemma_emits_eat(st, HighlightGroup::Delimiter);
    } else {
        let st2 = if st.0.last().kind == TokenKind::Ident {
            let name = st.0.last();
            let st1 = (st.0.drop_last(), st.1.push(span_for(name, HighlightGroup::MemberUse)));
            assert(st1 == sp_eat(st, HighlightGroup::MemberUse));
            lemma_emits_eat(st, HighlightGroup::MemberUse);
            let st1b = sp_push(st1, TokenKind::Colon, HighlightGroup::Separator);
            lemma_emits_push(st1, TokenKind::Colon, HighlightGroup::Separator);
            lemma_emits_trans(st, st1, st1b);
            let st1c = crate::grammar::expr::spec_expr(st1b, false);
            lemma_expr_emits(st1b, false);
            lemma_emits_trans(st, st1b, st1c);
            if sp_at(st1c.0, TokenKind::Comma) {
                lemma_emits_eat(st1c, HighlightGroup::Separator);
                lemma_emits_trans(st, st1c, sp_eat(st1c, HighlightGroup::Separator));
                sp_eat(st1c, HighlightGroup::Separator)
            } else {
                st1c
            }
        } else {
            lemma_emits_eat(st, HighlightGroup::Error);
            sp_eat(st, HighlightGroup::Error)
        };
        if st2.0.len() < st.0.len() {
            lemma_struct_fields_emits(st2);
            lemma_emits_trans(st, st2, crate::grammar::expr::spec_struct_fields(st2));
        }
    }
}

/// The tuple rule is a step.
proof fn lemma_tuple_emits(st: PState, is_pattern: bool)
    ensures
        emits(st, crate::grammar::expr::spec_tuple(st, is_pattern)),
    decreases st.0.len(), 1int,
{
    if st.0.len() == 0 {
        lemma_emits_refl(st);
    } else {
        let st1 = sp_push(st, TokenKind::OpenParen, HighlightGroup::Delimiter);
        lemma_emits_push(st, TokenKind::OpenParen, HighlightGroup::Delimiter);
        let st2 = crate::grammar::expr::spec_tuple_items(st1, is_pattern);
        lemma_tuple_items_emits(st1, is_pattern);
        lemma_emits_trans(st, st1, st2);
        lemma_emits_push(st2, TokenKind::CloseParen, HighlightGroup::Delimiter);
        lemma_emits_trans(st, st2, sp_push(st2, TokenKind::CloseParen, HighlightGroup::Delimiter));
    }
}

/// The tuple-elements loop is a step.
proof fn lemma_tuple_items_emits(st: PState, is_pattern: bool)
    ensures
        emits(st, crate::grammar::expr::spec_tuple_items(st, is_pattern)),
    decreases st.0.len(), 3int,
{
    if st.0.len() == 0 {
        lemma_emits_refl(st);
    } else {
        let st1 = if sp_at(st.0, TokenKind::Comma) {
            lemma_emits_eat(st, HighlightGroup::Separator);
            sp_eat(st, HighlightGroup::Separator)
        } else {
            lemma_emits_refl(st);
            st
        };
        if st1.0.len() == 0 || sp_at(st1.0, TokenKind::CloseParen) {
        } else {
            let st2 = crate::grammar::expr::spec_expr(st1, is_pattern);
            lemma_expr_emits(st1, is_pattern);
            lemma_emits_trans(st, st1, st2);
            if st2.0.len() < st.0.len() {
                lemma_tuple_items_emits(st2, is_pattern);
                lemma_emits_trans(
                    st,
                    st2,
                    crate::grammar::expr::spec_tuple_items(st2, is_pattern),
                );
            }
        }
    }
}

/// The statement rule is a step.
proof fn lemma_stmt_emits(st: PState)
    ensures
        emits(st, crate::grammar::stmt::spec_stmt(st)),
{
    if sp_at(st.0, TokenKind::Let) {
        let st1 = sp_eat(st, HighlightGroup::OtherKeyword);
        lemma_emits_eat(st, HighlightGroup::OtherKeyword);
        let st2 = crate::grammar::expr::spec_expr(st1, true);
        lemma_expr_emits(st1, true);
        lemma_emits_trans(st, st1, st2);
        let st3 = sp_push(st2, TokenKind::Equals, HighlightGroup::AssignOper);
        lemma_emits_push(st2, TokenKind::Equals, HighlightGroup::AssignOper);
        lemma_emits_trans(st, st2, st3);
        let st4 = if st3.0.len() < st.0.len() {
            lemma_expr_emits(st3, false);
            lemma_emits_trans(st, st3, crate::grammar::expr::spec_expr(st3, false));
            crate::grammar::expr::spec_expr(st3, false)
        } else {
            st3
        };
        lemma_emits_push(st4, TokenKind::Semi, HighlightGroup::Terminator);
        lemma_emits_trans(st, st4, sp_push(st4, TokenKind::Semi, HighlightGroup::Terminator));
    } else {
        let st1 = crate::grammar::expr::spec_expr(st, false);
        lemma_expr_emits(st, false);
        if sp_at(st1.0, TokenKind::CloseBrace) {
        } else {
            lemma_emits_push(st1, TokenKind::Semi, HighlightGroup::Terminator);
            lemma_emits_trans(st, st1, sp_push(st1, TokenKind::Semi, HighlightGroup::Terminator));
        }
    }
}

/// The block-statements loop is a step.
proof fn lemma_block_items_emits(st: PState)
    ensures
        emits(st, crate::grammar::block::spec_block_items(st)),
    decreases st.0.len(),
{
    if st.0.len() == 0 {
        lemma_emits_refl(st);
    } else if st.0.last().kind == TokenKind::CloseBrace {
        lemma_emits_eat(st, HighlightGroup::Delimiter);
    } else {
        let st2 = crate::grammar::stmt::spec_stmt(st);
        lemma_stmt_emits(st);
        if st2.0.len() < st.0.len() {
            lemma_block_items_emits(st2);
            lemma_emits_trans(st, st2, crate::grammar::block::spec_block_items(st2));
        }
    }
}

/// The block rule is a step.
proof fn lemma_block_emits(st: PState)
    ensures
        emits(st, crate::grammar::block::spec_block(st)),
{
    let st1 = sp_eat(st, HighlightGroup::Delimiter);
    lemma_emits_eat(st, HighlightGroup::Delimiter);
    if st1.0.len() < st.0.len() {
        lemma_block_items_emits(st1);
        lemma_emits_trans(st, st1, crate::grammar::block::spec_block_items(st1));
    }
}

/// The function-item rule is a step.
proof fn lemma_fn_item_emits(st: PState)
    ensures
        emits(st, crate::grammar::item::fn_::spec_fn_item(st)),
{
    if st.0.len() == 0 {
        lemma_emits_refl(st);
    } else {
        let st1 = sp_push(st, TokenKind::Fn, HighlightGroup::OtherKeyword);
        lemma_emits_push(st, TokenKind::Fn, HighlightGroup::OtherKeyword);
        let st2 = sp_push(st1, TokenKind::Ident, HighlightGroup::FunctionDef);
        lemma_emits_push(st1, TokenKind::Ident, HighlightGroup::FunctionDef);
        lemma_emits_trans(st, st1, st2);
        let st3 = sp_push(st2, TokenKind::OpenParen, HighlightGroup::Delimiter);
        lemma_emits_push(st2, TokenKind::OpenParen, HighlightGroup::Delimiter);
        lemma_emits_trans(st, st2, st3);
        let st4 = sp_push(st3, TokenKind::CloseParen, HighlightGroup::Delimiter);
        lemma_emits_push(st3, TokenKind::CloseParen, HighlightGroup::Delimiter);
        lemma_emits_trans(st, st3, st4);
        let st5 = crate::grammar::item::fn_::spec_fn_return_type(st4);
        lemma_return_type_emits(st4);
        lemma_emits_trans(st, st4, st5);
        if sp_at(st5.0, TokenKind::Semi) {
            lemma_emits_push(st5, TokenKind::Semi, HighlightGroup::Terminator);
            lemma_emits_trans(st, st5, sp_push(st5, TokenKind::Semi, HighlightGroup::Terminator));
        } else if sp_at(st5.0, TokenKind::OpenBrace) {
            lemma_block_emits(st5);
            lemma_emits_trans(st, st5, crate::grammar::block::spec_block(st5));
        } else {
            lemma_emits_eat(st5, HighlightGroup::Error);
            lemma_emits_trans(st, st5, sp_eat(st5, HighlightGroup::Error));
        }
    }
}

/// The struct-item rule is a step.
proof fn lemma_struct_item_emits(st: PState)
    ensures
        emits(st, crate::grammar::item::struct_::spec_struct_item(st)),
{
    let st1 = sp_push(st, TokenKind::Struct, HighlightGroup::OtherKeyword);
    lemma_emits_push(st, TokenKind::Struct, HighlightGroup::OtherKeyword);
    let st2 = sp_push(st1, TokenKind::TypeIdent, HighlightGroup::TyDef);
    lemma_emits_push(st1, TokenKind::TypeIdent, HighlightGroup::TyDef);
    lemma_emits_trans(st, st1, st2);
    lemma_emits_push(st2, TokenKind::Semi, HighlightGroup::Terminator);
    lemma_emits_trans(st, st2, sp_push(st2, TokenKind::Semi, HighlightGroup::Terminator));
}

/// The type-alias rule is a step.
proof fn lemma_type_item_emits(st: PState)
    ensures
        emits(st, crate::grammar::item::type_::spec_type_item(st)),
{
    let st1 = sp_push(st, TokenKind::Type, HighlightGroup::OtherKeyword);
    lemma_emits_push(st, TokenKind::Type, HighlightGroup::OtherKeyword);
    let st2 = sp_push(st1, TokenKind::TypeIdent, HighlightGroup::TyDef);
    lemma_emits_push(st1, TokenKind::TypeIdent, HighlightGroup::TyDef);
    lemma_emits_trans(st, st1, st2);
    let st3 = if sp_at(st2.0, TokenKind::Equals) {
        let st2b = sp_eat(st2, HighlightGroup::AssignOper);
        lemma_emits_eat(st2, HighlightGroup::AssignOper);
        lemma_emits_trans(st, st2, st2b);
        if sp_at(st2b.0, TokenKind::TypeIdent) {
            lemma_emits_eat(st2b, HighlightGroup::TyUse);
            lemma_emits_trans(st, st2b, sp_eat(st2b, HighlightGroup::TyUse));
            sp_eat(st2b, HighlightGroup::TyUse)
        } else if sp_at(st2b.0, TokenKind::PrimIdent) {
            lemma_emits_eat(st2b, HighlightGroup::PrimitiveTy);
            lemma_emits_trans(st, st2b, sp_eat(st2b, HighlightGroup::PrimitiveTy));
            sp_eat(st2b, HighlightGroup::PrimitiveTy)
        } else if sp_at(st2b.0, TokenKind::Semi) {
            st2b
        } else {
            lemma_emits_eat(st2b, HighlightGroup::Error);
            lemma_emits_trans(st, st2b, sp_eat(st2b, HighlightGroup::Error));
            sp_eat(st2b, HighlightGroup::Error)
        }
    } else {
        st2
    };
    lemma_emits_push(st3, TokenKind::Semi, HighlightGroup::Terminator);
    lemma_emits_trans(st, st3, sp_push(st3, TokenKind::Semi, HighlightGroup::Terminator));
}

/// The use-path loop is a step.
proof fn lemma_use_path_emits(st: PState)
    ensures
        emits(st, crate::grammar::item::use_::spec_use_path(st)),
    decreases st.0.len(),
{
    if sp_at(st.0, TokenKind::DoubleColon) {
        lemma_emits_eat(st, HighlightGroup::Separator);
        lemma_use_path_emits(sp_eat(st, HighlightGroup::Separator));
        lemma_emits_trans(
            st,
            sp_eat(st, HighlightGroup::Separator),
            crate::grammar::item::use_::spec_use_path(sp_eat(st, HighlightGroup::Separator)),
        );
    } else if sp_at(st.0, TokenKind::Ident) {
        lemma_emits_eat(st, HighlightGroup::ModuleUse);
        lemma_use_path_emits(sp_eat(st, HighlightGroup::ModuleUse));
        lemma_emits_trans(
            st,
            sp_eat(st, HighlightGroup::ModuleUse),
            crate::grammar::item::use_::spec_use_path(sp_eat(st, HighlightGroup::ModuleUse)),
        );
    } else if sp_at(st.0, TokenKind::TypeIdent) {
        lemma_emits_eat(st, HighlightGroup::TyUse);
        lemma_use_path_emits(sp_eat(st, HighlightGroup::TyUse));
        lemma_emits_trans(
            st,
            sp_eat(st, HighlightGroup::TyUse),
            crate::grammar::item::use_::spec_use_path(sp_eat(st, HighlightGroup::TyUse)),
        );
    } else {
        lemma_emits_refl(st);
    }
}

/// The use-item rule is a step.
proof fn lemma_use_item_emits(st: PState)
    ensures
        emits(st, crate::grammar::item::use_::spec_use_item(st)),
{
    let st1 = sp_push(st, TokenKind::Use, HighlightGroup::OtherKeyword);
    lemma_emits_push(st, TokenKind::Use, HighlightGroup::OtherKeyword);
    let st2 = crate::grammar::item::use_::spec_use_path(st1);
    lemma_use_path_emits(st1);
    lemma_emits_trans(st, st1, st2);
    lemma_emits_push(st2, TokenKind::Semi, HighlightGroup::Terminator);
    lemma_emits_trans(st, st2, sp_push(st2, TokenKind::Semi, HighlightGroup::Terminator));
}

/// The trait-items loop is a step.
proof fn lemma_trait_items_emits(st: PState)
    ensures
        emits(st, crate::grammar::item::trait_::spec_trait_items(st)),
    decreases st.0.len(), 8int,
{
    if st.0.len() == 0 || st.0.last().kind == TokenKind::CloseBrace {
        lemma_emits_refl(st);
    } else {
        let st2 = crate::grammar::item::spec_item(st);
        lemma_item_emits(st);
        if st2.0.len() < st.0.len() {
            lemma_trait_items_emits(st2);
            lemma_emits_trans(st, st2, crate::grammar::item::trait_::spec_trait_items(st2));
        }
    }
}

/// The trait-item rule is a step.
proof fn lemma_trait_item_emits(st: PState)
    ensures
        emits(st, crate::grammar::item::trait_::spec_trait_item(st)),
    decreases st.0.len(), 6int,
{
    if st.0.len() == 0 {
        lemma_emits_refl(st);
    } else {
        let st1 = sp_push(st, TokenKind::Trait, HighlightGroup::OtherKeyword);
        lemma_emits_push(st, TokenKind::Trait, HighlightGroup::OtherKeyword);
        let st2 = sp_push(st1, TokenKind::TypeIdent, HighlightGroup::InterfaceDef);
        lemma_emits_push(st1, TokenKind::TypeIdent, HighlightGroup::InterfaceDef);
        lemma_emits_trans(st, st1, st2);
        let st3 = sp_push(st2, TokenKind::OpenBrace, HighlightGroup::Delimiter);
        lemma_emits_push(st2, TokenKind::OpenBrace, HighlightGroup::Delimiter);
        lemma_emits_trans(st, st2, st3);
        let st4 = crate::grammar::item::trait_::spec_trait_items(st3);
        lemma_trait_items_emits(st3);
        lemma_emits_trans(st, st3, st4);
        lemma_emits_push(st4, TokenKind::CloseBrace, HighlightGroup::Delimiter);
        lemma_emits_trans(st, st4, sp_push(st4, TokenKind::CloseBrace, HighlightGroup::Delimiter));
    }
}

/// The item rule is a step.
proof fn lemma_item_emits(st: PState)
    ensures
        emits(st, crate::grammar::item::spec_item(st)),
    decreases st.0.len(), 7int,
{
    if st.0.len() == 0 {
        lemma_emits_refl(st);
    } else {
        let k = st.0.last().kind;
        if k == TokenKind::Fn {
            lemma_fn_item_emits(st);
        } else if k == TokenKind::Struct {
            lemma_struct_item_emits(st);
        } else if k == TokenKind::Trait {
            lemma_trait_item_emits(st);
        } else if k == TokenKind::Type {
            lemma_type_item_emits(st);
        } else if k == TokenKind::Use {
            lemma_use_item_emits(st);
        } else if k == TokenKind::CloseBrace {
            lemma_emits_refl(st);
        } else {
            lemma_emits_eat(st, HighlightGroup::Error);
            lemma_item_emits(sp_eat(st, HighlightGroup::Error));
            lemma_emits_trans(
                st,
                sp_eat(st, HighlightGroup::Error),
                crate::grammar::item::spec_item(sp_eat(st, HighlightGroup::Error)),
            );
        }
    }
}

/// Positioned at a token that is no close brace, the item rule always
/// consumes at least one token: recovery makes progress.
proof fn lemma_item_consumes(st: PState)
    requires
        st.0.len() > 0,
        st.0.last().kind != TokenKind::CloseBrace,
    ensures
        crate::grammar::item::spec_item(st).0.len() < st.0.len(),
{
    let k = st.0.last().kind;
    if k == TokenKind::Fn {
        let st1 = sp_push(st, TokenKind::Fn, HighlightGroup::OtherKeyword);
        let st2 = sp_push(st1, TokenKind::Ident, HighlightGroup::FunctionDef);
        let st3 = sp_push(st2, TokenKind::OpenParen, HighlightGroup::Delimiter);
        let st4 = sp_push(st3, TokenKind::CloseParen, HighlightGroup::Delimiter);
        let st5 = crate::grammar::item::fn_::spec_fn_return_type(st4);
        lemma_return_type_emits(st4);
        if sp_at(st5.0, TokenKind::OpenBrace) {
            lemma_block_emits(st5);
        }
    } else if k == TokenKind::Struct {
    } else if k == TokenKind::Trait {
        reveal_with_fuel(crate::grammar::item::spec_item, 2);
        let st1 = sp_push(st, TokenKind::Trait, HighlightGroup::OtherKeyword);
        let st2 = sp_push(st1, TokenKind::TypeIdent, HighlightGroup::InterfaceDef);
        let st3 = sp_push(st2, TokenKind::OpenBrace, HighlightGroup::Delimiter);
        lemma_trait_items_emits(st3);
    } else if k == TokenKind::Type {
    } else if k == TokenKind::Use {
        let st1 = sp_push(st, TokenKind::Use, HighlightGroup::OtherKeyword);
        lemma_use_path_emits(st1);
    } else {
        lemma_item_emits(sp_eat(st, HighlightGroup::Error));
    }
}

/// The whole-stream loop is a step.
proof fn lemma_parse_loop_emits(st: PState)
    ensures
        emits(st, crate::parser::spec_parse_loop(st)),
    decreases st.0.len(), 9int,
{
    if st.0.len() == 0 {
        lemma_emits_refl(st);
    } else if crate::grammar::item::is_item_start(st.0.last().kind) {
        let st2 = crate::grammar::item::spec_item(st);
        lemma_item_emits(st);
        if st2.0.len() < st.0.len() {
            lemma_parse_loop_emits(st2);
            lemma_emits_trans(st, st2, crate::parser::spec_parse_loop(st2));
        }
    } else {
        let st2 = sp_eat(st, HighlightGroup::Error);
        lemma_emits_eat(st, HighlightGroup::Error);
        lemma_parse_loop_emits(st2);
        lemma_emits_trans(st, st2, crate::parser::spec_parse_loop(st2));
    }
}

/// The whole-stream loop consumes every token.
proof fn lemma_parse_loop_empties(st: PState)
    ensures
        crate::parser::spec_parse_loop(st).0.len() == 0,
    decreases st.0.len(),
{
    if st.0.len() == 0 {
    } else if crate::grammar::item::is_item_start(st.0.last().kind) {
        lemma_item_consumes(st);
        lemma_parse_loop_empties(crate::grammar::item::spec_item(st));
    } else {
        lemma_parse_loop_empties(sp_eat(st, HighlightGroup::Error));
    }
}

/// Spans that cover `[lo, hi)` exactly once: each nonempty, each beginning
/// where its predecessor ends, the first at `lo` and the last at `hi`.
pub open spec fn covers(r: Seq<HighlightedSpan>, lo: int, hi: int) -> bool {
    &&& r.len() == 0 ==> lo == hi
    &&& r.len() > 0 ==> r[0].start == lo && r[r.len() - 1].end == hi
    &&& forall|k: int| 0 <= k < r.len() ==> (#[trigger] r[k]).start < r[k].end
    &&& forall|k1: int, k2: int|
        #![trigger r[k1], r[k2]]
        0 <= k1 && k2 == k1 + 1 && k2 < r.len() ==> r[k1].end == r[k2].start
}

/// Two covering runs that meet at `mid` cover the whole range.
proof fn lemma_covers_cat(
    a: Seq<HighlightedSpan>,
    b: Seq<HighlightedSpan>,
    lo: int,
    mid: int,
    hi: int,
)
    requires
        covers(a, lo, mid),
        covers(b, mid, hi),
    ensures
        covers(a + b, lo, hi),
{
    let r = a + b;
    assert forall|k: int| 0 <= k < r.len() implies (#[trigger] r[k]).start < r[k].end by {
        if k < a.len() {
            assert(r[k] == a[k]);
        } else {
            assert(r[k] == b[k - a.len()]);
        }
    }
    assert forall|k1: int, k2: int|
        #![trigger r[k1], r[k2]]
        0 <= k1 && k2 == k1 + 1 && k2 < r.len() implies r[k1].end == r[k2].start by {
        if k2 < a.len() {
            assert(r[k1] == a[k1]);
            assert(r[k2] == a[k2]);
        } else if k1 >= a.len() {
            assert(r[k1] == b[k1 - a.len()]);
            assert(r[k2] == b[k2 - a.len()]);
        } else {
            assert(r[k1] == a[a.len() - 1]);
            assert(r[k2] == b[0]);
        }
    }
    if r.len() > 0 {
        if a.len() == 0 {
            assert(r[0] == b[0]);
        }
        if b.len() == 0 {
            assert(r[r.len() - 1] == a[a.len() - 1]);
        } else {
            assert(r[r.len() - 1] == b[b.len() - 1]);
        }
    }
}

/// One nonempty span covers its own range.
proof fn lemma_covers_single(sp: HighlightedSpan, lo: int, hi: int)
    requires
        sp.start == lo,
        sp.end == hi,
        lo < hi,
    ensures
        covers(seq![sp], lo, hi),
{
}

/// Two adjacent nonempty spans cover their joint range.
proof fn lemma_covers_pair(a: HighlightedSpan, b: HighlightedSpan, lo: int, hi: int)
    requires
        a.start == lo,
        a.end == b.start,
        b.end == hi,
        a.start < a.end,
        b.start < b.end,
    ensures
        covers(seq![a, b], lo, hi),
{
    let r = seq![a, b];
    assert(r[0] == a);
    assert(r[1] == b);
}

/// Ordered, nonempty, disjoint spans between `lo` and `hi`.
pub open spec fn spans_chain(sp: Seq<HighlightedSpan>, lo: int, hi: int) -> bool {
    &&& lo <= hi
    &&& forall|k: int|
        0 <= k < sp.len() ==> lo <= (#[trigger] sp[k]).start < sp[k].end <= hi
    &&& forall|k1: int, k2: int|
        #![trigger sp[k1], sp[k2]]
        0 <= k1 && k2 == k1 + 1 && k2 < sp.len() ==> sp[k1].end <= sp[k2].start
}

/// Every later span of an ordered, disjoint span list starts at or after
/// the first span's end.
proof fn lemma_chain_reach(spans: Seq<HighlightedSpan>, lo: int, hi: int, k: int)
    requires
        spans_chain(spans, lo, hi),
        1 <= k < spans.len(),
    ensures
        spans[0].end <= spans[k].start,
    decreases k,
{
    if k == 1 {
        assert(spans[0].end <= spans[1].start);
    } else {
        lemma_chain_reach(spans, lo, hi, k - 1);
        assert(spans[k - 1].end <= spans[k].start);
    }
}

/// Behind its first span, an ordered, disjoint span list stays one.
proof fn lemma_chain_tail(spans: Seq<HighlightedSpan>, lo: int, hi: int)
    requires
        spans_chain(spans, lo, hi),
        spans.len() > 0,
    ensures
        spans_chain(spans.drop_first(), spans[0].end as int, hi),
{
    let tail = spans.drop_first();
    assert forall|k: int| 0 <= k < tail.len() implies spans[0].end <= (
    #[trigger] tail[k]).start < tail[k].end <= hi by {
        assert(tail[k] == spans[k + 1]);
        lemma_chain_reach(spans, lo, hi, k + 1);
    }
    assert forall|k1: int, k2: int|
        #![trigger tail[k1], tail[k2]]
        0 <= k1 && k2 == k1 + 1 && k2 < tail.len() implies tail[k1].end <= tail[k2].start by {
        assert(tail[k1] == spans[k1 + 1]);
        assert(tail[k2] == spans[k2 + 1]);
    }
}

/// Attaching the gaps to an ordered, disjoint span list yields a covering
/// of the whole range.
proof fn lemma_fill_covers(spans: Seq<HighlightedSpan>, prev: int, len: int)
    requires
        0 <= prev,
        len <= usize::MAX,
        spans_chain(spans, prev, len),
    ensures
        covers(spec_fill(spans, prev, len), prev, len),
    decreases spans.len(),
{
    if spans.len() == 0 {
        if prev < len {
            lemma_covers_single(gap_span(prev, len), prev, len);
        }
    } else {
        let sp0 = spans[0];
        lemma_chain_tail(spans, prev, len);
        lemma_fill_covers(spans.drop_first(), sp0.end as int, len);
        let rest = spec_fill(spans.drop_first(), sp0.end as int, len);
        if prev < sp0.start {
            lemma_covers_pair(gap_span(prev, sp0.start as int), sp0, prev, sp0.end as int);
            lemma_covers_cat(
                seq![gap_span(prev, sp0.start as int), sp0],
                rest,
                prev,
                sp0.end as int,
                len,
            );
        } else {
            lemma_covers_single(sp0, prev, sp0.end as int);
            lemma_covers_cat(seq![sp0], rest, prev, sp0.end as int, len);
        }
    }
}

/// The spans that the parser emits for `s` sit exactly on its tokens, in
/// source order.
proof fn lemma_parse_on_tokens(s: Seq<u8>)
    ensures
        crate::parser::spec_parse(s).len() == spec_tokens(s).len(),
        forall|k: int|
            0 <= k < spec_tokens(s).len() ==> (#[trigger] crate::parser::spec_parse(s)[k]).start
                == spec_tokens(s)[k].start && crate::parser::spec_parse(s)[k].end == spec_tokens(
                s,
            )[k].end,
{
    let ts = spec_tokens(s);
    let st0 = (ts.reverse(), Seq::<HighlightedSpan>::empty());
    lemma_parse_loop_emits(st0);
    lemma_parse_loop_empties(st0);
    let spans = crate::parser::spec_parse(s);
    assert forall|k: int| 0 <= k < ts.len() implies (#[trigger] spans[k]).start == ts[k].start
        && spans[k].end == ts[k].end by {
        assert(st0.0[st0.0.len() - 1 - k] == ts[k]);
    }
}

/// Total coverage: for any input of length `n`, the spans of its
/// classification, concatenated in order, equal `[0, n)` — no gap, no
/// overlap, no out-of-order range. This holds even when the lexer produced
/// only error tokens or the grammar stopped mid-rule while recovering.
pub proof fn lemma_total_coverage(s: Seq<u8>)
    requires
        s.len() <= usize::MAX,
    ensures
        covers(crate::spec_highlight(s), 0, s.len() as int),
{
    let ts = spec_tokens(s);
    lemma_lex_wf(s, 0);
    lemma_parse_on_tokens(s);
    let spans = crate::parser::spec_parse(s);
    assert forall|k: int| 0 <= k < spans.len() implies 0 <= (#[trigger] spans[k]).start
        < spans[k].end <= s.len() as int by {
        assert(0 <= ts[k].start < ts[k].end <= s.len() as int);
    }
    assert forall|k1: int, k2: int|
        #![trigger spans[k1], spans[k2]]
        0 <= k1 && k2 == k1 + 1 && k2 < spans.len() implies spans[k1].end <= spans[k2].start by {
        assert(ts[k1].end <= ts[k2].start);
        assert(spans[k1].end == ts[k1].end);
        assert(spans[k2].start == ts[k2].start);
    }
    lemma_fill_covers(spans, 0, s.len() as int);
}

} // verus!
