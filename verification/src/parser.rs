//! The cursor: the remaining token stack plus the output spans.

use crate::lexer::{lex, spec_tokens};
use crate::span::{span_for, HighlightGroup, HighlightedSpan};
use crate::token::{Token, TokenKind};
use vstd::prelude::*;
use vstd::string::StringSliceAdditionalSpecFns;

verus! {

/// A parser state as the specification sees it: the remaining tokens,
/// reversed so that the next one is the sequence's last, and the spans
/// emitted so far.
pub type PState = (Seq<Token>, Seq<HighlightedSpan>);

/// The state of a parser.
pub open spec fn pstate(p: Parser) -> PState {
    (p.tokens@, p.output@)
}

/// The next unconsumed token, if one remains.
pub open spec fn sp_peek(toks: Seq<Token>) -> Option<Token> {
    if toks.len() == 0 {
        None
    } else {
        Some(toks.last())
    }
}

/// Whether the next unconsumed token exists and has kind `kind`.
pub open spec fn sp_at(toks: Seq<Token>, kind: TokenKind) -> bool {
    toks.len() > 0 && toks.last().kind == kind
}

/// The state after the next token, if any, is consumed and emitted with
/// group `group`.
pub open spec fn sp_eat(st: PState, group: HighlightGroup) -> PState {
    if st.0.len() == 0 {
        st
    } else {
        (st.0.drop_last(), st.1.push(span_for(st.0.last(), group)))
    }
}

/// The state after the next token is consumed and emitted with `group` when
/// its kind is `kind`, and as an error otherwise. Either way the position
/// advances by one token, so no rule ever stalls.
pub open spec fn sp_push(st: PState, kind: TokenKind, group: HighlightGroup) -> PState {
    if sp_at(st.0, kind) {
        sp_eat(st, group)
    } else {
        sp_eat(st, HighlightGroup::Error)
    }
}

/// The mutable position-and-output state threaded through one
/// classification call. The tokens are held reversed, so that the head of
/// the stream is the vector's tail and consuming it is one pop.
#[derive(Debug)]
pub struct Parser {
    /// the remaining tokens, reversed
    pub tokens: Vec<Token>,
    /// the spans emitted so far, in source order
    pub output: Vec<HighlightedSpan>,
}

impl Parser {
    /// A parser positioned at the start of `s`'s token stream.
    pub fn new(s: &str) -> (p: Parser)
        ensures
            p.tokens@ == spec_tokens(s.spec_bytes()).reverse(),
            p.output@ == Seq::<HighlightedSpan>::empty(),
    {
        let tokens = lex(s);
        let output: Vec<HighlightedSpan> = Vec::new();
        Parser { tokens, output }
    }

    /// The next unconsumed token, left in place.
    pub fn peek(&self) -> (r: Option<Token>)
        ensures
            r == sp_peek(self.tokens@),
    {
        if self.tokens.len() > 0 {
            Some(self.tokens[self.tokens.len() - 1])
        } else {
            None
        }
    }

    /// Remove and return the next token.
    pub fn next(&mut self) -> (r: Option<Token>)
        ensures
            final(self).output == old(self).output,
            old(self).tokens@.len() == 0 ==> r is None && final(self).tokens@
                == old(self).tokens@,
            old(self).tokens@.len() > 0 ==> r == Some(old(self).tokens@.last())
                && final(self).tokens@ == old(self).tokens@.drop_last(),
    {
        self.tokens.pop()
    }

    /// Whether the next token exists and has kind `kind`. This is the one
    /// form of lookahead, always exactly one token deep.
    pub fn at(&self, kind: TokenKind) -> (r: bool)
        ensures
            r == sp_at(self.tokens@, kind),
    {
        match self.peek() {
            Some(t) => t.kind == kind,
            None => false,
        }
    }

    /// Whether no tokens remain.
    pub fn at_end(&self) -> (r: bool)
        ensures
            r == (self.tokens@.len() == 0),
    {
        self.tokens.len() == 0
    }

    /// Consume the next token, if any, and emit it with group `group`.
    pub fn eat(&mut self, group: HighlightGroup)
        ensures
            pstate(*final(self)) == sp_eat(pstate(*old(self)), group),
    {
        if let Some(token) = self.next() {
            self.output.push(
                HighlightedSpan { start: token.start, end: token.end, group: Some(group) },
            );
        }
    }

    /// Consume the next token; emit it with `group` when its kind is `kind`,
    /// and as an error otherwise.
    pub fn push(&mut self, kind: TokenKind, group: HighlightGroup)
        ensures
            pstate(*final(self)) == sp_push(pstate(*old(self)), kind, group),
    {
        if self.at(kind) {
            self.eat(group);
        } else {
            self.eat(HighlightGroup::Error);
        }
    }

    /// Classify the whole token stream: dispatch to the item rule at every
    /// token that begins an item, and consume anything else as an error.
    /// Returns the emitted spans, one per token, in source order.
    pub fn parse(self) -> (r: Vec<HighlightedSpan>)
        ensures
            r@ == spec_parse_loop(pstate(self)).1,
    {
        let mut p = self;
        let ghost st0 = pstate(p);
        loop
            invariant_except_break
                spec_parse_loop(pstate(p)) == spec_parse_loop(st0),
            ensures
                pstate(p) == spec_parse_loop(st0),
            decreases p.tokens@.len(),
        {
            let t = match p.peek() {
                Some(t) => t,
                None => {
                    break ;
                },
            };
            match t.kind {
                TokenKind::Fn
                | TokenKind::Struct
                | TokenKind::Trait
                | TokenKind::Type
                | TokenKind::Use => crate::grammar::parse_item(&mut p),
                _ => p.eat(HighlightGroup::Error),
            }
        }
        p.output
    }
}

/// The state after the whole token stream is classified starting from `st`.
pub open spec fn spec_parse_loop(st: PState) -> PState
    decreases st.0.len(), 9int,
{
    if st.0.len() == 0 {
        st
    } else if crate::grammar::item::is_item_start(st.0.last().kind) {
        let st2 = crate::grammar::item::spec_item(st);
        if st2.0.len() < st.0.len() {
            spec_parse_loop(st2)
        } else {
            st2
        }
    } else {
        spec_parse_loop(sp_eat(st, HighlightGroup::Error))
    }
}

/// The spans that classify the tokens of `s`: one span per token, in
/// source order, before the whitespace gaps are attached.
pub open spec fn spec_parse(s: Seq<u8>) -> Seq<HighlightedSpan> {
    spec_parse_loop((spec_tokens(s).reverse(), Seq::empty())).1
}

} // verus!
