//! Highlights code of a curly-brace systems-language subset.
//!
//! The lexer turns bytes into tokens, the parser walks the tokens with one
//! token of lookahead and tags each with a highlight group, and a final pass
//! attaches the whitespace between tokens, so that the emitted spans cover
//! the whole input exactly once. That partition law — no gap, no overlap,
//! no out-of-order range, for every input — is proved in `coverage`.

pub mod coverage;
pub mod fill;
pub mod grammar;
pub mod lexer;
pub mod number;
pub mod parser;
pub mod scan;
pub mod span;
pub mod token;

use crate::fill::{fill_gaps, spec_fill};
use crate::parser::{spec_parse, Parser};
use crate::span::HighlightedSpan;
use vstd::prelude::*;
use vstd::string::StringSliceAdditionalSpecFns;

verus! {

/// The classification of `s`: one span per token in source order, each
/// tagged with its highlight group, with the whitespace between them
/// attached as unclassified spans.
pub open spec fn spec_highlight(s: Seq<u8>) -> Seq<HighlightedSpan> {
    spec_fill(spec_parse(s), 0, s.len() as int)
}

/// A syntax highlighter for the language subset this crate understands.
#[derive(Debug, Copy, Clone, Ord, PartialOrd, Eq, PartialEq, Hash)]
pub struct Highlighter;

impl Highlighter {
    /// Classify every byte of `input` into an ordered sequence of spans.
    /// The result is a pure function of the input alone.
    pub fn highlight(&self, input: &str) -> (r: Vec<HighlightedSpan>)
        ensures
            r@ == spec_highlight(input.spec_bytes()),
    {
        let len = input.as_bytes().len();
        let p = Parser::new(input);
        let spans = p.parse();
        fill_gaps(spans, len)
    }
}

/// Classification is a pure function of the input alone: two inputs that
/// hold the same bytes classify to the same spans.
pub proof fn lemma_deterministic(s1: Seq<u8>, s2: Seq<u8>)
    requires
        s1 == s2,
    ensures
        spec_highlight(s1) == spec_highlight(s2),
{
}

/// Re-running classification on the same bytes yields identical output:
/// any two results of classifying `s` are one and the same span sequence.
pub proof fn lemma_rerun_identical(s: Seq<u8>, r1: Seq<HighlightedSpan>, r2: Seq<HighlightedSpan>)
    requires
        r1 == spec_highlight(s),
        r2 == spec_highlight(s),
    ensures
        r1 == r2,
{
}

} // verus!
