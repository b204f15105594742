//! Gap attachment: whitespace between tokens belongs to no token, so the
//! classification pass re-attaches it afterwards. The end offset of the
//! previously emitted span is tracked, and an unclassified span is
//! synthesised for any gap before the next span's start; this keeps the
//! coverage invariant mechanical and independent of which rule executed.

use crate::span::HighlightedSpan;
use vstd::prelude::*;

verus! {

/// An unclassified span over `[a, b)`.
pub open spec fn gap_span(a: int, b: int) -> HighlightedSpan {
    HighlightedSpan { start: a as usize, end: b as usize, group: None }
}

/// The spans of `spans` with an unclassified span inserted in front of
/// every gap, starting from position `prev`, and a final unclassified span
/// up to `len` where the last span ends short of it.
pub open spec fn spec_fill(spans: Seq<HighlightedSpan>, prev: int, len: int) -> Seq<
    HighlightedSpan,
>
    decreases spans.len(),
{
    if spans.len() == 0 {
        if prev < len {
            seq![gap_span(prev, len)]
        } else {
            Seq::empty()
        }
    } else {
        let sp = spans[0];
        let rest = spec_fill(spans.drop_first(), sp.end as int, len);
        if prev < sp.start {
            seq![gap_span(prev, sp.start as int), sp] + rest
        } else {
            seq![sp] + rest
        }
    }
}

/// Insert an unclassified span in front of every gap between the given
/// spans, and close the result with one up to `len` where needed.
pub fn fill_gaps(spans: Vec<HighlightedSpan>, len: usize) -> (r: Vec<HighlightedSpan>)
    ensures
        r@ == spec_fill(spans@, 0, len as int),
{
    let mut out: Vec<HighlightedSpan> = Vec::new();
    let mut prev: usize = 0;
    let mut j: usize = 0;
    proof {
        assert(spans@.skip(0) =~= spans@);
    }
    loop
        invariant
            j <= spans@.len(),
            out@ + spec_fill(spans@.skip(j as int), prev as int, len as int) == spec_fill(
                spans@,
                0,
                len as int,
            ),
        ensures
            j == spans@.len(),
            out@ + spec_fill(spans@.skip(j as int), prev as int, len as int) == spec_fill(
                spans@,
                0,
                len as int,
            ),
        decreases spans@.len() - j,
    {
        if j >= spans.len() {
            break ;
        }
        let sp = spans[j];
        let ghost out0 = out@;
        let ghost prev0 = prev as int;
        if prev < sp.start {
            out.push(HighlightedSpan { start: prev, end: sp.start, group: None });
        }
        out.push(sp);
        proof {
            assert(spans@.skip(j as int).drop_first() =~= spans@.skip(j as int + 1));
            assert(out@ + spec_fill(spans@.skip(j as int + 1), sp.end as int, len as int) =~= out0
                + spec_fill(spans@.skip(j as int), prev0, len as int));
        }
        prev = sp.end;
        j = j + 1;
    }
    if prev < len {
        out.push(HighlightedSpan { start: prev, end: len, group: None });
    }
    proof {
        assert(spans@.skip(spans@.len() as int) =~= Seq::<HighlightedSpan>::empty());
        assert(out@ =~= spec_fill(spans@, 0, len as int));
    }
    out
}

} // verus!
