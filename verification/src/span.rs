//! Source locations.

use vstd::prelude::*;

verus! {

/// A region of the source text, as the half-open range `lo..hi` of
/// positions. The builders never look inside a span: they carry the span of
/// the syntax at fault into the diagnostics.
#[derive(Clone, Copy, Debug, PartialEq, Eq, Structural)]
pub struct Span {
    pub lo: usize,
    pub hi: usize,
}

impl Span {
    /// The span from `lo` to `hi`.
    pub fn new(lo: usize, hi: usize) -> (r: Span)
        ensures
            r == (Span { lo, hi }),
    {
        Span { lo, hi }
    }
}

} // verus!
