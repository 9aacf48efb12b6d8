//! Byte ranges of the input.

use vstd::prelude::*;

verus! {

/// The byte range `[start, end)` of the input that a token covers.
#[derive(Debug, Clone, Copy, PartialEq, Eq, Structural)]
pub struct Span {
    pub start: u16,
    pub end: u16,
}

/// The range from the start of `a` to the end of `b`.
pub open spec fn joined(a: Span, b: Span) -> Span {
    Span { start: a.start, end: b.end }
}

impl Span {
    /// The range `[start, end)`.
    pub fn new(start: u16, end: u16) -> (r: Self)
        requires
            start <= end,
        ensures
            r.start == start,
            r.end == end,
    {
        Self { start, end }
    }

    /// The range from the start of `self` to the end of `end`: see [`joined`].
    pub fn to(self, end: Self) -> (r: Self)
        requires
            self.start <= end.end,
        ensures
            r == joined(self, end),
    {
        Self::new(self.start, end.end)
    }
}

/// Joining three ranges with [`Span::to`] gives the same range whichever pair is joined first.
pub proof fn lemma_span_to_associative(a: Span, b: Span, c: Span)
    ensures
        joined(joined(a, b), c) == joined(a, joined(b, c)),
{
}

} // verus!
