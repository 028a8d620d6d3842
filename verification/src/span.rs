//! Source locations as half-open ranges of byte offsets.

use vstd::prelude::*;

verus! {

/// A half-open range `[start, end)` of byte offsets into one source document.
#[derive(Clone, Copy, Debug, PartialEq, Eq, Structural)]
pub struct SrcSpan {
    pub start: u32,
    pub end: u32,
}

impl SrcSpan {
    /// A span is well formed when it does not end before it starts.
    pub open spec fn wf(self) -> bool {
        self.start <= self.end
    }

    /// Whether `offset` lies in `[start, end)`.
    pub open spec fn spec_contains(self, offset: u32) -> bool {
        self.start <= offset < self.end
    }

    pub fn new(start: u32, end: u32) -> (span: SrcSpan)
        ensures
            span.start == start,
            span.end == end,
    {
        SrcSpan { start, end }
    }

    #[verifier::when_used_as_spec(spec_contains)]
    pub fn contains(self, offset: u32) -> (inside: bool)
        ensures
            inside == self.spec_contains(offset),
    {
        self.start <= offset && offset < self.end
    }

    /// Span equality, by both ends.
    pub fn same(self, other: SrcSpan) -> (equal: bool)
        ensures
            equal == (self == other),
    {
        self.start == other.start && self.end == other.end
    }
}

} // verus!
