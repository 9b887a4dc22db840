//! Source positions: byte ranges within a registered source text.

use vstd::prelude::*;

verus! {

/// Identifies one source text of a compilation.
#[derive(Clone, Copy, Debug, PartialEq, Eq, Structural)]
pub struct SourceId(pub u32);

/// A byte range `start..end` within one source text.
#[derive(Clone, Copy, Debug, PartialEq, Eq, Structural)]
pub struct Span {
    pub source: SourceId,
    pub start: u32,
    pub end: u32,
}

impl Span {
    pub fn new(source: SourceId, start: u32, end: u32) -> (r: Span)
        ensures
            r == (Span { source, start, end }),
    {
        Span { source, start, end }
    }

    /// From the start of `self` to the end of `other`.
    pub open spec fn through(self, other: Span) -> Span {
        Span { source: self.source, start: self.start, end: other.end }
    }

    /// The span from the start of `self` to the end of `other`.
    pub fn to(self, other: Span) -> (r: Span)
        ensures
            r == self.through(other),
    {
        Span { source: self.source, start: self.start, end: other.end }
    }
}

} // verus!
