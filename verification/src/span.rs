//! Source spans.

use vstd::prelude::*;

verus! {

/// A half-open range of source offsets.
#[derive(Clone, Copy, Debug, PartialEq, Eq, Structural)]
pub struct Span {
    pub start: usize,
    pub end: usize,
}

impl View for Span {
    type V = Span;

    open spec fn view(&self) -> Span {
        *self
    }
}

impl Span {
    /// The smallest span that covers both `self` and `other`.
    pub open spec fn spec_merge(self, other: Span) -> Span {
        Span {
            start: if self.start <= other.start { self.start } else { other.start },
            end: if self.end >= other.end { self.end } else { other.end },
        }
    }

    /// Whether `self` lies within `outer`.
    pub open spec fn within(self, outer: Span) -> bool {
        outer.start <= self.start && self.end <= outer.end
    }

    pub fn new(start: usize, end: usize) -> (out: Span)
        ensures
            out == (Span { start, end }),
    {
        Span { start, end }
    }

    /// The empty span at offset zero.
    pub fn empty() -> (out: Span)
        ensures
            out == (Span { start: 0, end: 0 }),
    {
        Span { start: 0, end: 0 }
    }

    /// The smallest span that covers both `self` and `other`.
    #[verifier::when_used_as_spec(spec_merge)]
    pub fn merge(self, other: Span) -> (out: Span)
        ensures
            out == self.spec_merge(other),
    {
        Span {
            start: if self.start <= other.start { self.start } else { other.start },
            end: if self.end >= other.end { self.end } else { other.end },
        }
    }
}

} // verus!
