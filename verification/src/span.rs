//! Source spans.
use vstd::prelude::*;

verus! {

/// A range of offsets in a source text.
#[derive(Debug, Clone, Copy, PartialEq, Eq, Structural)]
pub struct Span {
    pub start: usize,
    pub end: usize,
}

impl Span {
    /// The span from `start` to `end`.
    pub fn new(start: usize, end: usize) -> (span: Span)
        ensures
            span == (Span { start, end }),
    {
        Span { start, end }
    }

    /// The empty span at an offset.
    pub fn point(offset: usize) -> (span: Span)
        ensures
            span == (Span { start: offset, end: offset }),
    {
        Span { start: offset, end: offset }
    }

    /// The smallest span that covers both.
    pub open spec fn merged(self, other: Span) -> Span {
        Span {
            start: if self.start <= other.start {
                self.start
            } else {
                other.start
            },
            end: if self.end >= other.end {
                self.end
            } else {
                other.end
            },
        }
    }

    /// The smallest span that covers both.
    pub fn merge(self, other: Span) -> (span: Span)
        ensures
            span == self.merged(other),
    {
        Span {
            start: if self.start <= other.start {
                self.start
            } else {
                other.start
            },
            end: if self.end >= other.end {
                self.end
            } else {
                other.end
            },
        }
    }

    /// Whether the other span lies within this one.
    pub open spec fn covers(self, other: Span) -> bool {
        self.start <= other.start && other.end <= self.end
    }

    /// Whether the other span lies within this one.
    pub fn contains(self, other: Span) -> (contained: bool)
        ensures
            contained == self.covers(other),
    {
        self.start <= other.start && other.end <= self.end
    }

    /// Whether the span covers nothing.
    pub fn is_empty(self) -> (empty: bool)
        ensures
            empty == (self.start == self.end),
    {
        self.start == self.end
    }
}

} // verus!
