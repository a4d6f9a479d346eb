//! Source locations.

use vstd::prelude::*;

verus! {

/// A half-open byte range `start..end` in a source file.
#[derive(Clone, Copy, Debug, PartialEq, Eq, Structural)]
pub struct Span {
    pub start: u32,
    pub end: u32,
}

impl Span {
    /// The span from `start` to `end`.
    pub fn new(start: u32, end: u32) -> (span: Span)
        ensures
            span == (Span { start, end }),
    {
        Span { start, end }
    }

    /// The empty span at offset zero.
    pub fn empty() -> (span: Span)
        ensures
            span == (Span { start: 0, end: 0 }),
    {
        Span { start: 0, end: 0 }
    }

    /// The span without its first `n` places, or the empty span at its end
    /// if it has no more than `n`.
    pub open spec fn spec_trim_start(self, n: u32) -> Span {
        Span {
            start: if self.end - self.start >= n {
                (self.start + n) as u32
            } else {
                self.end
            },
            end: self.end,
        }
    }

    /// The span without its first `n` places, or the empty span at its end
    /// if it has no more than `n`.
    pub fn trim_start(self, n: u32) -> (span: Span)
        ensures
            span == self.spec_trim_start(n),
    {
        if self.end >= self.start && self.end - self.start >= n {
            Span { start: self.start + n, end: self.end }
        } else {
            Span { start: self.end, end: self.end }
        }
    }

    /// The smallest span that covers both `self` and `other`.
    pub open spec fn spec_join(self, other: Span) -> Span {
        Span {
            start: if self.start <= other.start { self.start } else { other.start },
            end: if self.end >= other.end { self.end } else { other.end },
        }
    }

    /// The smallest span that covers both `self` and `other`.
    pub fn join(self, other: Span) -> (span: Span)
        ensures
            span == self.spec_join(other),
    {
        Span {
            start: if self.start <= other.start { self.start } else { other.start },
            end: if self.end >= other.end { self.end } else { other.end },
        }
    }
}

/// Something that has a place in the source.
pub trait Spanned {
    /// The place in the source.
    spec fn spanned(&self) -> Span;

    /// The place in the source.
    fn span(&self) -> (span: Span)
        ensures
            span == self.spanned(),
    ;
}

impl Spanned for Span {
    open spec fn spanned(&self) -> Span {
        *self
    }

    fn span(&self) -> (span: Span) {
        *self
    }
}

} // verus!
