//! Source locations carried by every syntax node for diagnostics.

use vstd::prelude::*;

verus! {

/// A half-open range of positions in the annotated source.
///
/// A span says where something was written, and nothing about what was
/// written: it serves diagnostics only. So spans take no part in `==`. Any
/// two spans compare equal, and with them any two values that differ only in
/// where they were written.
#[derive(Clone, Copy, Debug, Eq)]
pub struct Span {
    pub start: usize,
    pub end: usize,
}

impl PartialEq for Span {
    fn eq(&self, other: &Span) -> (same: bool) {
        true
    }
}

impl vstd::std_specs::cmp::PartialEqSpecImpl for Span {
    open spec fn obeys_eq_spec() -> bool {
        true
    }

    open spec fn eq_spec(&self, other: &Span) -> bool {
        true
    }
}

impl Span {
    /// The span that covers `start..end`.
    pub fn new(start: usize, end: usize) -> (span: Span)
        ensures
            span == (Span { start, end }),
    {
        Span { start, end }
    }

    /// The smallest span that covers both `self` and `other`.
    pub open spec fn join_spec(self, other: Span) -> Span {
        Span {
            start: if self.start <= other.start { self.start } else { other.start },
            end: if self.end >= other.end { self.end } else { other.end },
        }
    }

    /// The smallest span that covers both `self` and `other`.
    pub fn join(self, other: Span) -> (span: Span)
        ensures
            span == self.join_spec(other),
    {
        Span {
            start: if self.start <= other.start { self.start } else { other.start },
            end: if self.end >= other.end { self.end } else { other.end },
        }
    }
}

} // verus!
