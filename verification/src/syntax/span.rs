//! Source locations.
use vstd::prelude::*;

verus! {

/// A byte range in a source file.
#[derive(Debug, Clone, Copy, PartialEq, Eq, Structural)]
pub struct Span {
    pub file_id: u32,
    pub start: u32,
    pub end: u32,
}

/// The span covering both `a` and `b` (keeping the file of `a`).
pub open spec fn spec_merge(a: Span, b: Span) -> Span {
    Span {
        file_id: a.file_id,
        start: if a.start <= b.start { a.start } else { b.start },
        end: if a.end >= b.end { a.end } else { b.end },
    }
}

impl Span {
    pub fn new(file_id: u32, start: u32, end: u32) -> (r: Span)
        ensures
            r == (Span { file_id, start, end }),
    {
        Span { file_id, start, end }
    }

    pub fn merge(self, other: Span) -> (r: Span)
        ensures
            r == spec_merge(self, other),
    {
        Span {
            file_id: self.file_id,
            start: if self.start <= other.start { self.start } else { other.start },
            end: if self.end >= other.end { self.end } else { other.end },
        }
    }
}

} // verus!
