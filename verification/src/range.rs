//! A half-open byte range, used for capture spans, search regions and
//! diagnostic block extents.

use vstd::prelude::*;

verus! {

/// Half-open range `[start, end)` of byte or entry positions.
#[derive(Clone, Copy, Debug, PartialEq, Eq)]
pub struct ByteRange {
    pub start: usize,
    pub end: usize,
}

impl ByteRange {
    /// Build the range `[start, end)`.
    pub fn new(start: usize, end: usize) -> (r: ByteRange)
        ensures
            r == (ByteRange { start, end }),
    {
        ByteRange { start, end }
    }

    /// True when `i` lies in the range.
    pub open spec fn spec_contains(self, i: int) -> bool {
        self.start <= i < self.end
    }

    /// True when `i` lies in the range.
    pub fn contains(&self, i: usize) -> (r: bool)
        ensures
            r == self.spec_contains(i as int),
    {
        self.start <= i && i < self.end
    }

    /// Number of positions in the range (zero when it is inverted).
    pub fn len(&self) -> (r: usize)
        ensures
            self.start <= self.end ==> r == self.end - self.start,
            self.start > self.end ==> r == 0,
    {
        if self.start <= self.end {
            self.end - self.start
        } else {
            0
        }
    }
}

} // verus!
