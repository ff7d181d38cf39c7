//! The data the renderer consumes: aligned line pairs, the per-side sets
//! of novel lines, and a hunk descriptor.
//!
//! Line numbers are zero-based indices into one side's line sequence; the
//! left side's and the right side's numbers are separate spaces, so a pair
//! carries one slot per side.

use vstd::prelude::*;

verus! {

/// One entry of a line alignment: a left line number, a right line
/// number, or both — the diff engine's claim that these lines correspond,
/// or that the present side's line has no counterpart.
#[derive(Clone, Copy)]
pub struct AlignedPair {
    /// The left side's line number, if the left side takes part.
    pub lhs: Option<usize>,
    /// The right side's line number, if the right side takes part.
    pub rhs: Option<usize>,
}

impl AlignedPair {
    /// A pair must name a line on at least one side.
    pub open spec fn wf(self) -> bool {
        self.lhs is Some || self.rhs is Some
    }

    pub fn new(lhs: Option<usize>, rhs: Option<usize>) -> (r: AlignedPair)
        ensures
            r.lhs == lhs,
            r.rhs == rhs,
    {
        AlignedPair { lhs, rhs }
    }
}

/// Every left line number a pair sequence names lies below `n`.
pub open spec fn lhs_in_range(pairs: Seq<AlignedPair>, n: int) -> bool {
    forall|i: int|
        0 <= i < pairs.len() ==> (#[trigger] pairs[i].lhs matches Some(k) ==> k < n)
}

/// Every right line number a pair sequence names lies below `n`.
pub open spec fn rhs_in_range(pairs: Seq<AlignedPair>, n: int) -> bool {
    forall|i: int|
        0 <= i < pairs.len() ==> (#[trigger] pairs[i].rhs matches Some(k) ==> k < n)
}

/// The set of line numbers on one side whose content is not shared with
/// the other revision. A number outside the set is shared context.
pub struct NovelSet {
    lines: Vec<usize>,
}

impl View for NovelSet {
    type V = Set<usize>;

    closed spec fn view(&self) -> Set<usize> {
        Set::new(|n: usize| self.lines@.contains(n))
    }
}

impl NovelSet {
    /// The set of the line numbers listed in `lines`.
    pub fn from_lines(lines: Vec<usize>) -> (r: NovelSet)
        ensures
            forall|n: usize| r@.contains(n) <==> lines@.contains(n),
    {
        NovelSet { lines }
    }

    /// Whether line number `n` is novel.
    pub fn contains(&self, n: usize) -> (r: bool)
        ensures
            r == self@.contains(n),
    {
        let mut i: usize = 0;
        while i < self.lines.len()
            invariant
                i <= self.lines@.len(),
                forall|j: int| 0 <= j < i ==> self.lines@[j] != n,
            decreases self.lines@.len() - i,
        {
            if self.lines[i] == n {
                return true;
            }
            i = i + 1;
        }
        false
    }
}

/// One display unit of the diff: the slice of the aligned-line sequence
/// that belongs to it, together with the supplied header ranges. The
/// renderer formats the ranges into the hunk header and does not compute
/// them.
pub struct Hunk {
    /// The left side's `@@`-header range, as supplied.
    pub lhs_range: String,
    /// The right side's `@@`-header range, as supplied.
    pub rhs_range: String,
    /// The aligned pairs belonging to this hunk, in display order.
    pub pairs: Vec<AlignedPair>,
}

} // verus!
