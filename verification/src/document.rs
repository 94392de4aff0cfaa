//! Positions in the document that the session executes code from.
//!
//! The document collaborator hands out anchors: position references in a
//! stable row coordinate space, so that two anchors can be compared without
//! consulting the text. A snapshot is the document's point-in-time answer
//! to which anchors still resolve: an edit that deletes the text an anchor
//! was attached to makes the anchor unresolvable in every later snapshot.

use vstd::prelude::*;

verus! {

/// A position reference into the document, stable across edits.
#[derive(Clone, Copy, PartialEq, Eq, Structural, Debug)]
pub struct Anchor {
    /// Row in the document's stable coordinate space.
    pub row: u64,
}

/// The anchored region of source code one execution was submitted from.
#[derive(Clone, Copy, PartialEq, Eq, Structural, Debug)]
pub struct AnchorRange {
    pub start: Anchor,
    pub end: Anchor,
}

/// A point-in-time view of the document: how many rows exist and which
/// stable rows no longer resolve (their text was deleted by an edit).
pub struct Snapshot {
    /// Monotonically advancing document version.
    pub version: u64,
    /// Last row of the document in this snapshot.
    pub max_row: u64,
    /// Stable rows whose anchors no longer resolve.
    pub dropped_rows: Vec<u64>,
}

/// Two anchored ranges overlap when neither lies strictly past the other.
pub open spec fn spec_ranges_overlap(a: AnchorRange, b: AnchorRange) -> bool {
    a.start.row <= b.end.row && b.start.row <= a.end.row
}

/// Whether two anchored code ranges overlap.
pub fn ranges_overlap(a: &AnchorRange, b: &AnchorRange) -> (r: bool)
    ensures
        r == spec_ranges_overlap(*a, *b),
{
    a.start.row <= b.end.row && b.start.row <= a.end.row
}

impl Snapshot {
    /// An anchor resolves in this snapshot when its row still exists and
    /// was not dropped by an edit.
    pub open spec fn spec_anchor_valid(self, a: Anchor) -> bool {
        a.row <= self.max_row && !self.dropped_rows@.contains(a.row)
    }

    /// Whether `a` still resolves against this snapshot.
    pub fn anchor_valid(&self, a: &Anchor) -> (r: bool)
        ensures
            r == self.spec_anchor_valid(*a),
    {
        if a.row > self.max_row {
            return false;
        }
        let mut i: usize = 0;
        while i < self.dropped_rows.len()
            invariant
                i <= self.dropped_rows.len(),
                forall|j: int| 0 <= j < i ==> self.dropped_rows@[j] != a.row,
            decreases self.dropped_rows.len() - i,
        {
            if self.dropped_rows[i] == a.row {
                assert(self.dropped_rows@.contains(a.row));
                return false;
            }
            i += 1;
        }
        assert(!self.dropped_rows@.contains(a.row));
        true
    }
}

} // verus!
