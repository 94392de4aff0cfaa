//! Cursor selections mapped onto the display.
//!
//! The editor shows the buffer through a display map that can fold rows
//! away; a buffer position maps to a display position by subtracting the
//! folded rows above it. The selection set holds the committed, disjoint
//! selections plus an optional in-progress (pending) one; hit-testing a
//! point against all of them decides, for instance, whether a context
//! menu click landed inside a selection.

use vstd::prelude::*;

verus! {

/// A position in the buffer: row and column.
#[derive(Clone, Copy, PartialEq, Eq, Structural, Debug)]
pub struct Point {
    pub row: u64,
    pub column: u64,
}

/// A position in the display coordinate space, after folding.
#[derive(Clone, Copy, PartialEq, Eq, Structural, Debug)]
pub struct DisplayPoint {
    pub row: u64,
    pub column: u64,
}

/// A selected region of the buffer.
#[derive(Clone, Copy, PartialEq, Eq, Structural, Debug)]
pub struct Selection {
    pub start: Point,
    pub end: Point,
}

/// An in-progress selection, still being dragged out.
#[derive(Clone, Copy, PartialEq, Eq, Structural, Debug)]
pub struct PendingSelection {
    pub selection: Selection,
}

/// The editor's selection set: the committed, disjoint selections and an
/// optional pending one.
pub struct SelectionsCollection {
    pub disjoint: Vec<Selection>,
    pub pending: Option<PendingSelection>,
}

/// A half-open region of the display.
#[derive(Clone, Copy, PartialEq, Eq, Structural, Debug)]
pub struct DisplayRange {
    pub start: DisplayPoint,
    pub end: DisplayPoint,
}

/// Display points order first by row, then by column.
pub open spec fn spec_display_le(a: DisplayPoint, b: DisplayPoint) -> bool {
    a.row < b.row || (a.row == b.row && a.column <= b.column)
}

/// Strict version of the display-point order.
pub open spec fn spec_display_lt(a: DisplayPoint, b: DisplayPoint) -> bool {
    a.row < b.row || (a.row == b.row && a.column < b.column)
}

/// The display map: which buffer rows are folded away. Rows are kept
/// strictly increasing.
pub struct DisplaySnapshot {
    pub folded_rows: Vec<u64>,
}

/// How many of the folded rows lie strictly above `row`.
pub open spec fn spec_hidden_before(folded: Seq<u64>, row: u64) -> int
    decreases folded.len(),
{
    if folded.len() == 0 {
        0
    } else {
        (if folded.first() < row {
            1int
        } else {
            0int
        }) + spec_hidden_before(folded.drop_first(), row)
    }
}

/// In a strictly increasing row list, at most `row` entries lie strictly
/// below `row`, so the display row never underflows.
proof fn lemma_hidden_before_bound(folded: Seq<u64>, row: u64, low: u64)
    requires
        forall|i: int, j: int| 0 <= i < j < folded.len() ==> folded[i] < folded[j],
        forall|i: int| 0 <= i < folded.len() ==> low <= #[trigger] folded[i],
        low <= row,
    ensures
        spec_hidden_before(folded, row) <= row - low,
    decreases folded.len(),
{
    if folded.len() == 0 {
    } else {
        let rest = folded.drop_first();
        assert(forall|i: int| 0 <= i < rest.len() ==> rest[i] == folded[i + 1]);
        if folded.first() < row {
            lemma_hidden_before_bound(rest, row, (low + 1) as u64);
        } else {
            lemma_hidden_before_bound(rest, row, low);
        }
    }
}

impl DisplaySnapshot {
    /// Well-formedness: the folded rows are strictly increasing.
    pub open spec fn wf(self) -> bool {
        forall|i: int, j: int|
            0 <= i < j < self.folded_rows@.len() ==> self.folded_rows@[i] < self.folded_rows@[j]
    }

    /// The display position of a buffer position: the row drops by the
    /// number of folded rows above it, the column is unchanged.
    pub open spec fn spec_to_display_point(self, p: Point) -> DisplayPoint {
        DisplayPoint {
            row: (p.row - spec_hidden_before(self.folded_rows@, p.row)) as u64,
            column: p.column,
        }
    }

    /// Map a buffer position to its display position.
    pub fn to_display_point(&self, p: Point) -> (d: DisplayPoint)
        requires
            self.wf(),
        ensures
            d == self.spec_to_display_point(p),
    {
        proof {
            lemma_hidden_before_bound(self.folded_rows@, p.row, 0);
            assert(self.folded_rows@.skip(0) =~= self.folded_rows@);
        }
        let mut hidden: u64 = 0;
        let mut i: usize = 0;
        while i < self.folded_rows.len()
            invariant
                self.wf(),
                i <= self.folded_rows@.len(),
                hidden == spec_hidden_before(self.folded_rows@, p.row) - spec_hidden_before(
                    self.folded_rows@.skip(i as int),
                    p.row,
                ),
                hidden <= p.row,
            decreases self.folded_rows@.len() - i,
        {
            let ghost remaining = self.folded_rows@.skip(i as int);
            proof {
                assert(remaining.first() == self.folded_rows@[i as int]);
                assert(remaining.drop_first() =~= self.folded_rows@.skip(i as int + 1));
                lemma_hidden_before_bound(self.folded_rows@, p.row, 0);
                assert(spec_hidden_before(remaining, p.row) == (if remaining.first() < p.row {
                    1int
                } else {
                    0int
                }) + spec_hidden_before(remaining.drop_first(), p.row));
            }
            if self.folded_rows[i] < p.row {
                proof {
                    lemma_hidden_before_nonneg(self.folded_rows@.skip(i as int + 1), p.row);
                }
                hidden = hidden + 1;
            }
            i += 1;
        }
        proof {
            assert(self.folded_rows@.skip(self.folded_rows@.len() as int)
                =~= Seq::<u64>::empty());
        }
        DisplayPoint { row: p.row - hidden, column: p.column }
    }
}

/// The hidden-row count is never negative.
proof fn lemma_hidden_before_nonneg(folded: Seq<u64>, row: u64)
    ensures
        spec_hidden_before(folded, row) >= 0,
    decreases folded.len(),
{
    if folded.len() == 0 {
    } else {
        lemma_hidden_before_nonneg(folded.drop_first(), row);
    }
}

/// The display region a selection covers.
pub open spec fn spec_display_range(dm: DisplaySnapshot, s: Selection) -> DisplayRange {
    DisplayRange {
        start: dm.spec_to_display_point(s.start),
        end: dm.spec_to_display_point(s.end),
    }
}

/// Whether `p` lies inside `r`, start inclusive and end exclusive.
pub open spec fn spec_range_contains(r: DisplayRange, p: DisplayPoint) -> bool {
    spec_display_le(r.start, p) && spec_display_lt(p, r.end)
}

impl DisplayRange {
    /// Whether `p` lies inside this region, start inclusive and end
    /// exclusive, ordering display points by row then column.
    pub fn contains(&self, p: &DisplayPoint) -> (r: bool)
        ensures
            r == spec_range_contains(*self, *p),
    {
        let after_start = self.start.row < p.row || (self.start.row == p.row && self.start.column
            <= p.column);
        let before_end = p.row < self.end.row || (p.row == self.end.row && p.column
            < self.end.column);
        after_start && before_end
    }
}

/// The display regions of every selection: the committed ones in order,
/// then the pending one if a selection is still being dragged out.
pub fn display_ranges(display_map: &DisplaySnapshot, selections: &SelectionsCollection) -> (r: Vec<
    DisplayRange,
>)
    requires
        display_map.wf(),
    ensures
        r@.len() == selections.disjoint@.len() + if selections.pending is Some {
            1int
        } else {
            0int
        },
        forall|i: int|
            0 <= i < selections.disjoint@.len() ==> r@[i] == spec_display_range(
                *display_map,
                selections.disjoint@[i],
            ),
        selections.pending matches Some(pending) ==> r@.last() == spec_display_range(
            *display_map,
            pending.selection,
        ),
{
    let mut r: Vec<DisplayRange> = Vec::new();
    let mut i: usize = 0;
    while i < selections.disjoint.len()
        invariant
            display_map.wf(),
            i <= selections.disjoint@.len(),
            r@.len() == i,
            forall|j: int|
                0 <= j < i ==> r@[j] == spec_display_range(
                    *display_map,
                    selections.disjoint@[j],
                ),
        decreases selections.disjoint@.len() - i,
    {
        let s = selections.disjoint[i];
        r.push(
            DisplayRange {
                start: display_map.to_display_point(s.start),
                end: display_map.to_display_point(s.end),
            },
        );
        i += 1;
    }
    match &selections.pending {
        Some(pending) => {
            let s = pending.selection;
            r.push(
                DisplayRange {
                    start: display_map.to_display_point(s.start),
                    end: display_map.to_display_point(s.end),
                },
            );
        },
        None => {},
    }
    r
}

/// Whether a click at `point` lands inside any selection, committed or
/// pending — the test that decides whether a context-menu click moves the
/// cursor to the clicked location first.
pub open spec fn spec_click_hits_selection(
    dm: DisplaySnapshot,
    selections: SelectionsCollection,
    point: DisplayPoint,
) -> bool {
    ||| exists|i: int|
        0 <= i < selections.disjoint@.len() && spec_range_contains(
            spec_display_range(dm, #[trigger] selections.disjoint@[i]),
            point,
        )
    ||| selections.pending matches Some(pending) && spec_range_contains(
        spec_display_range(dm, pending.selection),
        point,
    )
}

/// Hit-test `point` against every selection's display region.
pub fn click_hits_selection(
    display_map: &DisplaySnapshot,
    selections: &SelectionsCollection,
    point: &DisplayPoint,
) -> (r: bool)
    requires
        display_map.wf(),
    ensures
        r == spec_click_hits_selection(*display_map, *selections, *point),
{
    let ranges = display_ranges(display_map, selections);
    let disjoint_len = selections.disjoint.len();
    let mut i: usize = 0;
    while i < disjoint_len
        invariant
            display_map.wf(),
            i <= disjoint_len == selections.disjoint@.len(),
            ranges@.len() == selections.disjoint@.len() + if selections.pending is Some {
                1int
            } else {
                0int
            },
            forall|j: int|
                0 <= j < selections.disjoint@.len() ==> ranges@[j] == spec_display_range(
                    *display_map,
                    selections.disjoint@[j],
                ),
            selections.pending matches Some(pending) ==> ranges@.last() == spec_display_range(
                *display_map,
                pending.selection,
            ),
            forall|j: int|
                0 <= j < i ==> !spec_range_contains(
                    spec_display_range(*display_map, #[trigger] selections.disjoint@[j]),
                    *point,
                ),
        decreases disjoint_len - i,
    {
        if ranges[i].contains(point) {
            return true;
        }
        i += 1;
    }
    match &selections.pending {
        Some(_) => ranges[ranges.len() - 1].contains(point),
        None => false,
    }
}

} // verus!
