use repl_session::document::{ranges_overlap, Anchor, AnchorRange, Snapshot};
use repl_session::selections::{
    click_hits_selection, display_ranges, DisplayPoint, DisplayRange, DisplaySnapshot,
    PendingSelection, Point, Selection, SelectionsCollection,
};

fn sel(start: (u64, u64), end: (u64, u64)) -> Selection {
    Selection {
        start: Point { row: start.0, column: start.1 },
        end: Point { row: end.0, column: end.1 },
    }
}

#[test]
fn folded_rows_shift_display_rows_up() {
    let display_map = DisplaySnapshot { folded_rows: vec![1, 2] };
    let selections = SelectionsCollection {
        disjoint: vec![sel((0, 0), (3, 4))],
        pending: None,
    };
    let ranges = display_ranges(&display_map, &selections);
    assert_eq!(ranges.len(), 1);
    assert_eq!(ranges[0].start, DisplayPoint { row: 0, column: 0 });
    assert_eq!(ranges[0].end, DisplayPoint { row: 1, column: 4 });
}

#[test]
fn pending_selection_comes_last() {
    let display_map = DisplaySnapshot { folded_rows: vec![] };
    let selections = SelectionsCollection {
        disjoint: vec![sel((0, 0), (0, 2)), sel((1, 0), (1, 5))],
        pending: Some(PendingSelection { selection: sel((4, 1), (4, 3)) }),
    };
    let ranges = display_ranges(&display_map, &selections);
    assert_eq!(ranges.len(), 3);
    assert_eq!(ranges[2].start, DisplayPoint { row: 4, column: 1 });
    assert_eq!(ranges[2].end, DisplayPoint { row: 4, column: 3 });
}

#[test]
fn display_range_contains_is_half_open() {
    let range = DisplayRange {
        start: DisplayPoint { row: 1, column: 2 },
        end: DisplayPoint { row: 2, column: 4 },
    };
    assert!(range.contains(&DisplayPoint { row: 1, column: 2 }));
    assert!(range.contains(&DisplayPoint { row: 1, column: 99 }));
    assert!(range.contains(&DisplayPoint { row: 2, column: 3 }));
    assert!(!range.contains(&DisplayPoint { row: 2, column: 4 }));
    assert!(!range.contains(&DisplayPoint { row: 1, column: 1 }));
    assert!(!range.contains(&DisplayPoint { row: 0, column: 3 }));
}

#[test]
fn clicks_hit_committed_and_pending_selections() {
    let display_map = DisplaySnapshot { folded_rows: vec![] };
    let selections = SelectionsCollection {
        disjoint: vec![sel((0, 0), (0, 4))],
        pending: Some(PendingSelection { selection: sel((2, 0), (2, 4)) }),
    };
    assert!(click_hits_selection(
        &display_map,
        &selections,
        &DisplayPoint { row: 0, column: 1 }
    ));
    assert!(click_hits_selection(
        &display_map,
        &selections,
        &DisplayPoint { row: 2, column: 3 }
    ));
    assert!(!click_hits_selection(
        &display_map,
        &selections,
        &DisplayPoint { row: 1, column: 0 }
    ));
}

#[test]
fn anchors_resolve_until_their_row_is_dropped() {
    let snapshot = Snapshot { version: 3, max_row: 10, dropped_rows: vec![4] };
    assert!(snapshot.anchor_valid(&Anchor { row: 3 }));
    assert!(!snapshot.anchor_valid(&Anchor { row: 4 }));
    assert!(!snapshot.anchor_valid(&Anchor { row: 11 }));
}

#[test]
fn range_overlap_touches_count() {
    let a = AnchorRange { start: Anchor { row: 0 }, end: Anchor { row: 2 } };
    let b = AnchorRange { start: Anchor { row: 2 }, end: Anchor { row: 5 } };
    let c = AnchorRange { start: Anchor { row: 3 }, end: Anchor { row: 5 } };
    assert!(ranges_overlap(&a, &b));
    assert!(ranges_overlap(&b, &a));
    assert!(!ranges_overlap(&a, &c));
}
