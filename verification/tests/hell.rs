use sdroxide_ui::hell::{HellUi, Run, Upload, DISPLAY_ROWS, RING_COLS, ROWS};

fn ramp(n: usize) -> Vec<u8> {
    (0..n * ROWS).map(|i| (i % 256) as u8).collect()
}

#[test]
fn a_batch_advances_the_head_by_its_column_count() {
    let mut ui = HellUi::default();
    ui.on_columns(0, ROWS as u8, &ramp(5), false);
    assert_eq!(ui.head, 5);
    assert_eq!(ui.expect, 5);
    ui.on_columns(5, ROWS as u8, &ramp(3), false);
    assert_eq!(ui.head, 8);
}

#[test]
fn a_dropped_batch_leaves_a_gap_of_the_right_width() {
    let mut ui = HellUi::default();
    ui.on_columns(0, ROWS as u8, &vec![255; 2 * ROWS], false);
    // Columns 2..7 never arrived.
    ui.on_columns(7, ROWS as u8, &vec![255; 2 * ROWS], false);
    assert_eq!(ui.head, 9, "the gap must occupy its real width");
    assert_eq!(ui.expect, 9);
    // The skipped span is blank, not a splice of the surrounding text.
    for x in 2..7 {
        assert!(ui.gray[x * ROWS..(x + 1) * ROWS].iter().all(|&v| v == 0), "column {x}");
    }
}

#[test]
fn two_batches_leave_what_one_does() {
    for (a, b) in [(3, 4), (RING_COLS - 1, 5), (RING_COLS + 7, RING_COLS + 9)] {
        let all: Vec<u8> = (0..(a + b) * ROWS).map(|i| (i % 251) as u8).collect();
        let mut apart = HellUi::default();
        apart.on_columns(9, ROWS as u8, &all[..a * ROWS], false);
        apart.on_columns(9 + a as u64, ROWS as u8, &all[a * ROWS..], false);
        let mut joined = HellUi::default();
        joined.on_columns(9, ROWS as u8, &all, false);
        assert!(apart.gray == joined.gray);
        assert_eq!((apart.head, apart.expect), (joined.head, joined.expect));
    }
}

#[test]
fn a_rewound_seq_clears_the_strip() {
    let mut ui = HellUi::default();
    ui.on_columns(0, ROWS as u8, &vec![255; 4 * ROWS], false);
    assert_eq!(ui.head, 4);
    // The engine restarted the receiver.
    ui.on_columns(0, ROWS as u8, &vec![128; ROWS], false);
    assert_eq!(ui.head, 1, "a rewound seq must start a fresh strip");
}

#[test]
fn a_mismatched_row_count_is_rejected() {
    let mut ui = HellUi::default();
    ui.on_columns(0, 7, &vec![255; 7], false);
    assert_eq!(ui.head, 0, "a batch of the wrong geometry must not touch the ring");
}

#[test]
fn writes_wrap_the_ring_without_overflowing() {
    let mut ui = HellUi::default();
    // Land the head near the end, then write across the seam.
    ui.head = RING_COLS as u64 - 3;
    ui.expect = ui.head;
    ui.on_columns(ui.expect, ROWS as u8, &vec![200; 6 * ROWS], false);
    assert_eq!(ui.head, RING_COLS as u64 + 3);
    assert!(ui.gray[(RING_COLS - 1) * ROWS] == 200, "pre-seam column");
    assert!(ui.gray[0] == 200, "post-seam column");
}

#[test]
fn a_partial_column_is_rejected() {
    let mut ui = HellUi::default();
    assert_eq!(ui.on_columns(0, ROWS as u8, &vec![255; ROWS + 1], false), Upload::Nothing);
    assert_eq!(ui.on_columns(0, ROWS as u8, &[], false), Upload::Nothing);
    assert_eq!(ui.head, 0);
}

#[test]
fn the_first_batch_builds_and_later_ones_patch() {
    let mut ui = HellUi::default();
    assert_eq!(ui.on_columns(0, ROWS as u8, &ramp(2), false), Upload::Rebuild);
    assert_eq!(
        ui.on_columns(2, ROWS as u8, &ramp(3), false),
        Upload::One(Run { x0: 2, n: 3 })
    );
    // Changed controls build it all anew.
    assert_eq!(ui.on_columns(5, ROWS as u8, &ramp(1), true), Upload::Rebuild);
    ui.head = RING_COLS as u64 - 1;
    ui.expect = ui.head;
    assert_eq!(
        ui.on_columns(ui.expect, ROWS as u8, &ramp(3), false),
        Upload::Two(Run { x0: RING_COLS - 1, n: 1 }, Run { x0: 0, n: 2 })
    );
}

#[test]
fn a_patch_shows_every_column_twice() {
    let mut ui = HellUi::default();
    ui.on_columns(0, ROWS as u8, &ramp(2), false);
    let px = ui.patch(0, 2);
    assert_eq!(px.len(), 2 * DISPLAY_ROWS);
    // The copies below are those above.
    for row in 0..DISPLAY_ROWS - ROWS {
        assert_eq!(px[row * 2..row * 2 + 2], px[(row + ROWS) * 2..(row + ROWS) * 2 + 2]);
    }
    // Both columns hold their own dots, whatever way up.
    for x in 0..2 {
        let mut shown: Vec<u8> = (0..ROWS).map(|r| px[r * 2 + x]).collect();
        let mut sent: Vec<u8> = ui.gray[x * ROWS..(x + 1) * ROWS].to_vec();
        shown.sort();
        sent.sort();
        assert_eq!(shown, sent);
    }
}

#[test]
fn clearing_leaves_blank_paper() {
    let mut ui = HellUi::default();
    ui.on_columns(0, ROWS as u8, &vec![9; 3 * ROWS], false);
    assert!(!ui.stale(false));
    assert!(ui.stale(true));
    ui.clear();
    assert_eq!((ui.head, ui.expect), (0, 0));
    assert!(ui.gray.iter().all(|&v| v == 0));
    assert!(ui.stale(false));
    assert_eq!(ui.rebuild().len(), RING_COLS * DISPLAY_ROWS);
    assert!(!ui.stale(false));
}
