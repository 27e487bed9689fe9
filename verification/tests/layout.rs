use sdroxide_ui::layout::{
    decode_list_width, digital_rows, map_height, sstv_columns, Divider, SstvColumns,
};

const PT: u32 = 1000;

#[test]
fn the_decode_list_keeps_a_usable_width() {
    assert_eq!(decode_list_width(1000 * PT, 520_000), 520 * PT);
    assert_eq!(decode_list_width(1000 * PT, 100_000), 180 * PT);
    assert_eq!(decode_list_width(1000 * PT, 900_000), 773 * PT);
    // Too narrow for both.
    assert_eq!(decode_list_width(300 * PT, 520_000), 180 * PT);
}

#[test]
fn panel_and_waterfall_fill_the_window() {
    assert_eq!(digital_rows(800 * PT, 460_000), (368 * PT, 425 * PT));
    assert_eq!(digital_rows(800 * PT, 900_000), (660 * PT, 133 * PT));
    assert_eq!(digital_rows(200 * PT, 460_000), (190 * PT, 80 * PT));
}

#[test]
fn the_columns_of_the_sstv_panel() {
    let pt = |send: u32, receive: u32, live: u32, gallery: u32| SstvColumns {
        send: send * PT,
        receive: receive * PT,
        live: live * PT,
        gallery: gallery * PT,
    };
    let wide =
        SstvColumns { send: 703_500, receive: 696_500, live: 410_900, gallery: 278_600 };
    assert_eq!(sstv_columns(1407 * PT, 500_000, 400_000), wide);
    assert_eq!(sstv_columns(607 * PT, 100_000, 900_000), pt(300, 300, 160, 150));
    assert_eq!(sstv_columns(100 * PT, 500_000, 500_000), pt(300, 300, 160, 150));
}

#[test]
fn the_map_leaves_room_below() {
    assert_eq!(map_height(524 * PT, 900 * PT, 100 * PT, 0), 100 * PT);
    assert_eq!(map_height(524 * PT, 900 * PT, 100 * PT, 1_000_000), 400 * PT);
    assert_eq!(map_height(524 * PT, 900 * PT, 100 * PT, 600_000), 280 * PT);
    // No taller than wide, and never under its least.
    assert_eq!(map_height(524 * PT, 200 * PT, 100 * PT, 1_000_000), 200 * PT);
    assert_eq!(map_height(50 * PT, 200 * PT, 100 * PT, 1_000_000), 100 * PT);
}

#[test]
fn dividers_are_dragged_within_their_ends() {
    assert_eq!(Divider::Decodes.drag(520_000, 100_000, 1000 * PT), 620_000);
    assert_eq!(Divider::Decodes.drag(520_000, -100_000, 1000 * PT), 420_000);
    assert_eq!(Divider::Decodes.drag(520_000, 900_000, 1000 * PT), 720_000);
    assert_eq!(Divider::Send.drag(380_000, 100_000, 1000 * PT), 280_000);
    assert_eq!(Divider::Send.drag(380_000, -900_000, 1000 * PT), 600_000);
    assert_eq!(Divider::Gallery.drag(400_000, 900_000, 1000 * PT), 200_000);
    assert_eq!(Divider::Panel.drag(460_000, -10_000, 100 * PT), 560_000);
    assert_eq!(Divider::World.drag(600_000, 1, 0), 601_000);
    assert_eq!(Divider::World.drag(600_000, 0, 0), 600_000);
    assert_eq!(Divider::World.drag(0, i32::MIN, 1000), 0);
}
