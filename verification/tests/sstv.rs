use image::ImageEncoder;
use sdroxide_ui::command::Command;
use sdroxide_ui::sstv::{
    count_sides, decode_image, slant_sends, sstv_load_gallery, sstv_load_messages, sstv_load_slots, sstv_save_messages,
    sstv_save_slot, Activity, ModeChoice, PreviewNeed,
    SstvSlot, SstvStatus, SstvUi, Transmit, GALLERY_FILES_MAX, MARTIN_1, RECEIVED_MAX, SLOTS,
};
use sdroxide_ui::wefax::Rgb;

fn status(detected: Option<u8>) -> SstvStatus {
    SstvStatus { detected, rx_active: false, tx_active: false }
}

fn picture(v: u8) -> SstvSlot {
    SstvSlot { src_rgb: vec![v; 3], sw: 1, sh: 1 }
}

#[test]
fn rows_are_painted_into_the_picture() {
    let mut s = SstvUi::default();
    assert!(!s.on_line(1, 0, &[9; 6], 2, 2), "no mode was detected");
    assert!(s.rx.is_none());
    s.on_status(status(Some(3)));
    assert!(s.on_line(1, 1, &[1, 2, 3, 4, 5, 6], 2, 2));
    let p = s.rx.as_ref().unwrap();
    assert_eq!(p.size, (2, 2));
    let black = Rgb { r: 0, g: 0, b: 0 };
    let row = [Rgb { r: 1, g: 2, b: 3 }, Rgb { r: 4, g: 5, b: 6 }];
    assert_eq!(p.pixels, [black, black, row[0], row[1]]);
    // A row outside, or one cut short, changes nothing.
    assert!(s.on_line(1, 2, &[9; 6], 2, 2));
    assert!(s.on_line(1, 0, &[9; 5], 2, 2));
    assert_eq!(s.rx.as_ref().unwrap().pixels, [black, black, row[0], row[1]]);
    // Another picture starts black.
    assert!(s.on_line(2, 0, &[7; 6], 2, 1));
    assert_eq!(s.rx.as_ref().unwrap().pixels, [Rgb { r: 7, g: 7, b: 7 }; 2]);
    // A picture that was begun in another mode keeps its size.
    assert!(s.on_line(2, 0, &[8; 3], 1, 5));
    let p = s.rx.as_ref().unwrap();
    assert_eq!(p.size, (2, 1));
    assert_eq!(p.pixels[0], Rgb { r: 8, g: 8, b: 8 });
    assert_eq!(p.pixels[1], Rgb { r: 7, g: 7, b: 7 });
}

#[test]
fn finished_pictures_fill_the_gallery() {
    let mut s = SstvUi::default();
    for i in 0..RECEIVED_MAX as u64 + 1 {
        s.on_image(1, Some(i));
    }
    assert_eq!(s.received.len(), RECEIVED_MAX);
    assert_eq!((s.received[0].mode, s.received[0].tex), (Some(1), RECEIVED_MAX as u64));
    s.on_image(1, None);
    assert_eq!(s.received.len(), RECEIVED_MAX);
    s.enlarged = Some(0);
    assert_eq!(s.enlarged_entry().unwrap().tex, RECEIVED_MAX as u64);
    s.enlarged = Some(RECEIVED_MAX);
    assert!(s.enlarged_entry().is_none());
    assert_eq!(s.enlarged, None);
}

#[test]
fn a_steady_detection_leaves_the_choice_alone() {
    let mut s = SstvUi::default();
    s.on_status(status(Some(4)));
    assert_eq!(s.tx_mode, 4);
    assert_eq!(s.press_mode(2), ModeChoice(Some(2)));
    assert!(s.mode_lit(2) && !s.mode_lit(4));
    s.on_status(status(Some(4)));
    assert_eq!(s.tx_mode, 2);
    s.on_status(status(None));
    s.on_status(status(Some(4)));
    assert_eq!(s.tx_mode, 4);
    assert_eq!(s.press_auto(), ModeChoice(None));
    assert_eq!(s.tx_mode, MARTIN_1);
    assert!(!s.mode_lit(MARTIN_1));
}

#[test]
fn the_activity_line() {
    let mut s = SstvUi::default();
    assert_eq!(s.activity(), Activity::Listening);
    s.on_status(status(Some(4)));
    assert_eq!(s.activity(), Activity::Last(4));
    s.status.rx_active = true;
    assert_eq!(s.activity(), Activity::Receiving);
    s.status.tx_active = true;
    assert_eq!(s.activity(), Activity::Transmitting);
}

#[test]
fn a_picked_file_goes_into_its_slot() {
    let mut s = SstvUi::default();
    assert_eq!(s.ensure_preview(), PreviewNeed::Drop);
    assert_eq!(s.ensure_preview(), PreviewNeed::AsIs);
    assert_eq!(s.load_label(), "Load image…");
    assert_eq!(s.auto_label("Martin 1"), "Auto (Martin 1)");
    s.press_mode(2);
    assert_eq!(s.auto_label("Scottie 1"), "Auto");
    s.press_auto();
    assert!(slant_sends(true, false, true) && slant_sends(false, true, false));
    assert!(!slant_sends(false, true, true));
    assert_eq!(s.click_slot(3, true), (true, false));
    assert_eq!(s.picked(Some(picture(5))), Some(3));
    assert_eq!((s.selected_slot, s.pick_target), (3, None));
    assert!(s.has_image());
    assert_eq!(s.load_label(), "Change image…");
    assert_eq!(s.ensure_preview(), PreviewNeed::Build(3));
    assert_eq!(s.picked(Some(picture(5))), None, "nothing was asked for");
    assert_eq!(s.click_slot(3, false), (false, false));
    // An empty slot is selected and asks for a file.
    assert_eq!(s.click_slot(1, false), (true, true));
    assert_eq!((s.selected_slot, s.pick_target), (1, Some(1)));
    assert_eq!(s.click_slot(1, false), (true, false));
    s.pick_target = None;
    // One that holds a picture is only selected.
    assert_eq!(s.click_slot(3, false), (false, true));
    assert_eq!((s.selected_slot, s.pick_target), (3, None));
    assert_eq!(s.click_slot(1, true), (true, false));
    assert_eq!((s.selected_slot, s.pick_target), (3, Some(1)));
    s.click_slot(1, false);
    s.pick_target = None;
    assert!(!s.has_image() && !s.can_tx() && s.press_tx().is_none());
    s.press_load();
    assert_eq!(s.pick_target, Some(1));
    assert_eq!(s.picked(None), None);
    assert_eq!(s.pick_target, None);
    s.set_slot(1, picture(6));
    assert!(s.can_tx());
    assert_eq!(s.press_tx(), Some(Transmit { slot: 1, mode: MARTIN_1 }));
    assert!(s.press_abort().is_none());
    s.status.tx_active = true;
    assert!(!s.can_tx());
    assert!(matches!(s.press_abort(), Some(Command::DigiAbortTx)));
}

#[test]
fn each_slot_has_its_message() {
    let mut s = SstvUi::default();
    s.edit_message("CQ SSTV");
    s.click_slot(2, false);
    assert_eq!(s.current_message(), "");
    s.click_slot(0, false);
    assert_eq!(s.current_message(), "CQ SSTV");
    s.ensure_preview();
    s.sync_callsign("OE3ABC");
    assert_eq!(s.ensure_preview(), PreviewNeed::Drop);
    s.sync_callsign("OE3ABC");
    assert_eq!(s.ensure_preview(), PreviewNeed::AsIs);
}

#[test]
fn what_was_stored_is_taken_in_once() {
    let mut s = SstvUi::default();
    let mut slots: Vec<Option<SstvSlot>> = (0..SLOTS + 1).map(|_| None).collect();
    slots[4] = Some(picture(1));
    slots[5] = Some(picture(2));
    let messages: Vec<String> = (0..SLOTS + 2).map(|i| format!("m{i}")).collect();
    s.load_disk_once(slots, messages, &vec![70, 71]);
    assert!(s.slots[4].is_some() && s.slots[0].is_none());
    assert_eq!(s.slots.len(), SLOTS);
    assert_eq!(s.slot_messages[4], "m4");
    assert_eq!(s.received.iter().map(|r| r.tex).collect::<Vec<_>>(), [70, 71]);
    s.load_disk_once(vec![], vec!["other".to_string()], &vec![9]);
    assert_eq!((s.slot_messages[0].as_str(), s.received.len()), ("m0", 2));
    assert_eq!(sstv_save_slot(3), "slot3.png");
    assert_eq!(sstv_load_slots(None).len(), SLOTS);
    let messages = vec!["CQ".to_string(), String::new(), "73".to_string()];
    assert_eq!(sstv_save_messages(&messages, true), Some(messages.clone()));
    assert_eq!(sstv_save_messages(&messages, false), None);
    assert_eq!(sstv_load_messages(Some(messages.clone())), messages);
    assert!(sstv_load_messages(None).is_empty());
}

#[test]
fn the_newest_files_are_loaded() {
    let mut names: Vec<String> = (0..GALLERY_FILES_MAX + 3).map(|i| format!("a{i:03}.png")).collect();
    names.push("z.txt".to_string());
    names.push(".png".to_string());
    names.push("b.png".to_string());
    let got = sstv_load_gallery(&names);
    assert_eq!(got.len(), GALLERY_FILES_MAX);
    assert_eq!(got[0], "b.png");
    assert_eq!(got[1], format!("a{:03}.png", GALLERY_FILES_MAX + 2));
}

#[test]
fn a_picture_file_decodes_to_its_pixels() {
    let rgb: Vec<u8> = (0..18).map(|i| i * 11).collect();
    let mut file = Vec::new();
    image::codecs::png::PngEncoder::new(&mut file)
        .write_image(&rgb, 2, 3, image::ExtendedColorType::Rgb8)
        .unwrap();
    assert_eq!(decode_image(&file), Some((rgb.clone(), 2, 3)));
    assert_ne!(file, rgb);
    let mut file = Vec::new();
    image::codecs::jpeg::JpegEncoder::new(&mut file)
        .write_image(&[200; 12], 2, 2, image::ExtendedColorType::Rgb8)
        .unwrap();
    let (px, w, h) = decode_image(&file).unwrap();
    assert_eq!((px.len(), w, h), (12, 2, 2));
    assert_eq!(decode_image(b"no picture"), None);
    assert_eq!(count_sides(Some((vec![1], 65_535, 1))), Some((vec![1], 65_535, 1)));
    assert_eq!(count_sides(Some((vec![], 65_536, 1))), None);
    assert_eq!(count_sides(Some((vec![], 1, 65_536))), None);
    assert_eq!(count_sides(None), None);
}
