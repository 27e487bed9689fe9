use sdroxide_ui::carried::{Double, Place, Single};
use sdroxide_ui::command::Command;
use sdroxide_ui::decodes::{
    badge, is_even_turn, prepend_decodes, slot_time, snr_color, snr_text, turns, Decode, DecodeSort,
    Emphasis, Facts, Highlight, ListView, NameTone, Outline, Preview, SnrTone, DECODES_MAX,
};
use sdroxide_ui::overlay::{
    ft8_overlay, hash_call, Skimmer, SkimmerKind, SkimmerSpot, FT8_LABEL_MAX_AGE_S,
    FT8_LABEL_SPAN_S, SKIMMER_FADE_US,
};
use std::hash::{Hash, Hasher};

fn decode(from: &str, slot: i64, snr: i16) -> Decode {
    Decode {
        slot_utc: slot,
        snr_db: snr,
        audio_hz: Single(1500f32.to_bits()),
        message: format!("CQ {from}"),
        to: None,
        from: Some(from.to_string()),
        grid: Some("JN77".to_string()),
        place: None,
        is_cq: true,
        free_text: false,
    }
}

fn facts(cq: bool, new: bool, dist: Option<u64>) -> Facts {
    Facts { cq, new, dupe: false, highlight: None, dist }
}

fn rows(view: &ListView, ds: &Vec<Decode>, fs: &Vec<Facts>) -> Vec<(i64, Vec<usize>)> {
    turns(view, ds, fs).into_iter().map(|t| (t.slot, t.rows)).collect()
}

#[test]
fn rows_are_grouped_by_turn_and_ordered_inside() {
    let ds = vec![
        decode("A", 30, -5),
        decode("B", 30, 10),
        decode("C", 30, -5),
        decode("D", 15, 0),
    ];
    let fs = vec![
        facts(true, true, Some(100)),
        facts(false, true, None),
        facts(true, false, Some(900)),
        facts(true, true, Some(5)),
    ];
    let mut v = ListView::default();
    assert_eq!(rows(&v, &ds, &fs), [(30, vec![0, 1, 2]), (15, vec![3])]);
    v.press_sort(DecodeSort::Signal);
    assert_eq!(v.arrow(DecodeSort::Signal), Some(true));
    assert_eq!(v.sort_label(DecodeSort::Signal), "SNR ↓");
    assert_eq!(v.sort_label(DecodeSort::Distance), "Dist");
    assert_eq!(v.sort_label(DecodeSort::AsReceived), "None");
    assert_eq!(rows(&v, &ds, &fs), [(30, vec![1, 0, 2]), (15, vec![3])]);
    v.press_sort(DecodeSort::Signal);
    assert_eq!(v.arrow(DecodeSort::Signal), Some(false));
    assert_eq!(v.sort_label(DecodeSort::Signal), "SNR ↑");
    assert_eq!(rows(&v, &ds, &fs), [(30, vec![0, 2, 1]), (15, vec![3])]);
    v.press_sort(DecodeSort::Distance);
    assert_eq!(rows(&v, &ds, &fs), [(30, vec![2, 0, 1]), (15, vec![3])]);
    v.press_sort(DecodeSort::Distance);
    assert_eq!(rows(&v, &ds, &fs), [(30, vec![0, 2, 1]), (15, vec![3])]);
    v.press_sort(DecodeSort::AsReceived);
    v.press_sort(DecodeSort::AsReceived);
    assert!(v.desc);
    assert_eq!(v.arrow(DecodeSort::AsReceived), None);
    v.cq_only = true;
    assert_eq!(rows(&v, &ds, &fs), [(30, vec![0, 2]), (15, vec![3])]);
    v.new_only = true;
    assert_eq!(rows(&v, &ds, &fs), [(30, vec![0]), (15, vec![3])]);
    assert!(rows(&v, &vec![], &vec![]).is_empty());
}

#[test]
fn new_decodes_go_to_the_front() {
    let mut list: Vec<Decode> = (0..DECODES_MAX).map(|_| decode("OLD", 0, 0)).collect();
    prepend_decodes(&mut list, vec![decode("N1", 15, 0), decode("N2", 15, 0)]);
    assert_eq!(list.len(), DECODES_MAX);
    assert_eq!(list[0].from.as_deref(), Some("N1"));
    assert_eq!(list[1].from.as_deref(), Some("N2"));
    assert_eq!(list[2].from.as_deref(), Some("OLD"));
}

#[test]
fn turns_alternate() {
    assert!(is_even_turn(0, false));
    assert!(!is_even_turn(15, false));
    assert!(is_even_turn(30, false));
    assert!(!is_even_turn(-15, false));
    // Slots of seven and a half seconds, stamped in whole seconds.
    assert!(is_even_turn(0, true));
    assert!(!is_even_turn(7, true));
    assert!(!is_even_turn(8, true));
    assert!(is_even_turn(15, true));
    assert!(!is_even_turn(22, true));
    assert_eq!(slot_time(86_400 + 3723), "01:02:03");
    assert_eq!(slot_time(-1), "23:59:59");
}

#[test]
fn rows_are_coloured() {
    assert_eq!((snr_text(7), snr_text(0), snr_text(-7)), ("+7".into(), "+0".into(), "-7".into()));
    assert_eq!(snr_color(0), SnrTone::Strong);
    assert_eq!(snr_color(-1), SnrTone::Middle);
    assert_eq!(snr_color(-12), SnrTone::Middle);
    assert_eq!(snr_color(-13), SnrTone::Weak);
    for (h, t) in [
        (Some(Highlight::NewDxcc), "DXCC"),
        (Some(Highlight::NewDxccBand), "BAND"),
        (Some(Highlight::NewGrid), "GRID"),
        (Some(Highlight::NewCall), "NEW"),
        (Some(Highlight::Dupe), "DUPE"),
        (None, ""),
    ] {
        assert_eq!(badge(h), t);
    }
}

#[test]
fn a_message_to_me_stands_out() {
    let mut d = decode("K1A", 0, 0);
    let cq = facts(true, false, None);
    let plain = facts(false, false, None);
    assert_eq!(d.emphasis(&cq, "OE3ABC"), Emphasis::Cq);
    assert_eq!(d.emphasis(&plain, "OE3ABC"), Emphasis::Plain);
    assert_eq!(d.name_tone(&cq, "OE3ABC"), NameTone::Cq);
    assert_eq!(d.name_tone(&Facts { dupe: true, ..cq }, "OE3ABC"), NameTone::Faded);
    assert_eq!(d.outline("OE3ABC", &None, true), Outline::Hovered);
    assert_eq!(d.outline("OE3ABC", &None, false), Outline::Nothing);
    assert_eq!(d.outline("OE3ABC", &Some("K1A".to_string()), true), Outline::Preview);
    d.to = Some("OE3ABC".to_string());
    assert!(d.is_to("OE3ABC") && !d.is_to("OE3AB"));
    assert_eq!(d.emphasis(&cq, "OE3ABC"), Emphasis::ToMe);
    assert_eq!(d.name_tone(&cq, "OE3ABC"), NameTone::ToMe);
    assert_eq!(d.outline("OE3ABC", &None, true), Outline::ToMe);
    // Without a callsign nothing is to me.
    d.to = Some(String::new());
    assert!(!d.is_to(""));
    assert_eq!(d.sender(), "K1A");
    d.from = None;
    assert_eq!(d.sender(), "?");
    d.free_text = true;
    assert_eq!(d.sender(), "TEXT");
}

#[test]
fn a_reply_waits_for_a_cq() {
    let mut p = Preview { station: None };
    let mut d = decode("K1A", 0, -7);
    d.place = Some(Place { lat: Double(1), lon: Double(2) });
    assert!(matches!(p.click(&d), Command::SetDigiAudioFreq(f) if f == d.audio_hz));
    assert_eq!(p.station.as_ref().unwrap().0, "K1A");
    match p.reply(&d, "OE3ABC") {
        Some(Command::DigiStartQso { from, grid, snr, wait_for_cq, .. }) => {
            assert_eq!((from.as_str(), grid.as_deref(), snr), ("K1A", Some("JN77"), -7));
            assert!(!wait_for_cq);
        }
        _ => panic!("a reply starts a contact"),
    }
    assert!(p.station.is_none());
    d.is_cq = false;
    assert!(matches!(
        p.reply(&d, "OE3ABC"),
        Some(Command::DigiStartQso { wait_for_cq: true, .. })
    ));
    d.to = Some("OE3ABC".to_string());
    assert!(matches!(
        p.reply(&d, "OE3ABC"),
        Some(Command::DigiStartQso { wait_for_cq: false, .. })
    ));
    d.from = None;
    assert!(p.reply(&d, "OE3ABC").is_none());
    d.place = None;
    p.click(&d);
    assert!(p.station.is_none());
}

#[test]
fn a_call_has_the_hash_of_its_text() {
    for call in ["", "OE3ABC", "K1A/P", "ärger"] {
        let mut h = std::collections::hash_map::DefaultHasher::new();
        call.hash(&mut h);
        assert_eq!(hash_call(call), h.finish());
    }
    assert_ne!(hash_call("K1A"), hash_call("K1B"));
}

#[test]
fn each_station_has_one_box() {
    let ds = vec![
        decode("A", 100, 0),
        decode("B", 100, 0),
        decode("A", 85, 0),
        decode("C", 100 - FT8_LABEL_SPAN_S, 0),
        decode("D", 100 - FT8_LABEL_SPAN_S - 1, 0),
        decode("E", 100, 0),
    ];
    let boxes = ft8_overlay(&ds, 100 + FT8_LABEL_MAX_AGE_S);
    let got: Vec<(usize, bool)> = boxes.iter().map(|b| (b.decode, b.newest)).collect();
    assert_eq!(got, [(0, true), (1, true), (3, false)]);
    assert_eq!(boxes[0].id, hash_call("A"));
    assert!(ft8_overlay(&ds, 101 + FT8_LABEL_MAX_AGE_S).is_empty());
    assert!(ft8_overlay(&vec![], 0).is_empty());
}

#[test]
fn skimmed_signals_fade_after_their_last_keying() {
    let spot = |id: u64, active: bool| SkimmerSpot { id, kind: SkimmerKind::Cw, active };
    let mut s = Skimmer { spots: vec![], keyed: vec![] };
    s.on_spots(vec![spot(1, true), spot(2, false)], 1_000_000);
    // Not known before: it counts as keyed now.
    assert_eq!(s.cw_overlay(1_000_000).len(), 2);
    s.on_spots(vec![spot(1, false), spot(2, true)], 2_000_000);
    let boxes = s.cw_overlay(3_000_000);
    assert_eq!(boxes[0].left, SKIMMER_FADE_US - 2_000_000);
    assert_eq!(boxes[1].left, SKIMMER_FADE_US);
    // Nearly gone is gone.
    s.on_spots(vec![spot(1, false)], 5_000_000);
    assert_eq!(s.cw_overlay(5_899_999).len(), 1);
    assert!(s.cw_overlay(5_900_000).is_empty());
    // Forgotten once it was not reported.
    s.on_spots(vec![], 6_000_000);
    s.on_spots(vec![spot(1, false)], 7_000_000);
    assert_eq!(s.cw_overlay(7_000_000)[0].left, SKIMMER_FADE_US);
}

#[test]
fn a_skimmer_that_is_off_shows_nothing() {
    let spot = |id: u64, kind: SkimmerKind| SkimmerSpot { id, kind, active: true };
    let mut s = Skimmer { spots: vec![], keyed: vec![] };
    s.on_spots(
        vec![spot(1, SkimmerKind::Cw), spot(2, SkimmerKind::Psk), spot(3, SkimmerKind::Rtty)],
        0,
    );
    s.drop_disabled(true, false, true);
    assert_eq!(s.spots.iter().map(|x| x.id).collect::<Vec<_>>(), [1, 3]);
    s.drop_disabled(false, true, false);
    assert!(s.spots.is_empty());
}
