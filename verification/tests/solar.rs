use sdroxide_ui::carried::{Double, Place};
use sdroxide_ui::passes::{
    choose_freqs, freq_table, pass_row, pass_title, pass_tone, search_hits, search_line,
    Candidate, Pass, PassKey, PassStep, SatFreqs, SatLink, PASSES_STALE_US,
};
use sdroxide_ui::readouts::{
    age_secs, aurora_rows, award_legend, clock, clouds_note, count_cmes, feed_line, freshness,
    hour_stamp, impact_banner, peak_when, soonest_arrival, strip, tour_line, weather_rows, Arrival,
    Aurora, AuroraOval, AuroraPower, KpPeak, Row, SunStatus, Weather, ARRIVAL_GRACE_S, STRIP_BINS,
};
use sdroxide_ui::solar::{round_even, Click, Label, Pick, SolarUi, Tone, HOUR_NS};
use sdroxide_ui::solar_layer::{upgraded, ALL, AWARDS, CLOUDS, FLARES, PLANETS, QSO, SATS, SPOTS, SUN_OBS};

fn place(n: u64) -> Place {
    Place { lat: Double(n), lon: Double(n + 1) }
}

fn texts(rows: &[Row]) -> Vec<(&str, &str, Tone)> {
    rows.iter().map(|r| (r.label.as_str(), r.value.as_str(), r.tone)).collect()
}

#[test]
fn layers_are_switched_alone() {
    let mut s = SolarUi::default();
    assert_eq!(s.layers, ALL);
    assert!(s.layer(QSO) && !s.layer(AWARDS));
    s.press_layer(QSO);
    assert!(!s.layer(QSO) && s.layer(SATS));
    s.press_layer(QSO);
    assert_eq!(s.layers, ALL);
    // A pair is lit when either half is on, and a press clears both.
    s.set_layers(SPOTS, false);
    assert!(s.layer(SUN_OBS));
    s.press_layer(SUN_OBS);
    assert!(!s.layer(SPOTS) && !s.layer(FLARES));
    s.press_layer(SUN_OBS);
    assert!(s.layer(SPOTS) && s.layer(FLARES));
    assert!(s.has_chip(AWARDS, true) && !s.has_chip(AWARDS, false) && s.has_chip(QSO, false));
}

#[test]
fn a_full_set_stays_full() {
    for old in [0x7f, 0xff, 0x1ff, 0x3ff, 0x7ff] {
        assert_eq!(upgraded(old), ALL);
    }
    assert_eq!(upgraded(0x7fe), 0x7fe);
    assert_eq!(upgraded(0), 0);
    assert_eq!(ALL & CLOUDS, CLOUDS);
    assert_eq!(ALL & PLANETS, PLANETS);
}

#[test]
fn the_tour_ends_with_a_touch() {
    let mut s = SolarUi::default();
    s.press_auto();
    assert!(s.auto && s.resume_tour);
    assert_eq!(s.advance_tour(Some(place(1)), Some(place(5))), Some((place(1), place(5))));
    assert!(s.pivot_overridden);
    assert_eq!(s.advance_tour(None, Some(place(5))), None);
    s.set_layers(QSO, false);
    assert_eq!(s.advance_tour(Some(place(1)), Some(place(5))), None);
    assert!(s.interact(false, false));
    assert!(s.interact(true, false));
    assert!(!s.auto && !s.interact(false, false) && s.interact(false, true));
    assert_eq!(s.advance_tour(None, None), None);
    assert!(!s.pivot_overridden);
    s.auto = true;
    s.double_click();
    assert!(!s.auto && s.take_retarget() && !s.take_retarget());
}

#[test]
fn the_scene_is_moved_in_time() {
    let mut s = SolarUi::default();
    s.press_time(Some(-86_400));
    s.press_time(Some(3600));
    assert_eq!(s.sim_offset_s, -82_800);
    s.press_time(None);
    assert_eq!(s.sim_offset_s, 0);
    s.sim_offset_s = i64::MAX - 1;
    s.press_time(Some(3600));
    assert_eq!(s.sim_offset_s, i64::MAX);
}

#[test]
fn a_replay_loops_round_the_hour() {
    let mut s = SolarUi::default();
    assert!(s.lapse_live());
    assert!(!s.advance_lapse(1_000_000, 60_000));
    s.press_replay();
    assert!(s.lapse_playing);
    assert_eq!(s.lapse_back_ns, HOUR_NS);
    // A second at sixty times real time is a minute.
    assert!(s.advance_lapse(1_000_000, 60_000));
    assert_eq!(s.lapse_back_ns, HOUR_NS / 60 * 59);
    s.advance_lapse(-5, 60_000);
    assert_eq!(s.lapse_back_ns, HOUR_NS / 60 * 59);
    s.advance_lapse(1, 0);
    assert_eq!(s.lapse_back_ns, HOUR_NS / 60 * 59 - 1000);
    s.lapse_back_ns = 600_000_000;
    s.advance_lapse(1_000_000, 1_000_000);
    assert_eq!(s.lapse_back_ns, HOUR_NS, "from the present to the top of the hour");
    s.press_replay();
    assert!(!s.lapse_playing && !s.lapse_live());
    s.press_replay();
    s.drag_lapse(2 * HOUR_NS);
    assert_eq!((s.lapse_playing, s.lapse_back_ns), (false, HOUR_NS));
    s.press_live();
    assert!(s.lapse_live());
}

#[test]
fn the_replay_says_where_it_is() {
    let mut s = SolarUi::default();
    assert_eq!(s.activity_line(0), ("no decodes yet".to_string(), Tone::Dim));
    assert_eq!(s.activity_line(7), ("7 in the hour".to_string(), Tone::Good));
    s.drag_lapse(90_000_000_000);
    assert_eq!(s.activity_line(7), ("−2 min".to_string(), Tone::Plain));
    s.drag_lapse(150_000_000_000);
    assert_eq!(s.activity_line(7).0, "−2 min");
    s.press_layer(QSO);
    assert_eq!(s.activity_line(7), ("QSO layer off".to_string(), Tone::Watch));
    for (n, d) in [(1u64, 2u64), (3, 2), (5, 2), (7, 3), (8, 3), (0, 9), (u64::MAX, 1)] {
        assert_eq!(round_even(n, d).to_string(), format!("{:.0}", n as f64 / d as f64).replace("18446744073709551616", "18446744073709551615"));
    }
}

#[test]
fn a_click_goes_to_the_label_on_top() {
    let label = |click: Click, under_pointer: bool| Label { click, under_pointer };
    let mut s = SolarUi::default();
    let labels = vec![
        label(Click::Focus(4), true),
        label(Click::Sat(25544), true),
        label(Click::Nothing, true),
        label(Click::Focus(2), false),
    ];
    assert!(!s.click_labels(&labels, false));
    assert!(s.click_labels(&labels, true));
    assert_eq!(s.selected_sat, Some(25544));
    // Again closes the passes.
    assert!(s.click_labels(&labels, true));
    assert_eq!(s.selected_sat, None);
    assert!(s.click_labels(&labels[..1].to_vec(), true));
    assert_eq!(s.focus, 4);
    assert!(s.take_retarget() && !s.take_retarget());
    assert!(!s.click_labels(&labels[2..].to_vec(), true));
}

#[test]
fn a_moon_in_front_of_its_planet_can_be_picked() {
    let pick = |focus: u8, distance: u32, radius: u32| Pick { focus, distance, radius };
    let mut s = SolarUi::default();
    s.focus = 9;
    let picks = vec![pick(1, 50, 100), pick(2, 2, 10), pick(3, 1, 5), pick(9, 0, 10), pick(4, 11, 10)];
    // The planet at a half of its radius, the moons at a fifth; the first of those.
    assert_eq!(s.click_bodies(&picks, false), Some(picks[1]));
    assert_eq!(s.focus, 9);
    s.click_bodies(&picks, true);
    assert_eq!((s.focus, s.retarget), (2, true));
    assert_eq!(s.click_bodies(&vec![pick(2, 0, 10)], true), None);
}

#[test]
fn passes_are_predicted_once() {
    let mut s = SolarUi::default();
    let qth = Some(place(1));
    assert_eq!(s.pass_frame(true, qth, true, None, 0), PassStep::Closed);
    s.selected_sat = Some(7);
    assert_eq!(s.pass_frame(false, None, false, None, 0), PassStep::Closed);
    assert_eq!(s.selected_sat, Some(7), "nothing is known without data");
    let key = PassKey { sat: 7, qth: place(1), made: 50 };
    assert_eq!(s.pass_frame(true, qth, true, None, 50), PassStep::Predict(key));
    assert_eq!(s.pass_frame(true, qth, true, Some(key), 50 + PASSES_STALE_US), PassStep::Show);
    assert!(matches!(
        s.pass_frame(true, qth, true, Some(key), 51 + PASSES_STALE_US),
        PassStep::Predict(_)
    ));
    assert!(matches!(
        s.pass_frame(true, Some(place(3)), true, Some(key), 50),
        PassStep::Predict(_)
    ));
    assert!(matches!(
        s.pass_frame(true, qth, true, Some(PassKey { sat: 8, ..key }), 50),
        PassStep::Predict(_)
    ));
    assert_eq!(s.pass_frame(true, qth, false, Some(key), 50), PassStep::Closed);
    assert_eq!(s.selected_sat, None);
    s.selected_sat = Some(7);
    s.pass_frame(true, None, true, Some(key), 50);
    assert_eq!(s.selected_sat, None);
    s.selected_sat = Some(7);
    s.close_passes();
    assert_eq!(s.selected_sat, None);
    assert_eq!(pass_tone(100, 100_000_001), Tone::Good);
    assert_eq!(pass_tone(100, 100_000_000), Tone::Watch);
    assert_eq!(pass_tone(3700, 100_000_000), Tone::Text);
    let row = |max_el: i64| pass_row(&Pass { rise: 1_784_980_800, set: 1_784_981_519, max_el }, 0);
    let r = row(30_000);
    assert_eq!((r.tone, r.ends.as_str(), r.lasts.as_str()), (Tone::Text, "12:11", "11 min"));
    assert_eq!((r.height, row(29_999).height, row(14_999).height), (Tone::Good, Tone::Text, Tone::Dim));
    assert_eq!(pass_title("ISS", "JN77"), "ISS  ·  PASSES FROM JN77");
}

fn link(label: &str, downlink: Option<&str>, note: &str, empty: bool) -> SatLink {
    SatLink {
        label: label.to_string(),
        downlink: downlink.map(|s| s.to_string()),
        uplink: None,
        mode: "FM".to_string(),
        note: note.to_string(),
        empty,
    }
}

#[test]
fn frequencies_are_tabled() {
    let f = SatFreqs {
        name: "AO-91".to_string(),
        links: vec![
            link("empty", None, "ignored", true),
            link("voice", Some("145.960"), "67 Hz tone", false),
            link("beacon", None, "", false),
        ],
    };
    let t = freq_table(Some(&f), true, "ao-91").unwrap();
    assert_eq!(t.heading, "FREQUENCIES  ·  YOURS");
    assert_eq!(t.published, None);
    let rows: Vec<(usize, &str, &str, bool)> = t
        .rows
        .iter()
        .map(|r| (r.link, r.downlink.as_str(), r.uplink.as_str(), r.noted))
        .collect();
    assert_eq!(rows, [(1, "145.960", "—", true), (2, "—", "—", false)]);
    assert_eq!(t.notes, ["voice — 67 Hz tone"]);
    let t = freq_table(Some(&f), false, "RADFXSAT").unwrap();
    assert_eq!((t.heading.as_str(), t.published.as_deref()), ("FREQUENCIES", Some("published as AO-91")));
    assert!(freq_table(None, false, "x").is_none());
    let none = SatFreqs { name: String::new(), links: vec![link("e", None, "", true)] };
    assert!(freq_table(Some(&none), false, "x").is_none());
    let (chosen, own) = choose_freqs(Some(&f), Some(&none));
    assert!(own && chosen.unwrap().name == "AO-91");
    assert!(!choose_freqs(None, Some(&none)).1);
}

#[test]
fn a_single_match_is_opened() {
    let mut s = SolarUi::default();
    let sat = |sat: u64, hit: bool| Candidate { sat, hit };
    let sats = vec![sat(1, false), sat(2, true), sat(3, true)];
    assert_eq!(search_hits(&sats), [2, 3]);
    assert_eq!(search_line("ao", &sats), Some(("2 of 3 tracked".to_string(), Tone::Watch)));
    assert_eq!(search_line(" ", &sats), None);
    assert_eq!(search_line("x", &sats[..1].to_vec()), Some(("no match".to_string(), Tone::Bad)));
    s.search_enter(&sats);
    assert_eq!(s.selected_sat, None);
    s.search_enter(&sats[..2].to_vec());
    assert_eq!(s.selected_sat, Some(2));
    let mut q = "ao".to_string();
    assert!(s.search_frame(&mut q));
    assert_eq!(q, "ao");
    s.press_layer(SATS);
    assert!(!s.search_frame(&mut q));
    assert_eq!(q, "");
}

#[test]
fn old_data_is_never_called_current() {
    let st = |age: Option<&str>, failed: bool| {
        freshness(&Some(SunStatus { age: age.map(|a| a.to_string()), failed }))
    };
    assert_eq!(freshness(&None), ("starting…".to_string(), Tone::Dim));
    assert_eq!(st(Some("5 min"), false), ("5 min".to_string(), Tone::Good));
    assert_eq!(st(Some("5 h"), true), ("5 h · offline".to_string(), Tone::Watch));
    assert_eq!(st(None, true), ("offline".to_string(), Tone::Bad));
    assert_eq!(st(None, false), ("…".to_string(), Tone::Dim));
}

#[test]
fn propagation_is_coloured() {
    let some = |s: &str| s.to_string();
    let w = Weather {
        placed: true,
        muf: Some((23_999, some("24.0"))),
        geomagnetic: Some((400, some("4.0"), some("27"))),
        flux: Some((150, some("150"))),
        xray: Some((some("M1.2"), true)),
    };
    assert_eq!(
        texts(&weather_rows(&w)),
        [
            ("MUF", "24.0 MHz", Tone::Plain),
            ("Kp / A", "4.0 / 27", Tone::Watch),
            ("F10.7", "150 sfu", Tone::Good),
            ("X-ray", "M1.2", Tone::Bad),
        ]
    );
    let w = Weather {
        placed: true,
        muf: None,
        geomagnetic: Some((500, some("5.0"), some("48"))),
        flux: Some((89, some("89"))),
        xray: Some((some("B3"), false)),
    };
    assert_eq!(
        texts(&weather_rows(&w)),
        [
            ("MUF", "no sounder", Tone::Faint),
            ("Kp / A", "5.0 / 48", Tone::Bad),
            ("F10.7", "89 sfu", Tone::Watch),
            ("X-ray", "B3", Tone::Dim),
        ]
    );
    let none = Weather { placed: false, muf: None, geomagnetic: None, flux: None, xray: None };
    assert!(weather_rows(&none).is_empty());
}

#[test]
fn the_aurora_is_read_out() {
    let some = |s: &str| s.to_string();
    let a = Aurora {
        power: Some(AuroraPower { north: some("45"), south: some("30"), words: some("active"), index: 7 }),
        oval: Some(AuroraOval {
            north_edge: Some(some("58°N")),
            south_edge: None,
            home: Some((some("JN77"), some("2"), Tone::Faint)),
        }),
        peak: Some(KpPeak { unix: 9000, kp: (533, some("5.3")), viewline: some("57") }),
    };
    assert_eq!(
        texts(&aurora_rows(&a, 0)),
        [
            ("power N/S", "45 / 30 GW", Tone::Watch),
            ("activity", "active · HPI 7", Tone::Watch),
            ("edge N/S", "58°N / —", Tone::Plain),
            ("JN77", "2 %", Tone::Faint),
            ("Kp peak 24 h", "5.3 in 2 h", Tone::Bad),
            ("viewline", "57° geomag", Tone::Bad),
        ]
    );
    assert!(aurora_rows(&Aurora { power: None, oval: None, peak: None }, 0).is_empty());
    assert_eq!(peak_when("4.0", 5399, 0), "4.0 now");
    assert_eq!(peak_when("4.0", 5400, 0), "4.0 in 2 h");
    assert_eq!(peak_when("4.0", 0, 999), "4.0 now");
    assert_eq!(hour_stamp(75_600), "21z");
    assert_eq!(strip(&vec![]), None);
    let bins: Vec<i64> = (0..10).map(|i| i * 10_800).collect();
    assert_eq!(strip(&bins), Some((STRIP_BINS, "00z".to_string(), "21z".to_string())));
    assert_eq!(strip(&bins[1..2].to_vec()), Some((1, "03z".to_string(), "03z".to_string())));
}

#[test]
fn the_soonest_arrival_is_announced() {
    let now = 1_000_000;
    let late = now - ARRIVAL_GRACE_S;
    assert_eq!(soonest_arrival(&vec![], now), None);
    assert_eq!(soonest_arrival(&vec![None, Some(late - 1)], now), None);
    assert_eq!(soonest_arrival(&vec![Some(now + 5), Some(late), Some(late)], now), Some(1));
    let mut a = Arrival {
        eta_unix: now + 7200,
        eta: "tomorrow".to_string(),
        left: "today".to_string(),
        km_s: "900".to_string(),
        glancing: false,
        estimated: false,
    };
    assert_eq!(
        impact_banner(&a, now),
        "EARTH-DIRECTED CME  today  ·  900 km/s  ·  ETA tomorrow (+2 h)"
    );
    a.eta_unix = now - 1801;
    a.glancing = true;
    a.estimated = true;
    assert_eq!(
        impact_banner(&a, now),
        "EARTH-DIRECTED CME  today  ·  900 km/s  ·  arrival was tomorrow (1 h ago) · glancing · direction estimated"
    );
}

#[test]
fn lines_of_the_info_card() {
    assert_eq!(count_cmes(&vec![Some(0), Some(100), None, Some(101), Some(-7100)], 100, 2), 2);
    assert_eq!(count_cmes(&vec![Some(0)], 0, 0), 0);
    assert_eq!(feed_line(2, 11), "2 CME · 11 spots");
    assert_eq!(tour_line(true, "Moon"), "AUTO  → Moon");
    assert_eq!(tour_line(false, "Moon"), "AUTO  Moon");
    assert_eq!(
        clouds_note("2026-07-25 12:00", "80 min", true, 1),
        "CLOUDS  2026-07-25 12:00  ·  80 min old  ·  IR+VIS  ·  1 storm  ·  lightning simulated"
    );
    assert!(clouds_note("", "", false, 0).contains("IR only  ·  no deep convection"));
    assert!(clouds_note("", "", false, 12).contains("12 storms"));
    assert_eq!(award_legend(200, 80, 60), ["missing  200", "worked  80", "confirmed  60"]);
    assert_eq!(clock(3723, false), ("01:02:03".to_string(), "UTC".to_string()));
    assert_eq!(clock(-1, true), ("23:59:59".to_string(), "-- SIM".to_string()));
    assert_eq!((age_secs(10, 4), age_secs(4, 10)), (6, 0));
    assert_eq!(age_secs(i64::MAX, i64::MIN), i64::MAX);
}
