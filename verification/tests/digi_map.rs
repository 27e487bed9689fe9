use sdroxide_ui::carried::{Double, Place};
use sdroxide_ui::digi_map::{DigiStations, Heard, Lit, FUTURE_S, HISTORY_S, STATION_FADE_US};

const NOW: i64 = 1_784_937_600;

fn place(lat: f64, lon: f64) -> Place {
    Place { lat: Double(lat.to_bits()), lon: Double(lon.to_bits()) }
}

/// The middle of the squares that the tests use; others are no squares.
fn locate(grid: &str) -> Option<Place> {
    match grid {
        "FN42" => Some(place(42.5, -71.0)),
        "JN88" => Some(place(48.5, 17.0)),
        _ => None,
    }
}

/// `slot` is seconds from [`NOW`].
fn decode(grid: &str, slot: i64) -> Heard {
    Heard { slot_utc: NOW + slot, grid: Some(grid.to_string()), place: locate(grid) }
}

fn us(secs: f64) -> i64 {
    (secs * 1e6) as i64
}

fn fade(l: &Lit) -> f64 {
    l.left as f64 / l.fade as f64
}

/// `observe` with the wall clock implied by the decodes themselves.
fn observe(s: &mut DigiStations, decodes: &[Heard], now_s: f64) {
    let now_utc = decodes.iter().map(|d| d.slot_utc).max().unwrap_or(NOW);
    s.observe(decodes, us(now_s), now_utc);
}

const STATION_FADE_S: f64 = STATION_FADE_US as f64 / 1e6;

#[test]
fn a_station_fades_out_over_two_minutes_and_then_expires() {
    let mut s = DigiStations::default();
    observe(&mut s, &[decode("FN42", 100)], 0.0);
    assert_eq!(fade(&s.stations(0)[0]), 1.0, "a fresh decode is not at full brightness");

    let half = s.stations(us(STATION_FADE_S / 2.0));
    assert!((fade(&half[0]) - 0.5).abs() < 1e-6, "half-way fade was {}", fade(&half[0]));

    // Past the window it is gone entirely, not merely transparent.
    observe(&mut s, &[], STATION_FADE_S + 1.0);
    assert!(s.stations(us(STATION_FADE_S + 1.0)).is_empty());
}

#[test]
fn hearing_a_station_again_restores_full_brightness() {
    let mut s = DigiStations::default();
    observe(&mut s, &[decode("FN42", 100)], 0.0);
    observe(&mut s, &[decode("FN42", 115)], 60.0);
    assert_eq!(fade(&s.stations(us(60.0))[0]), 1.0);
}

#[test]
fn re_observing_the_same_slot_does_not_refresh_the_fade() {
    let mut s = DigiStations::default();
    let d = [decode("FN42", 100)];
    observe(&mut s, &d, 0.0);
    observe(&mut s, &d, 60.0);
    let f = fade(&s.stations(us(60.0))[0]);
    assert!((f - 0.5).abs() < 1e-6, "re-observing reset the fade to {f}");
}

#[test]
fn a_decode_without_a_grid_places_nothing() {
    let mut s = DigiStations::default();
    let mut d = decode("FN42", 100);
    d.grid = None;
    observe(&mut s, &[d], 0.0);
    assert!(s.stations(0).is_empty());

    // Nor does a grid that does not decode to a position.
    observe(&mut s, &[decode("ZZ99zz", 100)], 0.0);
    assert!(s.stations(0).is_empty());
    assert!(s.history().is_empty(), "an unplaceable grid made it into the history");
}

#[test]
fn the_history_keeps_an_hour_of_decodes_one_per_station_and_slot() {
    let mut s = DigiStations::default();
    let d = [decode("FN42", 0), decode("JN88", 0)];
    s.observe(&d, us(0.0), NOW);
    // The same list again, frames later: already recorded, not duplicated.
    s.observe(&d, us(5.0), NOW + 5);
    s.observe(&[decode("FN42", 15)], us(15.0), NOW + 15);
    let h = s.history();
    assert_eq!(h.len(), 3, "history is {h:?}");
    assert!(h.windows(2).all(|w| w[0].slot_utc <= w[1].slot_utc), "history is not in order");

    // Long past the live fade, the hour is still there…
    s.observe(&[], us(600.0), NOW + 600);
    assert_eq!(s.history().len(), 3);
    assert!(s.stations(us(600.0)).is_empty(), "a live dot outlived its fade");

    // …and then it ages out of the window one slot at a time.
    s.observe(&[], us(4000.0), NOW + HISTORY_S + 10);
    assert_eq!(s.history().len(), 1, "only the last slot is still inside the hour");
    s.observe(&[], us(4100.0), NOW + HISTORY_S + 100);
    assert!(s.history().is_empty());
}

#[test]
fn history_ignores_slots_outside_the_window() {
    let mut s = DigiStations::default();
    s.observe(&[decode("FN42", -HISTORY_S - 60), decode("JN88", 3600)], 0, NOW);
    assert!(s.history().is_empty());
    // The live dots are unaffected: those are frame-time bookkeeping.
    assert_eq!(s.stations(0).len(), 2);
}

#[test]
fn a_widened_fade_keeps_a_station_lit_past_the_default() {
    let mut s = DigiStations::default();
    s.set_fade_s(us(900.0));
    observe(&mut s, &[decode("FN42", 100)], 0.0);
    assert!(s.stations(us(STATION_FADE_S + 1.0)).len() == 1, "gone at the default fade");
    let half = s.stations(us(450.0));
    assert!((fade(&half[0]) - 0.5).abs() < 1e-6, "half-way fade was {}", fade(&half[0]));
    observe(&mut s, &[], 901.0);
    assert!(s.stations(us(901.0)).is_empty(), "it still has to expire eventually");
}

#[test]
fn the_dx_station_comes_from_its_grid_not_from_the_decode_list() {
    let mut s = DigiStations::default();
    observe(&mut s, &[decode("FN42", 100)], 0.0);
    let t = s.traffic(0, locate("JN88"), None, true);
    assert_eq!(t.stations.len(), 1);
    assert!(t.transmitting);
    let dx = t.dx.expect("JN88 is a valid grid");
    let (lat, lon) = (f64::from_bits(dx.lat.0), f64::from_bits(dx.lon.0));
    assert!(lat > 40.0 && lat < 50.0 && lon > 10.0 && lon < 20.0, "JN88 at {lat},{lon}");
}

#[test]
fn the_fade_cannot_be_set_below_a_second() {
    let mut s = DigiStations::default();
    s.set_fade_s(0);
    observe(&mut s, &[decode("FN42", 0)], 0.0);
    assert_eq!(s.stations(0)[0].fade, 1_000_000);
    assert_eq!(s.stations(us(0.5)).len(), 1);
    assert!(s.stations(us(1.0)).is_empty());
}

#[test]
fn a_slot_a_little_ahead_of_the_clock_is_recorded() {
    let mut s = DigiStations::default();
    s.observe(&[decode("FN42", FUTURE_S)], 0, NOW);
    assert_eq!(s.history().len(), 1);
    s.observe(&[decode("JN88", FUTURE_S + 1)], 0, NOW);
    assert_eq!(s.history().len(), 1);
}

#[test]
fn a_grid_is_listed_once_however_it_is_heard() {
    let mut s = DigiStations::default();
    observe(&mut s, &[decode("FN42", 0), decode("FN42", 15), decode("JN88", 0)], 0.0);
    assert_eq!(s.stations(0).len(), 2);
}

#[test]
fn a_station_that_faded_stays_dark_until_it_is_heard_again() {
    let mut s = DigiStations::default();
    let d = [decode("FN42", 100)];
    s.observe(&d, 0, NOW + 100);
    s.observe(&d, us(121.0), NOW + 221);
    s.observe(&d, us(122.0), NOW + 222);
    assert!(s.stations(us(122.0)).is_empty());
    // Nor does a longer fade bring it back.
    s.set_fade_s(us(3600.0));
    assert!(s.stations(us(122.0)).is_empty());
    s.observe(&[decode("FN42", 115)], us(123.0), NOW + 223);
    assert_eq!(s.stations(us(123.0)).len(), 1);
}

#[test]
fn the_history_is_oldest_first_whatever_comes_late() {
    let mut s = DigiStations::default();
    s.observe(&[decode("FN42", 0)], 0, NOW);
    s.observe(&[decode("JN88", -15), decode("JN88", 0)], 0, NOW);
    let slots: Vec<i64> = s.history().iter().map(|h| h.slot_utc - NOW).collect();
    assert_eq!(slots, [-15, 0, 0]);
    // What leaves the hour leaves it, though it came in after something newer.
    s.observe(&[], 0, NOW + HISTORY_S - 15);
    let slots: Vec<i64> = s.history().iter().map(|h| h.slot_utc - NOW).collect();
    assert_eq!(slots, [0, 0]);
}
