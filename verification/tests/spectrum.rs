use sdroxide_ui::spectrum::{
    auto_levels, cfg_still_good, desired_spectrum_cfg, level_at, pick_levels, zoomed_fft, Viewport,
    WfPace, DB, FFT_MAX, FFT_MIN, ROW, ROWS_MAX,
};
use sdroxide_ui::view::{Device, ViewState, HZ};

/// The code that a frame spanning `[lo, hi]` has for a level in decibels.
fn code(db: f32, lo: f32, hi: f32) -> u8 {
    (((db - lo) / (hi - lo) * 255.0).clamp(0.0, 255.0)) as u8
}

/// Levels picked from a frame whose scale is in decibels, in decibels.
fn picked(bins: &[u8], lo: f32, hi: f32) -> Option<(f32, f32)> {
    let thousandths = |db: f32| (db * 1000.0) as i32;
    pick_levels(bins, thousandths(lo), thousandths(hi))
        .map(|(f, c)| (f as f32 / DB as f32, c as f32 / DB as f32))
}

#[test]
fn levels_bracket_noise_and_signals() {
    // Mostly noise near -110 with a handful of strong signals near -45.
    let (lo, hi) = (-120.0f32, -20.0f32);
    let mut bins = vec![code(-110.0, lo, hi); 1000];
    bins.extend(std::iter::repeat(code(-45.0, lo, hi)).take(20));
    let (floor, ceil) = picked(&bins, lo, hi).unwrap();
    // Floor just below the noise; ceiling just above the signals.
    assert!((-120.0..-100.0).contains(&floor), "floor {floor}");
    assert!((-55.0..-30.0).contains(&ceil), "ceil {ceil}");
    assert!(ceil - floor >= 24.0, "range {}", ceil - floor);
}

#[test]
fn flat_band_keeps_minimum_range() {
    // A noise-only band still gets a usable contrast window, not a sliver.
    let (lo, hi) = (-120.0f32, -20.0f32);
    let bins = vec![code(-108.0, lo, hi); 512];
    let (floor, ceil) = picked(&bins, lo, hi).unwrap();
    assert!(ceil - floor >= 24.0, "range {}", ceil - floor);
    assert!(floor >= -160.0 && ceil <= 20.0);
}

#[test]
fn empty_frame_returns_none() {
    assert!(picked(&[], -120.0, -20.0).is_none());
    assert!(picked(&[10, 20], -50.0, -50.0).is_none());
}

#[test]
fn exact_levels() {
    // A quarter of the bins at 0, the rest at 255: noise -100 dB, peak -20 dB.
    let mut bins = vec![0u8; 300];
    bins.extend(vec![255u8; 700]);
    let l = pick_levels(&bins, -100_000, -20_000).unwrap();
    assert_eq!(l, (-105 * DB, -14 * DB));
    // One level throughout: 24 dB around it.
    let l = pick_levels(&[0; 9], -100_000, -20_000).unwrap();
    assert_eq!(2 * l.0, 2 * -100 * DB + DB - 24 * DB);
    assert_eq!(l.1 - l.0, 24 * DB);
    // The controls' limits hold.
    let l = pick_levels(&[0; 9], -300_000, -200_000).unwrap();
    assert_eq!(l, (-160 * DB, -100 * DB));
    let l = pick_levels(&[0; 9], 100_000, 200_000).unwrap();
    assert_eq!(l, (-40 * DB, 20 * DB));
}

#[test]
fn one_carrier_and_the_order_leave_the_scale_alone() {
    let bins: Vec<u8> = (0..200u32).map(|i| (i * 37 % 101) as u8).collect();
    let scale = pick_levels(&bins, -120_000, -20_000);
    let mut other = bins.clone();
    let strongest = (0..200).max_by_key(|&i| other[i]).unwrap();
    other[strongest] = 255;
    other.reverse();
    assert_eq!(pick_levels(&other, -120_000, -20_000), scale);
    // In a short frame the strongest bin is the one that counts.
    assert_ne!(pick_levels(&[0, 0, 255], -120_000, -20_000), pick_levels(&[0; 3], -120_000, -20_000));
}

#[test]
fn levels_stand_in_order() {
    let bins = [9u8, 3, 255, 3, 0, 17];
    let mut sorted = bins.to_vec();
    sorted.sort();
    for place in 0..bins.len() {
        assert_eq!(level_at(&bins, place), sorted[place]);
    }
}

fn view(lo: i64, hi: i64) -> ViewState {
    ViewState {
        view_lo: lo,
        view_hi: hi,
        db_floor: -120 * DB,
        db_ceil: -20 * DB,
        fft_size: 4096,
        spectrum_fraction: 350,
        spectrum_collapsed: false,
    }
}

#[test]
fn only_visible_bins_set_the_levels() {
    // Four bins over 4 kHz; a strong station in the last one.
    let d = Device { center: 2000 * HZ, span: 4000 * HZ };
    let bins = [10u8, 10, 10, 255];
    let all = pick_levels(&bins, -120_000, -20_000);
    let quiet = pick_levels(&bins[..3], -120_000, -20_000);
    assert_ne!(all, quiet);
    assert_eq!(auto_levels(&bins, &d, &view(0, 3000 * HZ), -120_000, -20_000), quiet);
    assert_eq!(auto_levels(&bins, &d, &view(500 * HZ, 2500 * HZ), -120_000, -20_000), quiet);
    assert_eq!(auto_levels(&bins, &d, &view(500 * HZ, 3001 * HZ), -120_000, -20_000), all);
    // A view past either end shows nothing, and all count.
    assert_eq!(auto_levels(&bins, &d, &view(9000 * HZ, 9500 * HZ), -120_000, -20_000), all);
    assert_eq!(auto_levels(&[], &d, &view(0, 3000 * HZ), -120_000, -20_000), None);
    let none = Device { center: 0, span: 0 };
    assert_eq!(auto_levels(&bins, &none, &view(0, 3000 * HZ), -120_000, -20_000), None);
}

#[test]
fn the_fft_grows_with_the_zoom() {
    assert_eq!(zoomed_fft(4096, 4096), 4096);
    assert_eq!(zoomed_fft(4096, 4097), 8192);
    assert_eq!(zoomed_fft(512, 0), FFT_MIN);
    assert_eq!(zoomed_fft(4096, 1 << 40), FFT_MAX);
    assert_eq!(zoomed_fft(65_536, 1 << 40), 65_536);
    let d = Device { center: 0, span: 192_000 * HZ };
    let cfg = |w: i64| desired_spectrum_cfg(&d, &view(0, w * HZ), 30);
    assert_eq!(cfg(192_000).fft_size, 4096);
    assert_eq!(cfg(96_000).fft_size, 8192);
    assert_eq!(cfg(95_000).fft_size, 16_384);
    // Past eight times it grows no more.
    assert_eq!(cfg(1000).fft_size, 32_768);
}

#[test]
fn the_viewport_has_slack_and_stays_inside() {
    let d = Device { center: 100_000 * HZ, span: 10_000 * HZ };
    let lo = 95_000 * HZ;
    // Twice the view around it, in halves of the measure.
    let c = desired_spectrum_cfg(&d, &view(lo + 4000 * HZ, lo + 6000 * HZ), 999);
    let half = |hz: i64| 2 * hz as i128;
    assert_eq!(c.viewport, Some(Viewport { lo: half(lo + 3000 * HZ), hi: half(lo + 7000 * HZ) }));
    assert_eq!(c.fps, 255);
    assert_eq!((c.floor, c.ceil), (-120 * DB, -20 * DB));
    // Pushed in at the edge.
    let c = desired_spectrum_cfg(&d, &view(lo, lo + 2000 * HZ), 30);
    assert_eq!(c.viewport, Some(Viewport { lo: half(lo), hi: half(lo + 4000 * HZ) }));
    // Not zoomed, or not set.
    assert_eq!(desired_spectrum_cfg(&d, &view(lo, lo + 9600 * HZ), 30).viewport, None);
    assert_eq!(desired_spectrum_cfg(&d, &view(0, 0), 30).viewport, None);
}

#[test]
fn settings_last_while_panning() {
    let d = Device { center: 100_000 * HZ, span: 100_000 * HZ };
    let at = |lo: i64| view(lo * HZ, (lo + 2000) * HZ);
    let first = desired_spectrum_cfg(&d, &at(80_000), 30);
    let good = |lo: i64| {
        let v = at(lo);
        cfg_still_good(&Some(first), &desired_spectrum_cfg(&d, &v, 30), &d, &v)
    };
    assert!(good(80_000));
    assert!(good(80_700));
    assert!(!good(80_900));
    assert!(!good(79_000));
    let v = at(80_000);
    let ideal = desired_spectrum_cfg(&d, &v, 30);
    assert!(!cfg_still_good(&None, &ideal, &d, &v));
    assert!(!cfg_still_good(&Some(first), &desired_spectrum_cfg(&d, &v, 31), &d, &v));
    let all = view(50_000 * HZ, 150_000 * HZ);
    let ideal = desired_spectrum_cfg(&d, &all, 30);
    assert!(cfg_still_good(&Some(ideal), &ideal, &d, &all));
}

#[test]
fn the_waterfall_keeps_its_pace() {
    let mut p = WfPace { last: 0, carry: 0 };
    // The first frame has nothing to catch up on.
    assert_eq!(p.wf_tick(true, 1_000_000, 15_000), 0);
    let mut rows = 0;
    for i in 1..=60 {
        rows += p.wf_tick(true, 1_000_000 + i * 33_333, 15_000);
    }
    // Two seconds at fifteen rows a second, but for the last part of a row.
    assert_eq!(rows, 29);
    assert_eq!(p.carry, (60 * 33_333 * 15_000) % ROW);
    // A gap is cut short, a stall writes nothing, and a flood is limited.
    assert_eq!(p.wf_tick(false, 60_000_000, 15_000), 0);
    p.carry = 0;
    assert_eq!(p.wf_tick(true, 120_000_000, 15_000), 4);
    assert_eq!(p.wf_tick(true, 180_000_000, 1_000_000) as u64, ROWS_MAX);
    assert_eq!(p.wf_tick(true, 170_000_000, 15_000), 0);
}
