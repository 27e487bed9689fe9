use sdroxide_ui::frame::FirstState;
use sdroxide_ui::view::{Device, ViewState, HZ};

fn view(lo: i64, hi: i64) -> ViewState {
    ViewState {
        view_lo: lo * HZ,
        view_hi: hi * HZ,
        db_floor: 0,
        db_ceil: 0,
        fft_size: 4096,
        spectrum_fraction: 350,
        spectrum_collapsed: false,
    }
}

fn ends(v: &ViewState) -> (i64, i64) {
    (v.view_lo / HZ, v.view_hi / HZ)
}

#[test]
fn fitting_shows_the_whole_span() {
    let mut v = view(0, 0);
    assert!(v.is_unset());
    v.fit(&Device { center: 1000 * HZ, span: 400 * HZ });
    assert_eq!(ends(&v), (800, 1200));
    assert_eq!(v.span(), 400 * HZ);
    assert!(!v.is_unset());
}

#[test]
fn a_view_is_moved_inside() {
    let d = Device { center: 1000 * HZ, span: 400 * HZ };
    for (from, to) in [
        ((700, 800), (800, 900)),
        ((1150, 1250), (1100, 1200)),
        ((900, 1000), (900, 1000)),
        ((0, 5000), (800, 1200)),
    ] {
        let mut v = view(from.0, from.1);
        v.clamp_to(&d);
        assert_eq!(ends(&v), to, "{from:?}");
        let again = v;
        v.clamp_to(&d);
        assert_eq!(v, again);
    }
}

#[test]
fn a_hidden_line_has_no_height() {
    let mut v = view(0, 1);
    assert_eq!(v.effective_spectrum_fraction(), 350);
    v.spectrum_collapsed = true;
    assert_eq!(v.effective_spectrum_fraction(), 0);
}

#[test]
fn the_view_follows_the_tuning_but_not_a_pan() {
    let mut first = FirstState { seen: false };
    let span = 192_000 * HZ;
    let mut v = view(14_000_000, 14_020_000);
    // The first state centres a view that shows something else.
    first.recenter_if_tuned_away(&mut v, 7_100_000 * HZ, 7_100_000 * HZ, span);
    assert!(first.seen);
    assert_eq!(ends(&v), (7_090_000, 7_110_000));
    // A pan away stays.
    v = view(7_200_000, 7_220_000);
    let panned = v;
    first.recenter_if_tuned_away(&mut v, 7_100_000 * HZ, 7_100_000 * HZ, span);
    assert_eq!(v, panned);
    // Tuning brings it back, unless it is in view already.
    first.recenter_if_tuned_away(&mut v, 7_205_000 * HZ, 7_100_000 * HZ, span);
    assert_eq!(v, panned);
    first.recenter_if_tuned_away(&mut v, 7_300_000 * HZ, 7_205_000 * HZ, span);
    assert_eq!(ends(&v), (7_290_000, 7_310_000));
    // No wider than the device, and an unset view is left alone.
    first.recenter_if_tuned_away(&mut v, 7_400_000 * HZ, 7_300_000 * HZ, 10_000 * HZ);
    assert_eq!(ends(&v), (7_395_000, 7_405_000));
    let mut v = view(0, 0);
    first.recenter_if_tuned_away(&mut v, 7_300_000 * HZ, 7_205_000 * HZ, span);
    assert_eq!(v, view(0, 0));
}
