use sdroxide_ui::carried::Single;
use sdroxide_ui::command::Mode;
use sdroxide_ui::decodes::{Decode, Preview};
use sdroxide_ui::digi_map::{DigiStations, Heard};
use sdroxide_ui::frame::{
    markers_for, panel_for, push_image, refit_view, release_on_close, repaint_wait_ms, AwardsView,
    CfgSync, DigiRx, EditCopy, Panel, SavedView, ToneCfg, CFG_DEBOUNCE_US, DIGI_IMAGES_MAX,
    IDLE_POLL_MS, STREAM_STALE_US,
};
use sdroxide_ui::view::{Device, ViewState, HZ};

fn view(lo: i64, hi: i64) -> ViewState {
    ViewState {
        view_lo: lo * HZ,
        view_hi: hi * HZ,
        db_floor: 0,
        db_ceil: 1,
        fft_size: 4096,
        spectrum_fraction: 350,
        spectrum_collapsed: false,
    }
}

#[test]
fn each_mode_has_its_panel() {
    assert_eq!(panel_for(Mode::Rade, true), Panel::Rade);
    assert_eq!(panel_for(Mode::Sstv, false), Panel::Sstv);
    assert_eq!(panel_for(Mode::RfPaint, false), Panel::RfPaint);
    assert_eq!(panel_for(Mode::Fsq, true), Panel::Fsq);
    assert_eq!(panel_for(Mode::Psk, true), Panel::Text);
    assert_eq!(panel_for(Mode::Ft8, false), Panel::Digi);
}

#[test]
fn tuning_lines_stand_at_the_edges_of_the_tones() {
    // Twice thousandths of a hertz.
    assert_eq!(markers_for(Mode::RfPaint, None), Some((600_000, 6_600_000)));
    assert_eq!(markers_for(Mode::Rade, None), Some((2_124_000, 3_752_000)));
    assert_eq!(markers_for(Mode::Rtty, None), Some((2_830_000, 3_170_000)));
    assert_eq!(markers_for(Mode::Olivia, None), Some((2_000_000, 4_000_000)));
    assert_eq!(markers_for(Mode::Thor, None), Some((2_718_750, 3_281_250)));
    assert_eq!(markers_for(Mode::Fsq, None), Some((2_851_500, 3_148_500)));
    assert_eq!(markers_for(Mode::Psk, None), None);
    let tones =
        ToneCfg { rtty_shift: 850_000, olivia_bw: 500_000, thor_baud: 4_000, fsq_baud: 6_000 };
    assert_eq!(markers_for(Mode::Rtty, Some((1_000_000, tones))), Some((1_150_000, 2_850_000)));
    assert_eq!(markers_for(Mode::Fsq, Some((1_000_000, tones))), Some((1_802_000, 2_198_000)));
}

#[test]
fn the_view_before_a_digital_mode_comes_back() {
    let mut s = SavedView { span: None };
    let mut v = view(7_000_000, 7_200_000);
    let before = v;
    s.digital(&mut v, 7_074_000 * HZ, false);
    assert_eq!((v.view_lo, v.view_hi), (7_073_800 * HZ, 7_077_500 * HZ));
    s.digital(&mut v, 14_000_000 * HZ, true);
    assert_eq!((v.view_lo, v.view_hi), (14_000_150 * HZ, 14_003_450 * HZ));
    s.voice(&mut v);
    assert_eq!(v, before);
    v = view(1, 2);
    s.voice(&mut v);
    assert_eq!(v, view(1, 2));
    assert!(refit_view(true, true, false));
    assert!(!refit_view(true, true, true) && !refit_view(true, false, false));
}

#[test]
fn a_change_of_mode_clears_what_was_received() {
    let heard = Heard { slot_utc: 0, grid: Some("JN77".to_string()), place: None };
    let mut stations = DigiStations::default();
    stations.observe(&[heard], 0, 0);
    let mut rx = DigiRx {
        decodes: vec![Decode {
            slot_utc: 0,
            snr_db: 0,
            audio_hz: Single(0),
            message: String::new(),
            to: None,
            from: None,
            grid: None,
            place: None,
            is_cq: false,
            free_text: false,
        }],
        stations,
        preview: Preview { station: None },
    };
    assert!(!rx.on_mode(Mode::Ft8, Mode::Ft8));
    assert_eq!(rx.decodes.len(), 1);
    assert!(rx.on_mode(Mode::Ft8, Mode::Ft4));
    assert!(rx.decodes.is_empty() && rx.stations.stations(0).is_empty());
}

#[test]
fn the_engines_settings_seed_the_edit_once() {
    let mut e = EditCopy { edit: 1, seeded: false };
    e.seed(2);
    e.seed(3);
    assert_eq!((e.edit, e.seeded), (2, true));
}

#[test]
fn received_pictures_are_bounded() {
    let mut v = vec![];
    for i in 0..DIGI_IMAGES_MAX as u64 + 2 {
        push_image(&mut v, i);
    }
    assert_eq!(v.len(), DIGI_IMAGES_MAX);
    assert_eq!(v[0], DIGI_IMAGES_MAX as u64 + 1);
}

#[test]
fn settings_are_sent_when_the_view_is_stable() {
    let d = Device { center: 7_100_000 * HZ, span: 192_000 * HZ };
    let (a, b) = (view(7_010_000, 7_020_000), view(7_110_000, 7_120_000));
    let mut c = CfgSync { sent: None, desired: None, desired_at: 0 };
    assert_eq!(c.fps(12), 12);
    let first = c.frame(&d, &a, 30, 10).expect("the first at once");
    assert_eq!(c.sent, Some(first));
    assert_eq!(c.fps(12), 30);
    assert_eq!(c.frame(&d, &a, 30, 20), None, "they still serve");
    assert_eq!(c.frame(&d, &b, 30, 30), None);
    assert_eq!(c.frame(&d, &b, 30, 30 + CFG_DEBOUNCE_US - 1), None);
    let second = c.frame(&d, &b, 30, 30 + CFG_DEBOUNCE_US).expect("stable for a while");
    assert_ne!(first.viewport, second.viewport);
    // A view that keeps moving waits.
    assert_eq!(c.frame(&d, &a, 30, 2 * CFG_DEBOUNCE_US), None);
    assert_eq!(c.frame(&d, &view(7_040_000, 7_050_000), 30, 4 * CFG_DEBOUNCE_US), None);
}

#[test]
fn nothing_is_sent_while_the_view_rests() {
    let d = Device { center: 7_100_000 * HZ, span: 110_000 * HZ };
    // Hardly zoomed in, and partly outside what the device shows.
    for v in [view(7_050_000, 7_150_000), view(7_000_000, 7_100_000), view(7_100_000, 7_100_000)] {
        let mut c = CfgSync { sent: None, desired: None, desired_at: 0 };
        assert!(c.frame(&d, &v, 30, 0).is_some());
        for i in 1..5 {
            assert_eq!(c.frame(&d, &v, 30, i * CFG_DEBOUNCE_US), None);
        }
    }
}

#[test]
fn stored_settings_replace_the_edited_ones() {
    let mut e = EditCopy { edit: 1, seeded: false };
    e.reseed(None);
    assert_eq!((e.edit, e.seeded), (1, false));
    e.reseed(Some(5));
    assert_eq!((e.edit, e.seeded), (5, true));
}

#[test]
fn the_next_frame_comes_in_time() {
    assert_eq!(repaint_wait_ms(true, 30, true, false, 0, 0), 0);
    assert_eq!(repaint_wait_ms(false, 30, true, false, 0, 0), 33);
    assert_eq!(repaint_wait_ms(false, 0, true, false, 0, 0), 1000);
    assert_eq!(repaint_wait_ms(false, 30, true, false, 0, STREAM_STALE_US), IDLE_POLL_MS);
    assert_eq!(repaint_wait_ms(false, 30, true, true, 0, 0), IDLE_POLL_MS);
    assert_eq!(repaint_wait_ms(false, 30, false, false, 0, 0), IDLE_POLL_MS);
    assert!(release_on_close(true, true) && !release_on_close(false, true));
}

#[test]
fn awards_are_computed_when_something_changed() {
    let mut a = AwardsView { band: "20m".to_string(), held: None };
    assert_eq!(a.ensure(3).as_deref(), Some("20m"));
    assert_eq!(a.ensure(3), None);
    assert_eq!(a.ensure(4).as_deref(), Some("20m"));
    a.band = String::new();
    assert_eq!(a.ensure(4).as_deref(), Some(""));
    assert_eq!(a.ensure(4), None);
}
