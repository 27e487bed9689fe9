use sdroxide_ui::carried::{Double, Place};
use sdroxide_ui::command::{Command, Mode, Vfo};
use sdroxide_ui::logbook::{Logbook, LookupProvider, NetworkConfig};
use sdroxide_ui::spots::{spot_kind_index, Spot, SpotFilter, SpotKind, SpotMark, WorkedEntities};
use sdroxide_ui::view::ViewState;

fn spot(kind: SpotKind, when_utc: i64) -> Spot {
    Spot {
        kind,
        call: "K1A".to_string(),
        freq: 14_025_000_000,
        freq_mhz: "14.025000".to_string(),
        mode: "CW".to_string(),
        radio_mode: Some(Mode::Cw),
        when_utc,
        grid: Some("FN42".to_string()),
        loc: None,
        reference: None,
        comment: "loud".to_string(),
    }
}

fn view(lo_khz: i64, hi_khz: i64) -> ViewState {
    ViewState {
        view_lo: lo_khz * 1_000_000,
        view_hi: hi_khz * 1_000_000,
        db_floor: 0,
        db_ceil: 0,
        fft_size: 4096,
        spectrum_fraction: 350,
        spectrum_collapsed: false,
    }
}

#[test]
fn filters_hide_kinds_and_what_is_off_the_screen() {
    let mut spots = vec![
        spot(SpotKind::DxCluster, 0),
        spot(SpotKind::Pota, 0),
        spot(SpotKind::PskReporter, 0),
    ];
    spots[2].freq = 14_350_000_000;
    let v = view(14_000, 14_100);
    let mut f = SpotFilter::default();
    assert_eq!(f.listed(&spots, &v), [0, 1, 2]);
    f.toggle(SpotKind::Pota);
    assert!(!f.kind_on(SpotKind::Pota) && f.kind_on(SpotKind::Sota));
    assert_eq!(f.listed(&spots, &v), [0, 2]);
    f.in_view_only = true;
    assert_eq!(f.listed(&spots, &v), [0]);
    f.toggle(SpotKind::Pota);
    assert_eq!(f.listed(&spots, &v), [0, 1]);
    let kinds = [
        SpotKind::DxCluster,
        SpotKind::Pota,
        SpotKind::Sota,
        SpotKind::PskReporter,
        SpotKind::FreeDv,
    ];
    for (i, k) in kinds.into_iter().enumerate() {
        assert_eq!(spot_kind_index(k), i);
    }
}

#[test]
fn a_spot_fades_over_its_last_quarter() {
    let at = |age: i64, max: u32| {
        let spots = vec![spot(SpotKind::Sota, 1000 - age)];
        SpotFilter::default().net_overlay(&spots, &view(0, 1), max, 1000)
    };
    let mark = |left: i128, of: i128| vec![SpotMark { spot: 0, left, of }];
    assert_eq!(at(0, 400), mark(8000, 8000));
    assert_eq!(at(-50, 400), mark(8000, 8000));
    assert_eq!(at(300, 400), mark(8000, 8000));
    assert_eq!(at(350, 400), mark(4000, 8000));
    // It stays readable to the end.
    assert_eq!(at(400, 400), mark(1200, 8000));
    assert_eq!(at(401, 400), vec![]);
    // At least a minute.
    assert_eq!(at(60, 5), mark(180, 1200));
    let f = SpotFilter { in_view_only: true, ..SpotFilter::default() };
    assert!(f.net_overlay(&vec![spot(SpotKind::Sota, 1000)], &view(0, 1), 400, 1000).is_empty());
}

#[test]
fn a_spot_says_what_it_knows() {
    let mut s = spot(SpotKind::Pota, 0);
    assert_eq!(s.info(), "loud");
    s.reference = Some("US-0001".to_string());
    assert_eq!(s.info(), "US-0001 · loud");
    s.comment = String::new();
    assert_eq!(s.info(), "US-0001");
}

#[test]
fn a_spot_is_tuned_to() {
    let mut s = spot(SpotKind::Pota, 0);
    assert!(matches!(
        s.select(Vfo::B, 600_000)[..],
        [Command::Tune { vfo: Vfo::B, freq: 14_024_400_000 }, Command::SetMode(Mode::Cw)]
    ));
    s.radio_mode = Some(Mode::Usb);
    assert!(matches!(
        s.select(Vfo::A, 600_000)[..],
        [Command::Tune { vfo: Vfo::A, freq: 14_025_000_000 }, Command::SetMode(Mode::Usb)]
    ));
    s.radio_mode = None;
    assert!(matches!(s.select(Vfo::A, 600_000)[..], [Command::Tune { .. }]));
}

#[test]
fn located_spots_are_dots_on_the_map() {
    let here = Place { lat: Double(1), lon: Double(2) };
    let mut spots = vec![spot(SpotKind::Pota, 0), spot(SpotKind::Sota, 0), spot(SpotKind::Sota, 0)];
    spots[0].loc = Some(here);
    spots[1].loc = Some(here);
    let mut f = SpotFilter::default();
    assert_eq!(f.map_dots(&spots), [(here, SpotKind::Pota), (here, SpotKind::Sota)]);
    f.toggle(SpotKind::Pota);
    assert_eq!(f.map_dots(&spots), [(here, SpotKind::Sota)]);
}

#[test]
fn a_clicked_spot_opens_an_entry() {
    let cfg = NetworkConfig {
        auto_lookup: true,
        lookup_provider: LookupProvider::Service,
        auto_upload: false,
        auto_upload_eqsl: false,
        auto_upload_qrz: false,
        auto_upload_clublog: false,
        eqsl_user: String::new(),
        qrz_logbook_key: String::new(),
        clublog_user: String::new(),
        clublog_api_key: String::new(),
    };
    let mut b = Logbook {
        log: vec![],
        show: false,
        edit: None,
        net_log: vec![],
        pending_lookups: vec![],
        pending_uploads: vec![],
    };
    let cmds = b.select_spot(&cfg, &spot(SpotKind::Sota, 0), Vfo::A, 600_000, 1_784_980_800);
    assert!(matches!(
        cmds[..],
        [Command::Tune { vfo: Vfo::A, freq: 14_024_400_000 }, Command::SetMode(Mode::Cw)]
    ));
    assert!(b.show);
    let f = b.edit.as_ref().unwrap();
    assert_eq!((f.call.as_str(), f.grid.as_str(), f.comment.as_str()), ("K1A", "FN42", "loud"));
    assert_eq!((f.freq_mhz.as_str(), f.mode.as_str()), ("14.025000", "CW"));
    assert_eq!((f.date.as_str(), f.time.as_str()), ("2026-07-25", "12:00"));
    assert_eq!(b.pending_lookups, ["K1A"]);
}

#[test]
fn a_new_entity_is_needed() {
    let mut w = WorkedEntities { len: None, names: vec![] };
    assert!(w.is_stale(0));
    let some = |s: &str| Some(s.to_string());
    w.refresh(vec![some("Austria"), None, some("Austria"), some("Japan")]);
    assert!(!w.is_stale(4) && w.is_stale(5));
    assert_eq!(w.names, ["Austria", "Japan"]);
    assert!(!w.is_needed(&some("Japan")));
    assert!(w.is_needed(&some("Chile")));
    assert!(!w.is_needed(&None));
}
