use sdroxide_ui::app::{
    DigiCfg, DigiStatus, Memory, Pane, RadioEvent, RadioState, SdroxideApp,
};
use sdroxide_ui::carried::Single;
use sdroxide_ui::command::{Command, Mode};
use sdroxide_ui::decodes::Decode;
use sdroxide_ui::digi_panel::QsoStep;
use sdroxide_ui::frame::{Panel, CFG_DEBOUNCE_US, IDLE_POLL_MS};
use sdroxide_ui::logbook::{
    CallsignInfo, LookupProvider, NetworkConfig, UploadResult, UploadTarget,
};
use sdroxide_ui::overlay::{SkimmerKind, SkimmerSpot};
use sdroxide_ui::qso::QsoRecord;
use sdroxide_ui::radio::{SkimmerCfg, SkimmerKindCfg};
use sdroxide_ui::settings::ServerStatus;
use sdroxide_ui::sstv::SstvStatus;
use sdroxide_ui::view::{Device, ViewState, HZ};
use sdroxide_ui::voice::VoiceStatus;

fn radio(mode: Mode, tuned_khz: i64) -> RadioState {
    let skim = SkimmerKindCfg { enabled: true, squelch_db: 6 };
    RadioState {
        mode,
        digital: mode == Mode::Ft8 || mode == Mode::RfPaint,
        text_modem: false,
        slotted: mode == Mode::Ft8,
        tuned: tuned_khz * 1000 * HZ,
        dial: tuned_khz * 1000 * HZ,
        device: Device { center: tuned_khz * 1000 * HZ, span: 192_000 * HZ },
        skimmer: SkimmerCfg { cw: skim, psk: skim, rtty: skim },
    }
}

fn view(lo_khz: i64, hi_khz: i64) -> ViewState {
    ViewState {
        view_lo: lo_khz * 1000 * HZ,
        view_hi: hi_khz * 1000 * HZ,
        db_floor: 0,
        db_ceil: 1,
        fft_size: 4096,
        spectrum_fraction: 350,
        spectrum_collapsed: false,
    }
}

fn cfg(call: &str) -> DigiCfg {
    DigiCfg { my_call: call.to_string(), my_grid: "JN77".to_string() }
}

fn app() -> SdroxideApp {
    let net = NetworkConfig {
        auto_lookup: true,
        lookup_provider: LookupProvider::Service,
        auto_upload: true,
        auto_upload_eqsl: true,
        auto_upload_qrz: false,
        auto_upload_clublog: false,
        eqsl_user: String::new(),
        qrz_logbook_key: String::new(),
        clublog_user: String::new(),
        clublog_api_key: String::new(),
    };
    let old = QsoRecord { id: 4, call: "K1A".to_string(), ..QsoRecord::default() };
    SdroxideApp::new(radio(Mode::Usb, 7_100), view(7_090, 7_110), vec![old], net, cfg("N0CALL"))
}

fn decode(from: &str) -> Decode {
    Decode {
        slot_utc: 0,
        snr_db: 0,
        audio_hz: Single(0),
        message: String::new(),
        to: None,
        from: Some(from.to_string()),
        grid: None,
        place: None,
        is_cq: true,
        free_text: false,
    }
}

#[test]
fn nothing_was_heard_or_read_at_the_start() {
    let a = app();
    assert!(!a.sstv.loaded_disk && a.sstv.auto && a.sstv.preview_dirty);
    assert!(a.sstv.slots.iter().all(|s| s.is_none()) && a.sstv.received.is_empty());
    assert!(a.rx.stations.history().is_empty() && a.rx.stations.stations(0).is_empty());
    assert_eq!((a.cfg.sent, a.cfg.desired), (None, None));
}

#[test]
fn a_callsign_is_typed_in_upper_case() {
    let mut c = cfg("");
    c.type_call("oe5ß/p");
    assert_eq!((c.my_call.as_str(), c.my_grid.as_str()), ("OE5SS/P", "JN77"));
}

#[test]
fn a_changed_view_is_sent_once_it_rests() {
    let mut a = app();
    a.end_frame(30, 25, false, 0);
    let first = a.cfg.sent;
    a.view = view(7_150, 7_160);
    for now in [10, 20, CFG_DEBOUNCE_US + 9] {
        let (cmds, _) = a.end_frame(30, 25, false, now);
        assert!(cmds.is_empty());
        assert_eq!((a.cfg.sent, a.cfg.desired_at), (first, 10));
    }
    let (cmds, _) = a.end_frame(30, 25, false, CFG_DEBOUNCE_US + 10);
    assert!(matches!(&cmds[..], [Command::SetSpectrumCfg(c)] if Some(*c) == a.cfg.sent));
    assert_ne!(a.cfg.sent, first);
    let (cmds, _) = a.end_frame(30, 25, false, 9 * CFG_DEBOUNCE_US);
    assert!(cmds.is_empty());
}

#[test]
fn reports_are_taken_in() {
    let mut a = app();
    let out = a.on_event(RadioEvent::Capabilities("HL2".to_string()), 0);
    assert_eq!(out.title.as_deref(), Some("sdroxide — HL2"));
    assert_eq!(a.caps.as_deref(), Some("HL2"));
    a.on_event(RadioEvent::Spectrum, 77);
    assert_eq!((a.has_frame, a.last_spectrum_at), (true, 77));
    a.on_event(RadioEvent::Memories(vec![Memory { id: 1, name: "net".to_string() }]), 0);
    assert_eq!(a.memories.len(), 1);
    a.on_event(RadioEvent::Notice(Some("mono".to_string())), 0);
    assert_eq!(a.notice.as_deref(), Some("mono"));
    a.on_event(RadioEvent::NetStatus(Some("cluster up".to_string())), 0);
    assert_eq!(a.net_status.as_deref(), Some("cluster up"));
    let server = |addr: &str| ServerStatus {
        running: true,
        addr: addr.to_string(),
        clients: 1,
        error: None,
    };
    a.on_event(RadioEvent::TciServerStatus(server("t")), 0);
    a.on_event(RadioEvent::RigctldStatus(server("r")), 0);
    assert_eq!(a.tci_server.as_ref().unwrap().addr, "t");
    assert_eq!(a.rigctld.as_ref().unwrap().addr, "r");
    let v = VoiceStatus { recording: None, playing: Some(3), previewing: None };
    a.on_event(RadioEvent::VoiceStatus(v), 0);
    assert_eq!(a.voice.playing, Some(3));
    a.on_event(RadioEvent::DigiImage { tex: Some(9) }, 0);
    a.on_event(RadioEvent::DigiImage { tex: None }, 0);
    assert_eq!(a.images, [9]);
    a.on_event(RadioEvent::Spots(vec![]), 0);
    assert!(a.spots.is_empty());
}

#[test]
fn a_change_of_mode_clears_the_decodes() {
    let mut a = app();
    a.on_event(RadioEvent::State(radio(Mode::Ft8, 7_100)), 0);
    a.on_event(RadioEvent::Ft8Decodes(vec![decode("A"), decode("B")]), 0);
    a.on_event(RadioEvent::Ft8Decodes(vec![decode("C")]), 0);
    assert_eq!(a.rx.decodes[0].from.as_deref(), Some("C"));
    assert_eq!(a.rx.decodes.len(), 3);
    a.on_event(RadioEvent::State(radio(Mode::Ft8, 7_100)), 0);
    assert_eq!(a.rx.decodes.len(), 3);
    a.on_event(RadioEvent::State(radio(Mode::Usb, 7_100)), 0);
    assert!(a.rx.decodes.is_empty());
}

#[test]
fn the_view_follows_the_radio() {
    let mut a = app();
    a.on_event(RadioEvent::State(radio(Mode::Usb, 14_200)), 0);
    assert_eq!((a.view.view_lo, a.view.view_hi), (14_190_000 * HZ, 14_210_000 * HZ));
    // Another span is shown whole.
    let mut s = radio(Mode::Usb, 14_200);
    s.device.span = 48_000 * HZ;
    a.on_event(RadioEvent::State(s), 0);
    assert_eq!((a.view.view_lo, a.view.view_hi), (14_176_000 * HZ, 14_224_000 * HZ));
    // A hertz more or less is no other span.
    s.device.span = 48_001 * HZ;
    let before = a.view;
    a.on_event(RadioEvent::State(s), 0);
    assert_eq!(a.view, before);
}

#[test]
fn the_operators_settings_are_seeded_once() {
    let mut a = app();
    let status = |call: &str| DigiStatus {
        cfg: cfg(call),
        step: QsoStep::Idle,
        audio_hz: Single(0),
        transmitting: false,
        dx_call: None,
        dx_grid: None,
    };
    a.on_event(RadioEvent::Ft8Status(status("OE3ABC")), 0);
    assert_eq!(a.digi_cfg.edit.my_call, "OE3ABC");
    a.on_event(RadioEvent::Ft8Status(status("OTHER")), 0);
    assert_eq!(a.digi_cfg.edit.my_call, "OE3ABC");
    assert_eq!(a.digi_status.as_ref().unwrap().cfg.my_call, "OTHER");
}

#[test]
fn the_log_is_saved_when_it_changed() {
    let mut a = app();
    let rec = QsoRecord { call: "K1B".to_string(), ..QsoRecord::default() };
    assert!(a.on_event(RadioEvent::Ft8QsoLogged(rec), 0).save_log);
    assert_eq!((a.book.log[1].id, a.book.log[1].call.as_str()), (5, "K1B"));
    let up = |ok: bool| UploadResult {
        qso_id: 5,
        target: UploadTarget::Eqsl,
        label: "eQSL".to_string(),
        ok,
        message: String::new(),
    };
    assert!(!a.on_event(RadioEvent::Upload(up(false)), 0).save_log);
    assert!(a.on_event(RadioEvent::Upload(up(true)), 0).save_log);
    let info = CallsignInfo {
        call: "K1B".to_string(),
        name: Some("Bo".to_string()),
        qth: None,
        grid: None,
        state: None,
        country: None,
        dxcc: None,
        cq_zone: None,
        itu_zone: None,
    };
    assert!(a.on_event(RadioEvent::CallsignResult(info), 0).save_log);
    assert_eq!(a.book.log[1].name, "Bo");
    let qsl = QsoRecord { call: "K1B".to_string(), lotw_rcvd: true, ..QsoRecord::default() };
    assert!(a.on_event(RadioEvent::Confirmations(vec![qsl.copy()]), 0).save_log);
    assert!(!a.on_event(RadioEvent::Confirmations(vec![qsl]), 0).save_log);
}

#[test]
fn pictures_are_shown_as_they_come() {
    let mut a = app();
    let line = || RadioEvent::SstvLine { image_id: 1, y: 0, rgb: vec![5; 6], w: 2, h: 1 };
    assert!(!a.on_event(line(), 0).show_picture);
    let s = SstvStatus { detected: Some(2), rx_active: true, tx_active: false };
    a.on_event(RadioEvent::SstvStatus(s), 0);
    assert_eq!(a.sstv.tx_mode, 2);
    assert!(a.on_event(line(), 0).show_picture);
    assert!(a.sstv.rx.is_some());
    a.on_event(RadioEvent::SstvImage { mode: 2, tex: Some(1) }, 0);
    assert!(a.sstv.rx.is_none() && a.sstv.received.len() == 1);
}

#[test]
fn a_frame_of_each_kind() {
    let mut a = app();
    let spot = |id: u64, kind: SkimmerKind| SkimmerSpot { id, kind, active: true };
    let spots = vec![spot(1, SkimmerKind::Cw), spot(2, SkimmerKind::Psk)];
    a.on_event(RadioEvent::SkimmerSpots(spots), 0);
    let voice_view = a.view;
    assert_eq!(a.begin_frame(), Pane::Voice);
    assert_eq!(a.view, voice_view);
    assert_eq!(a.skimmer.spots.len(), 2);
    let mut s = radio(Mode::Ft8, 7_100);
    s.skimmer.cw.enabled = false;
    a.on_event(RadioEvent::State(s), 0);
    assert_eq!(a.begin_frame(), Pane::Digital { panel: Panel::Digi, boxes: true });
    assert_eq!(a.skimmer.spots.len(), 1);
    assert_eq!((a.view.view_lo, a.view.view_hi), (7_099_800 * HZ, 7_103_500 * HZ));
    a.on_event(RadioEvent::State(radio(Mode::RfPaint, 7_100)), 0);
    assert_eq!(a.begin_frame(), Pane::Digital { panel: Panel::RfPaint, boxes: false });
    a.on_event(RadioEvent::State(radio(Mode::Usb, 7_100)), 0);
    assert_eq!(a.begin_frame(), Pane::Voice);
    assert_eq!(a.view, voice_view);
    a.on_event(RadioEvent::ConnectionLost("gone".to_string()), 0);
    assert_eq!(a.begin_frame(), Pane::Error);
}

#[test]
fn a_frame_sends_what_is_due() {
    let mut a = app();
    let rec = QsoRecord { call: "K1B".to_string(), ..QsoRecord::default() };
    a.on_event(RadioEvent::Ft8QsoLogged(rec), 0);
    let (cmds, wait) = a.end_frame(30, 20, false, 0);
    assert_eq!(wait, IDLE_POLL_MS);
    assert!(matches!(&cmds[0], Command::SetSpectrumCfg(c) if c.fps == 30));
    assert!(matches!(&cmds[1], Command::LookupCallsign(c) if c == "K1B"));
    assert!(matches!(&cmds[2], Command::UploadQso { id: 5, .. }));
    assert_eq!(cmds.len(), 3);
    a.on_event(RadioEvent::Spectrum, 0);
    let (cmds, wait) = a.end_frame(30, 20, false, 10);
    assert!(cmds.is_empty());
    assert_eq!(wait, 33);
    assert_eq!(a.end_frame(30, 20, true, 10).1, 0);
    // Another rate is sent once it was wanted for a while.
    assert!(a.end_frame(60, 20, false, 20).0.is_empty());
    assert_eq!(a.end_frame(60, 20, false, 20 + CFG_DEBOUNCE_US).0.len(), 1);
}

#[test]
fn a_reply_looks_the_call_up() {
    let mut a = app();
    a.on_event(RadioEvent::Ft8Decodes(vec![decode("K1B")]), 0);
    assert!(matches!(
        a.reply(0),
        Some(Command::DigiStartQso { from, wait_for_cq: false, .. }) if from == "K1B"
    ));
    assert_eq!(a.book.pending_lookups, ["K1B"]);
    a.rx.decodes[0].from = None;
    assert!(a.reply(0).is_none());
    assert_eq!(a.book.pending_lookups.len(), 1);
}
