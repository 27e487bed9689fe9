use sdroxide_ui::carried::{Double, Single};
use sdroxide_ui::command::Command;
use sdroxide_ui::log_list::{
    order_of, qsl_mark, qsl_tip, row_action, rst_text, sessions, QslMark, RowAction,
};
use sdroxide_ui::logbook::{
    auto_upload_adif, auto_upload_targets, configured_upload_targets, fill_blank, find_id,
    offers_upload, worked_before, worked_before_badge, CallsignInfo, Logbook, LookupProvider, NetworkConfig,
    UploadResult, UploadTarget, NET_LOG_MAX,
};
use sdroxide_ui::qso::{LogEditForm, QsoRecord, Typed};

const NOON: i64 = 1_784_980_800; // 2026-07-25 12:00

fn record(id: u64, call: &str, start_utc: i64) -> QsoRecord {
    QsoRecord {
        id,
        call: call.to_string(),
        band: "20m".to_string(),
        mode: "FT8".to_string(),
        start_utc,
        ..QsoRecord::default()
    }
}

fn book(log: Vec<QsoRecord>) -> Logbook {
    Logbook {
        log,
        show: true,
        edit: None,
        net_log: vec![],
        pending_lookups: vec![],
        pending_uploads: vec![],
    }
}

fn config() -> NetworkConfig {
    NetworkConfig {
        auto_lookup: true,
        lookup_provider: LookupProvider::Service,
        auto_upload: true,
        auto_upload_eqsl: true,
        auto_upload_qrz: false,
        auto_upload_clublog: true,
        eqsl_user: "me".to_string(),
        qrz_logbook_key: " ".to_string(),
        clublog_user: "me".to_string(),
        clublog_api_key: "".to_string(),
    }
}

fn info(call: &str) -> CallsignInfo {
    CallsignInfo {
        call: call.to_string(),
        name: Some(" Ann ".to_string()),
        qth: Some("Graz".to_string()),
        grid: Some("JN77".to_string()),
        state: None,
        country: Some("Austria".to_string()),
        dxcc: Some(206),
        cq_zone: Some(15),
        itu_zone: None,
    }
}

fn typed() -> Typed {
    Typed { freq_hz: Double(14_074_000f64.to_bits()), band: "20m".to_string(), tx_pwr: None }
}

#[test]
fn only_blank_fields_are_filled() {
    let mut s = "  ".to_string();
    assert!(fill_blank(&mut s, Some(" Ann ")));
    assert_eq!(s, "Ann");
    assert!(!fill_blank(&mut s, Some("Bea")));
    assert_eq!(s, "Ann");
    let mut s = String::new();
    assert!(!fill_blank(&mut s, None));
    assert!(!fill_blank(&mut s, Some("  ")));
    assert_eq!(s, "");
}

#[test]
fn upload_targets_go_by_switches_and_credentials() {
    let cfg = config();
    assert_eq!(auto_upload_targets(&cfg), [UploadTarget::Eqsl, UploadTarget::ClubLog]);
    assert_eq!(configured_upload_targets(&cfg), [UploadTarget::Eqsl]);
    assert!(offers_upload(&cfg));
    assert!(!offers_upload(&NetworkConfig { eqsl_user: " ".to_string(), ..config() }));
    let (id, targets) = auto_upload_adif(&cfg, &record(7, "K1A", 0)).unwrap();
    assert_eq!((id, targets), (7, vec![UploadTarget::Eqsl, UploadTarget::ClubLog]));
    assert!(auto_upload_adif(&NetworkConfig { auto_upload: false, ..config() }, &record(7, "K1A", 0))
        .is_none());
    let none = NetworkConfig { auto_upload_eqsl: false, auto_upload_clublog: false, ..config() };
    assert!(auto_upload_adif(&none, &record(7, "K1A", 0)).is_none());
}

#[test]
fn the_next_id_is_free() {
    let b = book(vec![record(4, "A", 0), record(9, "B", 0), record(2, "C", 0)]);
    assert_eq!(b.next_log_id(), 10);
    assert_eq!(book(vec![]).next_log_id(), 1);
    assert_eq!(find_id(&b.log, 9), 1);
    assert_eq!(find_id(&b.log, 5), 3);
}

#[test]
fn the_report_list_is_bounded_and_newest_first() {
    let mut b = book(vec![]);
    for i in 0..NET_LOG_MAX + 5 {
        b.push_net_log(format!("line {i}"));
    }
    assert_eq!(b.net_log.len(), NET_LOG_MAX);
    assert_eq!(b.net_log[0], format!("line {}", NET_LOG_MAX + 4));
}

#[test]
fn lookups_are_queued_as_configured() {
    let mut b = book(vec![]);
    b.queue_lookup(&config(), " K1A ");
    b.queue_lookup(&config(), "  ");
    b.queue_lookup(&NetworkConfig { auto_lookup: false, ..config() }, "K1B");
    b.queue_lookup(&NetworkConfig { lookup_provider: LookupProvider::Off, ..config() }, "K1C");
    assert_eq!(b.pending_lookups, ["K1A"]);
}

#[test]
fn a_lookup_fills_the_open_form_before_the_log() {
    let mut b = book(vec![record(1, "OE3ABC", NOON)]);
    let mut form = LogEditForm::new_entry(NOON, "14.074", "FT8");
    form.call = " oe3abc ".to_string();
    form.qth = "Wien".to_string();
    b.edit = Some(form);
    assert!(!b.apply_callsign(info("OE3ABC")));
    let f = b.edit.as_ref().unwrap();
    assert_eq!((f.name.as_str(), f.qth.as_str(), f.grid.as_str()), ("Ann", "Wien", "JN77"));
    assert_eq!(b.log[0].name, "");
    assert_eq!(b.net_log[0], "OE3ABC —  Ann , Graz (Austria)");
}

#[test]
fn a_lookup_enriches_the_latest_contact() {
    let mut b = book(vec![
        record(1, "OE3ABC", NOON + 60),
        record(2, "oe3abc", NOON + 120),
        record(3, "OE3ABC", NOON),
        record(4, "K1A", NOON + 500),
    ]);
    b.log[1].dxcc = Some(1);
    assert!(b.apply_callsign(info("OE3ABC")));
    assert_eq!(b.log[1].name, "Ann");
    assert_eq!(b.log[1].grid.as_deref(), Some("JN77"));
    assert_eq!((b.log[1].dxcc, b.log[1].cq_zone), (Some(1), Some(15)));
    assert!(b.log[0].name.is_empty() && b.log[2].name.is_empty());
    // Nothing new the second time, and nothing for a call that is not logged.
    assert!(!b.apply_callsign(info("OE3ABC")));
    assert!(!b.apply_callsign(info("XX9X")));
    assert_eq!(b.net_log.len(), 3);
}

#[test]
fn an_upload_marks_the_contact_on_success() {
    let mut b = book(vec![record(1, "A", 0), record(2, "B", 0)]);
    let result = |ok: bool, target: UploadTarget| UploadResult {
        qso_id: 2,
        target,
        label: "eQSL".to_string(),
        ok,
        message: "fine".to_string(),
    };
    assert!(!b.on_upload_result(result(false, UploadTarget::Eqsl)));
    assert!(!b.log[1].eqsl_sent);
    assert!(b.on_upload_result(result(true, UploadTarget::Eqsl)));
    assert!(b.log[1].eqsl_sent && !b.log[0].eqsl_sent);
    assert!(b.on_upload_result(result(true, UploadTarget::QrzLogbook)));
    assert!(b.on_upload_result(result(true, UploadTarget::ClubLog)));
    assert!(b.log[1].qrz_sent && b.log[1].clublog_sent);
    assert_eq!(b.net_log.len(), 4);
}

#[test]
fn confirmations_find_their_contact() {
    let mut b = book(vec![
        record(1, "K1A", NOON),
        record(2, "K1A", NOON + 5),
        record(3, "K1B", NOON),
    ]);
    let confirm = |call: &str, mode: &str, at: i64| QsoRecord {
        lotw_rcvd: true,
        mode: mode.to_string(),
        ..record(0, call, at)
    };
    // The first that matches, whatever the case; another mode or day does not.
    assert!(b.apply_confirmations(&vec![confirm("k1a", "ft8", NOON + 86_399)]));
    assert!(b.log[0].lotw_rcvd && !b.log[1].lotw_rcvd);
    assert!(!b.apply_confirmations(&vec![confirm("K1A", "FT8", NOON)]));
    assert!(!b.apply_confirmations(&vec![confirm("K1B", "CW", NOON)]));
    assert!(!b.apply_confirmations(&vec![confirm("K1B", "FT8", NOON + 86_400)]));
    assert!(!b.apply_confirmations(&vec![confirm(" ", "FT8", NOON)]));
    // Without a mode on either side the mode does not count.
    b.log[2].mode = String::new();
    assert!(b.apply_confirmations(&vec![confirm("K1B", "CW", NOON)]));
    assert!(b.log[2].is_confirmed());
}

#[test]
fn an_import_adds_no_contact_twice() {
    let mut b = book(vec![record(5, "K1A", NOON)]);
    let records = vec![
        record(1, "k1a", NOON + 119),
        record(1, "K1A", NOON + 120),
        record(1, "K1B", NOON),
        record(1, "K1B", NOON + 1),
        record(1, " ", NOON),
    ];
    assert!(b.import_records(&records));
    let got: Vec<(u64, &str)> = b.log.iter().map(|q| (q.id, q.call.as_str())).collect();
    assert_eq!(got, [(5, "K1A"), (6, "K1A"), (7, "K1B")]);
    assert!(!b.import_records(&records));
    assert_eq!(b.log.len(), 3);
    // What is there already needs no id.
    b.log[0].id = u64::MAX;
    assert!(!b.import_records(&records));
    assert_eq!(b.log.len(), 3);
}

#[test]
fn award_references_survive_an_edit() {
    let mut r = record(5, "K1A", NOON);
    r.iota = "EU-005".to_string();
    r.pota_ref = "US-0001".to_string();
    r.sota_ref = "OE/NO-001".to_string();
    let mut b = book(vec![r]);
    b.begin_edit(5, "14.074000", "5");
    assert!(b.save_entry("ME1ME", "JN77", typed()));
    let r = &b.log[0];
    assert_eq!(
        (r.iota.as_str(), r.pota_ref.as_str(), r.sota_ref.as_str()),
        ("EU-005", "US-0001", "OE/NO-001")
    );
    assert_eq!(r.copy().sota_ref, "OE/NO-001");
}

#[test]
fn an_entry_is_saved_under_a_fresh_id() {
    let mut b = book(vec![record(5, "K1A", NOON)]);
    b.begin_new(NOON, "14.074", "");
    assert!(b.is_adding());
    assert!(!b.save_entry("ME1ME", "JN77", typed()), "no call yet");
    assert!(b.edit.is_some());
    let f = b.edit.as_mut().unwrap();
    f.call = " oe3abc ".to_string();
    f.grid = "jn88".to_string();
    f.rst_sent = " 59 ".to_string();
    f.rst_rcvd = "loud".to_string();
    f.time = "13:30".to_string();
    assert!(b.save_entry("ME1ME", "JN77", typed()));
    assert!(b.edit.is_none());
    let r = &b.log[1];
    assert_eq!((r.id, r.call.as_str(), r.grid.as_deref()), (6, "OE3ABC", Some("JN88")));
    assert_eq!((r.rst_sent, r.rst_rcvd), (Some(59), None));
    assert_eq!(r.start_utc, NOON + 5400);
    assert_eq!((r.my_call.as_str(), r.my_grid.as_str()), ("ME1ME", "JN77"));
    assert!(!b.save_entry("ME1ME", "JN77", typed()), "nothing is open");
}

#[test]
fn an_edit_keeps_what_the_form_does_not_show() {
    let mut rec = record(5, "K1A", NOON + 30);
    rec.dxcc = Some(291);
    rec.lotw_sent = true;
    rec.tx_pwr = Some(Single(5.0f32.to_bits()));
    rec.srx = Some(7);
    let mut b = book(vec![rec]);
    b.begin_edit(6, "x", "x");
    assert!(b.edit.is_none());
    b.begin_edit(5, "14.074000", "5");
    assert!(!b.is_adding());
    b.edit.as_mut().unwrap().comment = "nice".to_string();
    assert!(b.save_entry("ME1ME", "", typed()));
    let r = &b.log[0];
    assert_eq!((r.id, r.comment.as_str(), r.dxcc, r.lotw_sent), (5, "nice", Some(291), true));
    assert_eq!(r.srx, Some(7));
}

#[test]
fn the_form_is_timed_and_cancelled() {
    let mut b = book(vec![]);
    b.set_now(NOON);
    assert!(b.edit.is_none());
    b.begin_new(0, "7.100", "LSB");
    b.set_now(NOON + 3600);
    let f = b.edit.as_ref().unwrap();
    assert_eq!((f.date.as_str(), f.time.as_str(), f.mode.as_str()), ("2026-07-25", "13:00", "LSB"));
    b.cancel_entry();
    assert!(b.edit.is_none() && b.log.is_empty());
}

#[test]
fn the_form_looks_its_call_up() {
    let mut b = book(vec![]);
    b.begin_new(0, "", "");
    b.lookup_entry(&config(), true, false);
    assert!(b.pending_lookups.is_empty());
    b.edit.as_mut().unwrap().call = " K1A ".to_string();
    b.lookup_entry(&config(), true, false);
    b.lookup_entry(&config(), false, true);
    b.lookup_entry(&config(), false, false);
    let manual = NetworkConfig { auto_lookup: false, ..config() };
    b.lookup_entry(&manual, false, true);
    b.lookup_entry(&manual, true, false);
    b.lookup_entry(&NetworkConfig { lookup_provider: LookupProvider::Off, ..config() }, true, true);
    assert_eq!(b.pending_lookups, ["K1A", "K1A", "K1A"]);
}

#[test]
fn a_station_that_was_worked_is_recognised() {
    let b = book(vec![record(5, "K1A", NOON)]);
    assert!(worked_before(&b.log, "k1a", "20M", 0));
    assert!(!worked_before(&b.log, "K1A", "20m", 5));
    assert!(!worked_before(&b.log, "K1A", "40m", 0));
    let mut f = LogEditForm::new_entry(NOON, "14.074", "FT8");
    assert!(!worked_before_badge(&b.log, &f, "20m"));
    f.call = "K1A".to_string();
    assert!(worked_before_badge(&b.log, &f, "20m"));
}

#[test]
fn the_list_is_in_daily_sessions() {
    let day = 86_400;
    let log = vec![
        record(1, "A", NOON),
        record(2, "B", NOON + day),
        record(3, "C", NOON + 60),
        record(4, "D", NOON),
    ];
    assert_eq!(order_of(&log), [1, 2, 0, 3]);
    let s = sessions(&log);
    assert_eq!(s.len(), 2);
    assert_eq!((s[0].day.as_str(), s[0].rows.as_slice()), ("2026-07-26", &[1usize][..]));
    assert_eq!((s[1].day.as_str(), s[1].rows.as_slice()), ("2026-07-25", &[2usize, 0, 3][..]));
    assert_eq!(s[1].header(), "12:00–12:01 UTC · 3 QSO");
    assert!(sessions(&vec![]).is_empty());
}

#[test]
fn a_row_shows_reports_and_confirmations() {
    let mut r = record(1, "A", 0);
    assert_eq!(rst_text(&r), "–/–");
    r.rst_sent = Some(-12);
    r.rst_rcvd = Some(59);
    assert_eq!(rst_text(&r), "-12/59");
    assert_eq!((qsl_mark(&r), qsl_tip(&r).as_str()), (QslMark::Nothing, ""));
    r.qrz_sent = true;
    assert_eq!((qsl_mark(&r), qsl_tip(&r).as_str()), (QslMark::Uploaded, "QRZ ↑"));
    r.lotw_rcvd = true;
    assert_eq!((qsl_mark(&r), qsl_tip(&r).as_str()), (QslMark::Confirmed, "LoTW ✓, QRZ ↑"));
    assert_eq!(row_action(Some(1), Some(2), Some(3)), RowAction::Delete(1));
    assert_eq!(row_action(None, Some(2), Some(3)), RowAction::Edit(2));
    assert_eq!(row_action(None, None, Some(3)), RowAction::Upload(3));
    assert_eq!(row_action(None, None, None), RowAction::Nothing);
}

#[test]
fn a_deleted_contact_is_gone() {
    let mut b = book(vec![record(1, "A", 0), record(2, "B", 0), record(3, "C", 0)]);
    b.delete(2);
    b.delete(9);
    assert_eq!(b.log.iter().map(|q| q.id).collect::<Vec<_>>(), [1, 3]);
}

#[test]
fn a_contact_is_logged_looked_up_and_uploaded() {
    let mut b = book(vec![record(8, "A", 0)]);
    b.log_contact(&config(), record(1, "K1A", NOON));
    assert_eq!((b.log[1].id, b.log[1].call.as_str()), (9, "K1A"));
    b.queue_upload(8, vec![UploadTarget::QrzLogbook]);
    b.queue_upload(77, vec![UploadTarget::QrzLogbook]);
    b.queue_upload(8, vec![]);
    let cmds = b.flush();
    assert_eq!(cmds.len(), 3);
    assert!(matches!(&cmds[0], Command::LookupCallsign(c) if c == "K1A"));
    match &cmds[1] {
        Command::UploadQso { id, targets } => {
            assert_eq!((*id, targets.len()), (9, 2));
        }
        _ => panic!("the contact is uploaded"),
    }
    assert!(matches!(&cmds[2], Command::UploadQso { id: 8, .. }));
    assert!(b.flush().is_empty());
}
