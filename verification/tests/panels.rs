use sdroxide_ui::command::Command;
use sdroxide_ui::command::Mode;
use sdroxide_ui::digi_panel::{
    card_note, fsq_own_call, has_params, in_qso, my_grid, nudge_audio, path_line, pick_step,
    press_cq, press_text_tx, session_line, setup_title, slot_line, starred_messages, transcript,
    FreeText, Fsq, FsqContact, FsqMessage, Line, LineTone, QsoStep, TextTx,
};
use sdroxide_ui::rade::{press_mute_analog, LinkState, RadeStatus};
use sdroxide_ui::rf_paint::{progress, Gray, RfPaintUi};
use sdroxide_ui::voice::{
    play_tip, press_play, press_preview, press_record, preview_tip, slot_hint, store_memory,
    voice_row, LengthCell, TxState, VoiceStatus, VoiceWindow,
};

fn sent(cmds: &[Command]) -> Option<&str> {
    match cmds {
        [Command::DigiAbortTx, Command::DigiTxText(t), Command::DigiTxActive(true)] => Some(t),
        _ => None,
    }
}

#[test]
fn the_conversation_is_listed() {
    let line = |overheard: bool, tx: bool, text: &str| Line { overheard, tx, text: text.to_string() };
    let lines = vec![line(true, false, "a"), line(false, true, "b"), line(false, false, "c")];
    let shown = transcript(&lines, &Some("d".to_string()));
    let got: Vec<(LineTone, &str)> = shown.iter().map(|l| (l.tone, l.text.as_str())).collect();
    assert_eq!(
        got,
        [
            (LineTone::Overheard, "· a"),
            (LineTone::Sent, "» b"),
            (LineTone::Received, "« c"),
            (LineTone::Pending, "→ d"),
        ]
    );
    let empty = transcript(&vec![], &None);
    assert_eq!((empty.len(), empty[0].text.as_str()), (1, "— no messages —"));
    assert_eq!(transcript(&lines, &None).len(), 3);
}

#[test]
fn message_buttons_work_with_a_station() {
    assert!(matches!(
        pick_step(true, QsoStep::TxRr73),
        Some(Command::DigiSetStep(QsoStep::TxRr73))
    ));
    assert!(pick_step(false, QsoStep::TxRr73).is_none());
    assert!(!in_qso(None));
    assert!(!in_qso(Some(QsoStep::Idle)));
    assert!(in_qso(Some(QsoStep::TxReport)));
}

#[test]
fn free_text_is_sent_once() {
    let mut t = FreeText { text: "TNX BOB".to_string() };
    assert!(matches!(t.send(), Some(Command::DigiSendText(s)) if s == "TNX BOB"));
    assert_eq!(t.text, "");
    assert!(t.send().is_none());
    t.edit("  ");
    assert!(t.send().is_none());
    assert_eq!(t.text, "  ");
}

#[test]
fn free_text_stops_at_what_one_slot_carries() {
    let mut t = FreeText { text: String::new() };
    t.edit("TNX FER QSO 73 DE ME");
    assert_eq!(t.text, "TNX FER QSO 7");
    t.edit("ÄÖÜÄÖÜÄÖÜÄÖÜÄÖÜ");
    assert_eq!(t.text.chars().count(), 13);
    assert!(matches!(t.send(), Some(Command::DigiSendText(s)) if s == "ÄÖÜÄÖÜÄÖÜÄÖÜÄ"));
}

#[test]
fn a_picture_takes_the_place_of_what_is_sent() {
    let cmds = fsq().send_image(vec![1, 2]);
    assert!(matches!(&cmds[..], [Command::DigiAbortTx, Command::DigiImageTx(f)] if f[..] == [1, 2]));
}

#[test]
fn the_engines_grid_comes_first() {
    assert_eq!(my_grid(&Some("JN77".to_string()), "FN42"), "JN77");
    assert_eq!(my_grid(&Some(String::new()), "FN42"), "FN42");
    assert_eq!(my_grid(&None, "FN42"), "FN42");
}

#[test]
fn characters_on_the_air_stay() {
    let mut t = TextTx { text: "HELLO".to_string() };
    assert!(matches!(t.edit("HELP", 3), Command::DigiTxText(s) if s == "HELP"));
    assert!(matches!(t.edit("YELP", 1), Command::DigiTxText(s) if s == "HELP"));
    assert_eq!(t.text, "HELP");
    t.edit("", 0);
    assert_eq!(t.text, "");
    let cmds = t.call_cq("OE3ABC");
    assert_eq!(sent(&cmds), Some("CQ CQ CQ DE OE3ABC OE3ABC OE3ABC PSE K\n"));
    assert_eq!(t.text, "CQ CQ CQ DE OE3ABC OE3ABC OE3ABC PSE K\n");
    assert_eq!(sent(&t.call_cq("")), Some("CQ CQ CQ DE NOCALL NOCALL NOCALL PSE K\n"));
    let cmds = t.clear();
    assert!(matches!(&cmds[..], [Command::DigiAbortTx, Command::DigiTxText(s)] if s.is_empty()));
    assert_eq!(t.text, "");
}

fn fsq() -> Fsq {
    Fsq {
        target: String::new(),
        text: String::new(),
        contacts: vec![],
        new_contact: String::new(),
        show_contacts: false,
    }
}

#[test]
fn directed_messages_name_both_stations() {
    let mut f = fsq();
    f.text = " hello ".to_string();
    assert_eq!(f.target_label(), "ALLCALL");
    assert!(f.ask_heard("oe3abc").is_empty());
    assert_eq!(sent(&f.send("oe3abc")), Some("oe3abc: hello\n"));
    assert_eq!(f.text, "");
    assert!(f.send("oe3abc").is_empty());
    f.set_target("k1a");
    assert!(f.is_target("K1A") && !f.is_target("K1B"));
    assert_eq!(f.target_label(), "k1a");
    f.text = "hi".to_string();
    assert_eq!(sent(&f.send("")), Some("NOCALL:k1a hi\n"));
    assert_eq!(sent(&f.ask_heard("me")), Some("me:k1a?\n"));
    f.text = "hi".to_string();
    assert!(matches!(f.clear(), Command::DigiAbortTx));
    assert_eq!(f.text, "");
    assert_eq!(fsq_own_call("", "OE3ABC"), "OE3ABC");
    assert_eq!(fsq_own_call("oe3", "OE3ABC"), "oe3");
}

#[test]
fn contacts_are_kept_under_fresh_ids() {
    let mut f = fsq();
    f.contacts.push(FsqContact {
        id: 7,
        call: "K1A".to_string(),
        name: "Al".to_string(),
        note: String::new(),
    });
    assert!(!f.add_contact());
    f.new_contact = " oe3abc ".to_string();
    assert!(f.add_contact());
    assert_eq!((f.contacts[1].id, f.contacts[1].call.as_str()), (8, "OE3ABC"));
    assert_eq!(f.new_contact, "");
    f.delete_contact(7);
    assert_eq!(f.contacts.len(), 1);
    assert_eq!(f.contacts[0].call, "OE3ABC");
}

#[test]
fn messages_to_me_are_starred() {
    let m = |to: &str, to_me: bool| FsqMessage {
        from: "k1a".to_string(),
        to: to.to_string(),
        text: "hi".to_string(),
        to_me,
    };
    assert_eq!(starred_messages(&vec![m("me", true), m("me", false), m("", true)]), [
        "★ k1a → me: hi"
    ]);
}

#[test]
fn the_voice_keyer_does_one_thing_at_a_time() {
    let idle = VoiceStatus { recording: None, playing: None, previewing: None };
    let rx = TxState { ptt: false, tune: false };
    let row = voice_row(&idle, &rx, 2, false);
    assert!(row.can_record && row.can_preview && row.can_play && row.can_erase);
    assert_eq!(row.length, LengthCell::Length);
    assert!(matches!(press_record(&row, 2), Command::VoiceRecord(Some(2))));
    assert!(matches!(press_preview(&row, 2), Command::VoicePreview(Some(2))));
    assert!(matches!(press_play(&row, 2), Command::VoicePlay(Some(2))));
    assert!(!idle.busy());
    let empty = voice_row(&idle, &rx, 2, true);
    assert!(empty.can_record && !empty.can_preview && !empty.can_play && !empty.can_erase);
    assert_eq!(empty.length, LengthCell::Empty);
    assert_eq!(preview_tip(&empty, &rx, true), "Nothing recorded in this slot");
    // While slot 1 is recorded.
    let rec = VoiceStatus { recording: Some(1), ..idle };
    let row = voice_row(&rec, &rx, 1, false);
    assert!(row.can_record && !row.can_play && !row.can_preview && !row.can_erase);
    assert_eq!(row.length, LengthCell::Recording);
    assert!(matches!(press_record(&row, 1), Command::VoiceRecord(None)));
    assert!(!voice_row(&rec, &rx, 2, false).can_record);
    assert!(rec.busy());
    // While slot 1 is on the air.
    let tx = TxState { ptt: true, tune: false };
    let play = VoiceStatus { playing: Some(1), ..idle };
    let row = voice_row(&play, &tx, 1, false);
    assert!(row.can_play && !row.can_record && !row.can_preview);
    assert!(matches!(press_play(&row, 1), Command::VoicePlay(None)));
    assert_eq!(play_tip(&row, &tx, false), "Stop transmitting");
    assert_eq!(
        preview_tip(&voice_row(&play, &tx, 2, false), &tx, false),
        "Not while transmitting"
    );
    let tune = TxState { ptt: false, tune: true };
    let row = voice_row(&idle, &tune, 1, false);
    assert!(!row.can_play && !row.can_record);
    assert_eq!(play_tip(&row, &tune, false), "TUNE is active — switch it off first");
    let hear = VoiceStatus { previewing: Some(1), ..idle };
    let row = voice_row(&hear, &rx, 1, false);
    assert!(row.can_preview && !row.can_record && row.can_play);
    assert_eq!(preview_tip(&row, &rx, false), "Stop listening");
}

#[test]
fn slot_names_are_stored_on_leaving() {
    let mut w = VoiceWindow { show: true, editing: None };
    assert_eq!(w.name_of(0, "CQ"), "CQ");
    w.name_changed(0, "CQ DX");
    assert_eq!(w.name_of(0, "CQ"), "CQ DX");
    assert_eq!(w.name_of(1, "73"), "73");
    assert!(matches!(
        w.name_left(0),
        Some(Command::VoiceRename { slot: 0, name }) if name == "CQ DX"
    ));
    assert!(w.name_left(0).is_none());
    assert!(w.visible(true) && w.show);
    assert!(!w.visible(false) && !w.show);
    assert_eq!(slot_hint(0), "Slot 1");
    let mut name = " 40m net ".to_string();
    assert!(matches!(store_memory(&mut name), Some(Command::StoreMemory(n)) if n == "40m net"));
    assert!(store_memory(&mut name).is_none());
}

#[test]
fn the_lamp_is_lit_only_in_sync() {
    let mut s = RadeStatus { sync: false, transmitting: false, dropped: 0 };
    assert_eq!((s.link(), s.link_label()), (LinkState::Searching, "searching"));
    s.sync = true;
    assert_eq!((s.link(), s.link_label()), (LinkState::Sync, "SYNC"));
    assert_eq!(s.talk_label(), "TALK (PTT)");
    assert!(matches!(s.press_talk(), Command::DigiTxActive(true)));
    s.transmitting = true;
    assert_eq!((s.link(), s.link_label()), (LinkState::Transmitting, "transmitting"));
    assert_eq!(s.talk_label(), "STOP TALKING");
    assert!(matches!(s.press_talk(), Command::DigiTxActive(false)));
    assert_eq!(s.dropped_note(), None);
    s.dropped = 42;
    assert!(s.dropped_note().unwrap().starts_with("⚠ 42 samples dropped"));
    let mut mute = false;
    assert!(!press_mute_analog(&mut mute, false) && !mute);
    assert!(press_mute_analog(&mut mute, true) && mute);
}

#[test]
fn paint_previews_are_built_once() {
    let mut p = RfPaintUi::default();
    let first = p.ensure();
    assert!(first.text && first.image && first.shown.is_none());
    let again = p.ensure();
    assert!(!again.text && !again.image);
    assert!(!p.can_paint_text(false) && !p.can_paint_image(false));
    p.text = "HI".to_string();
    p.picked(Some(Gray { pixels: vec![1, 2, 3], w: 2, h: 2 }));
    let r = p.ensure();
    assert!(r.text && r.image);
    let shown = r.shown.unwrap();
    assert_eq!(shown.size, (2, 2));
    assert_eq!(shown.pixels[1].r, 2);
    assert_eq!(shown.pixels[3].r, 0);
    assert!(p.can_paint_text(false) && p.can_paint_image(false));
    assert!(!p.can_paint_text(true) && !p.can_paint_image(true));
    let file = || Some(vec![7u8]);
    assert!(matches!(p.press_text(false, file()), Some(Command::DigiImageTx(f)) if f == [7]));
    assert!(matches!(p.press_image(false, file()), Some(Command::DigiImageTx(f)) if f == [7]));
    assert!(p.press_text(true, file()).is_none() && p.press_image(true, file()).is_none());
    assert!(p.press_text(false, None).is_none() && p.press_image(false, None).is_none());
    assert!(matches!(p.press_abort(true), Some(Command::DigiAbortTx)));
    assert!(p.press_abort(false).is_none());
    p.picked(None);
    assert!(p.ensure().shown.is_none());
    assert!(!p.can_paint_image(false));
    assert_eq!((progress(None), progress(Some(250)), progress(Some(9000))), (0, 250, 1000));
}

#[test]
fn the_station_card() {
    assert_eq!(slot_line("1500", true), "1500 Hz · even slots");
    assert_eq!(slot_line("900", false), "900 Hz · odd slots");
    let dx = Some("FN42".to_string());
    let path = Some(("6500", "301"));
    assert_eq!(path_line("JN77", &dx, path).as_deref(), Some("6500 km · 301°"));
    assert_eq!(path_line("", &dx, path), None);
    assert_eq!(path_line("JN77", &None, path), None);
    assert_eq!(path_line("JN77", &dx, None), None);
    assert_eq!(card_note(false, false), Some("FT8 engine idle"));
    assert_eq!(card_note(true, false), Some("no active QSO — pick a decode to reply, or Call CQ"));
    assert_eq!(card_note(true, true), None);
    assert_eq!(session_line(0), ("Session: 0 QSO".to_string(), false));
    assert_eq!(session_line(3), ("Session: 3 QSO".to_string(), true));
    assert!(matches!(press_cq(None), Some(Command::DigiCallCq)));
    assert!(matches!(press_cq(Some(QsoStep::Done)), Some(Command::DigiCallCq)));
    assert!(press_cq(Some(QsoStep::CallingCq)).is_none());
}

#[test]
fn the_keyboard_modes_controls() {
    assert!(matches!(press_text_tx(true), Command::DigiTxActive(false)));
    assert_eq!(nudge_audio(1_500_000, true), 1_510_000);
    assert_eq!(nudge_audio(205_000, false), 200_000);
    assert_eq!(nudge_audio(3_499_000, true), 3_500_000);
    assert_eq!(nudge_audio(i64::MAX, true), 3_500_000);
    assert!(has_params(Mode::Rtty) && has_params(Mode::Olivia) && has_params(Mode::Thor));
    assert!(!has_params(Mode::Psk));
    assert_eq!(setup_title(true, "PSK31"), "PSK31 Setup");
    assert_eq!(setup_title(false, "FT8"), "FT8 / FT4 Setup");
}
