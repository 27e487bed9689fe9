use sdroxide_ui::carried::Double;
use sdroxide_ui::device_settings::{
    bind_label, gain_of, has_stage, last_midi_line, midi_line, radio_audio_shown, radio_tab,
    reporting, shown_or, test_line, warns_of_exposure, Gain, GainStage, IcomRadio, KeyBinding,
    MidiStatus, RadioTab, Reporting,
};
use sdroxide_ui::settings::{
    cluster_commands, cluster_text, device_shown, dialog_need, group_headings, iface_options,
    is_freedv_status, manual_ip, operator_identity, parse_hex_byte, selected_protocol,
    server_status_line, settings_effects, show_hex_byte, wheel_cannot_zoom, Backend, Bindings,
    DialogNeed, Edits, Effect, FoundDevice, Identity, MidiPort, ServerStatus, StatusTone,
};

#[test]
fn interfaces_to_choose_from() {
    let always = [Backend::Hpsdr, Backend::Cat, Backend::Tci, Backend::Flex, Backend::Icom];
    assert_eq!(iface_options(false), always);
    assert_eq!(iface_options(true)[0], Backend::Soapy);
    assert_eq!(iface_options(true)[1..], always);
}

#[test]
fn cluster_commands_survive_editing() {
    let text = " set/filter \n\n  show/dx\r\n";
    let cmds = cluster_commands(text);
    assert_eq!(cmds, ["set/filter", "show/dx"]);
    assert_eq!(cluster_text(&cmds), "set/filter\nshow/dx");
    assert_eq!(cluster_commands(&cluster_text(&cmds)), cmds);
    assert!(cluster_commands("").is_empty());
    assert_eq!(cluster_text(&vec![]), "");
}

#[test]
fn a_byte_in_hexadecimal() {
    for v in 0..=255u8 {
        assert_eq!(show_hex_byte(v), format!("{v:02X}"));
        assert_eq!(parse_hex_byte(&show_hex_byte(v)), Some(v));
    }
    assert_eq!(parse_hex_byte(" 0x94 "), Some(0x94));
    assert_eq!(parse_hex_byte("a4"), Some(0xa4));
    assert_eq!(parse_hex_byte("0ff"), Some(255));
    for bad in ["", "0x", "100", "g1", "-1", "9 4"] {
        assert_eq!(parse_hex_byte(bad), None, "{bad:?}");
    }
}

#[test]
fn addresses_and_devices() {
    assert_eq!(manual_ip(" 10.0.0.2 "), Some("10.0.0.2".to_string()));
    assert_eq!(manual_ip("  "), None);
    assert_eq!(device_shown(&None), "System default");
    assert_eq!(device_shown(&Some("USB".to_string())), "USB");
    let found = vec![
        FoundDevice { ip: "a".to_string(), protocol: 1 },
        FoundDevice { ip: "b".to_string(), protocol: 2 },
        FoundDevice { ip: "a".to_string(), protocol: 3 },
    ];
    assert_eq!(selected_protocol(&found, &Some("a".to_string())), 1);
    assert_eq!(selected_protocol(&found, &Some("c".to_string())), 2);
    assert_eq!(selected_protocol(&found, &None), 2);
}

#[test]
fn a_server_says_how_it_is() {
    let line = |running: bool, clients: usize, error: Option<&str>| {
        server_status_line(&Some(ServerStatus {
            running,
            addr: "0.0.0.0:40001".to_string(),
            clients,
            error: error.map(|e| e.to_string()),
        }))
    };
    assert_eq!(line(true, 1, None), (StatusTone::Good, "● Listening on 0.0.0.0:40001 — 1 client".to_string()));
    assert_eq!(line(true, 3, None).1, "● Listening on 0.0.0.0:40001 — 3 clients");
    assert_eq!(line(false, 0, Some("in use")), (StatusTone::Bad, "Failed: in use".to_string()));
    assert_eq!(line(false, 0, None), (StatusTone::Plain, "Not running.".to_string()));
    assert_eq!(server_status_line(&None).1, "Status unknown — press APPLY.");
}

#[test]
fn the_operator_has_to_be_known() {
    assert!(matches!(operator_identity("OE3ABC", "JN77", false), Identity::Unknown));
    assert!(matches!(operator_identity(" ", "JN77", true), Identity::Missing));
    assert!(matches!(operator_identity("OE3ABC", "", true), Identity::Missing));
    match operator_identity(" OE3ABC ", "JN77 ", true) {
        Identity::Known { call, grid } => assert_eq!((call.as_str(), grid.as_str()), ("OE3ABC", "JN77")),
        _ => panic!("both are set"),
    }
    assert!(is_freedv_status("FreeDV Reporter: connected"));
    assert!(!is_freedv_status("DX cluster: connected"));
}

#[test]
fn bindings_wait_for_a_key() {
    let mut b = Bindings { rows: vec!['a', 'b', 'c'], capture: None };
    b.press(1);
    assert_eq!(b.capture, Some(1));
    b.press(1);
    assert_eq!(b.capture, None);
    b.press(1);
    b.press(2);
    assert_eq!(b.capture, Some(2));
    b.remove(2);
    assert_eq!((b.rows.as_slice(), b.capture), (&['a', 'b'][..], None));
    b.add_row('d');
    assert_eq!((b.rows.as_slice(), b.capture), (&['a', 'b', 'd'][..], Some(2)));
    b.remove(0);
    assert_eq!(b.capture, Some(2));
    b.restore(vec!['z']);
    assert_eq!((b.rows.as_slice(), b.capture), (&['z'][..], None));
}

#[test]
fn lists_are_headed_and_picked_from() {
    let groups: Vec<String> =
        ["", "Tune", "Tune", "", "Mode"].iter().map(|s| s.to_string()).collect();
    assert_eq!(group_headings(&groups), [false, true, false, true, true]);
    let mut p = MidiPort { id: String::new(), name: String::new() };
    assert_eq!(p.shown(), "— none —");
    p.pick(Some(("7", "Knobs")));
    assert_eq!((p.id.as_str(), p.shown().as_str()), ("7", "Knobs"));
    p.pick(None);
    assert_eq!(p.shown(), "— none —");
}

#[test]
fn the_dialog_asks_once() {
    assert_eq!(dialog_need(true, false), DialogNeed::Query);
    assert_eq!(dialog_need(true, true), DialogNeed::Nothing);
    assert_eq!(dialog_need(false, true), DialogNeed::Forget);
    assert!(wheel_cannot_zoom(true, true));
    assert!(!wheel_cannot_zoom(true, false));
}

fn no_edits() -> Edits {
    Edits {
        net_apply: false,
        net_sync: false,
        midi_rescan: false,
        input_changed: false,
        tci_server_apply: false,
        rigctld_apply: false,
        wsjtx_apply: false,
        audio_picked: false,
        hpsdr_discover: false,
        flex_discover: false,
        flex_test: false,
        flex_addressed: false,
        tci_test: false,
        apply_iface: false,
        has_radio: false,
        radio_changed: false,
        ui_changed: false,
        digi_seeded: false,
        digi_changed: false,
    }
}

#[test]
fn edits_have_their_effects_in_order() {
    assert!(settings_effects(&no_edits()).is_empty());
    let e = Edits {
        net_apply: true,
        flex_test: true,
        has_radio: true,
        apply_iface: true,
        ui_changed: true,
        digi_changed: true,
        ..no_edits()
    };
    assert_eq!(
        settings_effects(&e),
        [
            Effect::SendNetwork,
            Effect::RefuseFlexTest,
            Effect::SetRadio,
            Effect::ReopenSource,
            Effect::SaveUi,
        ]
    );
    let both = Edits { midi_rescan: true, input_changed: true, ..no_edits() };
    assert_eq!(settings_effects(&both), [Effect::RescanMidi, Effect::SaveInput]);
    let e = Edits { flex_addressed: true, digi_seeded: true, ..e };
    let got = settings_effects(&e);
    assert!(got.contains(&Effect::TestFlex) && got.contains(&Effect::SendDigi));
    assert!(!settings_effects(&Edits { has_radio: false, ..e }).contains(&Effect::TestFlex));
}

#[test]
fn each_interface_has_its_tab() {
    assert_eq!(radio_tab(None), RadioTab::NativeOnly);
    assert_eq!(radio_tab(Some(Backend::Soapy)), RadioTab::Device);
    assert_eq!(radio_tab(Some(Backend::Hpsdr)), RadioTab::Hpsdr);
    assert_eq!(radio_tab(Some(Backend::Cat)), RadioTab::Cat);
    assert_eq!(radio_tab(Some(Backend::Tci)), RadioTab::Tci);
    assert_eq!(radio_tab(Some(Backend::Icom)), RadioTab::Icom);
    assert_eq!(radio_tab(Some(Backend::Flex)), RadioTab::Flex);
    assert_eq!(radio_tab(Some(Backend::Auto)), RadioTab::PickOne);
    assert!(radio_audio_shown(Some(Backend::Cat), true));
    assert!(!radio_audio_shown(Some(Backend::Tci), true) && !radio_audio_shown(None, true));
    assert_eq!(shown_or("", "— select —"), "— select —");
    assert_eq!(shown_or("COM3", "— select —"), "COM3");
}

#[test]
fn gains_start_at_the_least() {
    let stage = |name: &str, transmits: bool| GainStage {
        name: name.to_string(),
        transmits,
        min_db: Double(7),
    };
    let gain = |name: &str, db: u64| Gain { name: name.to_string(), db: Double(db) };
    let gains = vec![gain("LNA", 1), gain("VGA", 2), gain("LNA", 3)];
    assert_eq!(gain_of(&gains, &stage("LNA", false)).0, 1);
    assert_eq!(gain_of(&gains, &stage("AMP", false)).0, 7);
    let stages = vec![stage("LNA", false)];
    assert!(has_stage(&stages, false) && !has_stage(&stages, true));
}

#[test]
fn lines_of_the_tabs() {
    assert!(test_line(&None).is_none());
    assert_eq!(test_line(&Some(Ok("SunSDR".to_string()))).unwrap().1, "Connected: SunSDR");
    let (tone, text) = test_line(&Some(Err("refused".to_string()))).unwrap();
    assert_eq!((tone, text.as_str()), (StatusTone::Bad, "Failed: refused"));
    assert!(warns_of_exposure(true, true) && !warns_of_exposure(false, true));
    assert_eq!(bind_label("127.0.0.1"), "127.0.0.1 (this machine)");
    assert_eq!(bind_label("0.0.0.0"), "0.0.0.0 (whole network)");
    assert!(matches!(reporting(false, true, "A", "B", "1"), Reporting::Nothing));
    assert!(matches!(reporting(true, true, "", "B", "1"), Reporting::ViewOnly));
    match reporting(true, true, "OE3ABC", "JN77", "1.2") {
        Reporting::As(t) => assert_eq!(t, "Reporting as OE3ABC / JN77 — SDRoxide 1.2"),
        _ => panic!("both are set"),
    }
    let mut m = MidiStatus { connected: false, port: "Knobs".to_string(), error: None };
    assert_eq!(midi_line(&m), (StatusTone::Plain, "Not connected.".to_string()));
    m.error = Some("busy".to_string());
    assert_eq!(midi_line(&m), (StatusTone::Bad, "busy".to_string()));
    m.connected = true;
    assert_eq!(midi_line(&m), (StatusTone::Good, "● Knobs".to_string()));
    assert_eq!(last_midi_line(None), "Move a control to see it here.");
    assert_eq!(last_midi_line(Some(("CC 7", 64))), "Last message: CC 7  value 64");
}

#[test]
fn holding_a_key_to_talk_is_offered_once() {
    let key = |chord: &str, action: u32| KeyBinding {
        chord: chord.to_string(),
        action,
        step: Double(1),
        down: false,
        enabled: true,
    };
    let mut b = Bindings { rows: vec![key("M", 3)], capture: None };
    assert!(b.offers(9));
    b.bind(key("Space", 9));
    assert!(!b.offers(9));
    b.bind(key("F8", 9));
    assert_eq!((b.rows.len(), b.capture), (2, None));
    b.rows[0].pick(4, Double(100));
    assert_eq!((b.rows[0].action, b.rows[0].step.0), (4, 100));
}

#[test]
fn a_models_address_goes_with_it() {
    let mut r = IcomRadio { model: "IC-7610".to_string(), civ_address: 0x98 };
    r.pick("IC-705", 0xa4);
    assert_eq!((r.model.as_str(), r.civ_address), ("IC-705", 0xa4));
    r.type_address("0x94");
    assert_eq!(r.civ_address, 0x94);
    r.type_address("zz");
    assert_eq!(r.civ_address, 0x94);
}
