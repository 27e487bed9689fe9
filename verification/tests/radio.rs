use sdroxide_ui::command::{Command, Mode, Vfo};
use sdroxide_ui::overlay::SkimmerKind;
use sdroxide_ui::radio::{
    agc_threshold_shown, atu_lit, atu_tip, award_cell, band_button, digi_dial_freqs,
    digi_freq_for_band, keyer_tip, nr_label, press_atu, press_band, rec_tip, top_bar, tx_controls,
    AtuState, AwardCell, BandFacts, RadioCaps, SkimmerCfg, SkimmerEdit, SkimmerKindCfg, Switches, TopBar,
};

const M20: Option<(i64, i64)> = Some((14_000_000, 14_350_000));

fn band(edges: Option<(i64, i64)>) -> BandFacts {
    BandFacts { edges, default_hz: 14_200_000, reachable: true, current: false }
}

#[test]
fn digital_modes_have_their_frequencies() {
    assert_eq!(digi_freq_for_band(Mode::Ft8, M20), Some(14_074_000));
    assert_eq!(digi_freq_for_band(Mode::Ft4, M20), Some(14_080_000));
    assert_eq!(digi_freq_for_band(Mode::Sstv, M20), Some(14_230_000));
    assert_eq!(digi_freq_for_band(Mode::OtherDigital, M20), Some(14_074_000));
    assert_eq!(digi_freq_for_band(Mode::Rade, Some((10_100_000, 10_150_000))), None);
    assert_eq!(digi_freq_for_band(Mode::Ft8, None), None);
    assert!(digi_dial_freqs(Mode::RfPaint).is_empty());
    assert_eq!(
        digi_dial_freqs(Mode::Rade),
        [
            ("80m", 3_625_000),
            ("40m", 7_177_000),
            ("20m", 14_236_000),
            ("15m", 21_313_000),
            ("10m", 28_330_000),
        ]
    );
    assert_eq!(digi_dial_freqs(Mode::Ft8)[0], ("160m", 1_840_000));
    assert_eq!(digi_dial_freqs(Mode::Ft8)[9], ("6m", 50_313_000));
}

#[test]
fn a_band_button_keeps_a_digital_mode() {
    let b = band_button(Mode::Ft8, true, 14_074_499, &band(M20));
    assert!(b.enabled && b.lit);
    assert!(matches!(
        press_band(&b, 3, Vfo::B),
        Command::TuneHz { vfo: Vfo::B, freq: 14_074_000 }
    ));
    assert!(!band_button(Mode::Ft8, true, 14_074_500, &band(M20)).lit);
    // No frequency of the mode there: no button.
    let b = band_button(Mode::Rade, true, 0, &band(Some((10_100_000, 10_150_000))));
    assert!(!b.enabled && !b.lit);
    // RF Paint goes to the band's usual frequency.
    let b = band_button(Mode::RfPaint, true, 0, &BandFacts { current: true, ..band(M20) });
    assert!(b.enabled && b.lit);
    assert!(matches!(press_band(&b, 3, Vfo::A), Command::TuneHz { freq: 14_200_000, .. }));
    // A voice mode changes the band.
    let b = band_button(Mode::Usb, false, 0, &BandFacts { current: true, ..band(M20) });
    assert!(b.enabled && b.lit);
    assert!(matches!(press_band(&b, 3, Vfo::A), Command::SetBand(3)));
    assert!(!band_button(Mode::Usb, false, 0, &BandFacts { reachable: false, ..band(M20) }).enabled);
}

#[test]
fn the_tuner_cannot_be_interrupted() {
    assert!(atu_lit(AtuState::Success) && atu_lit(AtuState::Tuning));
    assert!(!atu_lit(AtuState::Failed) && !atu_lit(AtuState::Bypassed));
    assert!(press_atu(AtuState::Tuning).is_none());
    assert!(matches!(press_atu(AtuState::Success), Some(Command::BypassAtu)));
    assert!(matches!(press_atu(AtuState::Failed), Some(Command::StartAtu)));
    assert!(matches!(press_atu(AtuState::Bypassed), Some(Command::StartAtu)));
    assert_eq!(atu_tip(AtuState::Tuning), "Tuning — the radio is transmitting");
}

#[test]
fn switches_turn_over() {
    let s = Switches {
        split: false,
        sub_rx: true,
        rit: true,
        rit_hz: -120,
        xit: false,
        xit_hz: 5,
        muted: false,
        recording: true,
        noise_blanker: false,
        auto_notch: true,
        ptt: false,
        tune: true,
    };
    assert!(matches!(top_bar(&s, TopBar::Vfo(Vfo::B)), Command::SelectVfo(Vfo::B)));
    assert!(matches!(top_bar(&s, TopBar::Swap), Command::SwapVfos));
    assert!(matches!(top_bar(&s, TopBar::CopyAtoB), Command::CopyAtoB));
    assert!(matches!(top_bar(&s, TopBar::Split), Command::SetSplit(true)));
    assert!(matches!(top_bar(&s, TopBar::SubRx), Command::SetSubRx(false)));
    assert!(matches!(top_bar(&s, TopBar::Rit), Command::SetRit { enabled: false, hz: -120 }));
    assert!(matches!(top_bar(&s, TopBar::RitHz(7)), Command::SetRit { enabled: true, hz: 7 }));
    assert!(matches!(top_bar(&s, TopBar::Xit), Command::SetXit { enabled: true, hz: 5 }));
    assert!(matches!(top_bar(&s, TopBar::XitHz(7)), Command::SetXit { enabled: false, hz: 7 }));
    assert!(matches!(top_bar(&s, TopBar::Mute), Command::SetMute(true)));
    assert!(matches!(top_bar(&s, TopBar::Record), Command::SetRecording(false)));
    assert!(matches!(top_bar(&s, TopBar::NoiseBlanker), Command::SetNoiseBlanker(true)));
    assert!(matches!(top_bar(&s, TopBar::AutoNotch), Command::SetAutoNotch(false)));
    assert!(matches!(top_bar(&s, TopBar::Ptt), Command::SetPtt(true)));
    assert!(matches!(top_bar(&s, TopBar::Tune), Command::SetTune(false)));
}

#[test]
fn labels_and_tips() {
    assert_eq!(rec_tip(&None), "Record receiver audio to MP3");
    assert_eq!(rec_tip(&Some("a.mp3".to_string())), "Recording to a.mp3 — click to stop");
    assert_eq!(nr_label(true, "AI Low"), "NR AI Low");
    assert_eq!(nr_label(false, "Off"), "NR");
    assert!(agc_threshold_shown(true, false) && !agc_threshold_shown(true, true));
    assert_eq!(keyer_tip(Some("CQ")), "Transmitting CQ — click to open the voice keyer");
    assert_eq!(keyer_tip(None), "Voice keyer: record and transmit stored messages");
    assert_eq!(award_cell(true, true), AwardCell::Confirmed);
    assert_eq!(award_cell(true, false), AwardCell::Worked);
    assert_eq!(award_cell(false, false), AwardCell::Open);
}

#[test]
fn a_skimmer_is_changed_alone() {
    let off = SkimmerKindCfg { enabled: false, squelch_db: 6 };
    let cfg = SkimmerCfg { cw: off, psk: off, rtty: off };
    assert!(!cfg.any_enabled());
    let on = cfg.edit(SkimmerKind::Psk, SkimmerEdit::Toggle).unwrap();
    assert_eq!(on, SkimmerCfg { psk: SkimmerKindCfg { enabled: true, squelch_db: 6 }, ..cfg });
    assert!(on.any_enabled());
    assert_eq!(cfg.edit(SkimmerKind::Rtty, SkimmerEdit::Squelch(6)), None);
    let quiet = cfg.edit(SkimmerKind::Rtty, SkimmerEdit::Squelch(9)).unwrap();
    assert_eq!((quiet.rtty.squelch_db, quiet.cw.squelch_db), (9, 6));
}

#[test]
fn a_receiver_has_no_transmit_controls() {
    let caps = |transmits: bool, has_atu: bool| Some(RadioCaps { transmits, has_atu });
    let t = tx_controls(caps(true, false), true);
    assert!(t.shown && t.keyer && !t.atu);
    let t = tx_controls(caps(true, true), false);
    assert!(t.shown && !t.keyer && t.atu);
    for t in [tx_controls(caps(false, true), true), tx_controls(None, true)] {
        assert!(!t.shown && !t.keyer && !t.atu);
    }
}
