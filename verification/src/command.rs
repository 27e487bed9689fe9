//! What the panels ask of the radio.
use crate::carried::Single;
use crate::digi_panel::QsoStep;
use crate::logbook::UploadTarget;
use crate::spectrum::SpectrumConfig;
use vstd::prelude::*;

verus! {

/// One of the two tuning registers.
#[derive(Clone, Copy, Debug, PartialEq, Eq, Structural)]
pub enum Vfo {
    A,
    B,
}

/// A receive mode.
#[derive(Clone, Copy, Debug, PartialEq, Eq, Structural)]
pub enum Mode {
    Lsb,
    Usb,
    Cw,
    Am,
    Sam,
    Nfm,
    Wfm,
    Digu,
    Digl,
    Dsb,
    Spec,
    Ft8,
    Ft4,
    Psk,
    Rtty,
    Olivia,
    Thor,
    Fsq,
    Sstv,
    RfPaint,
    Rade,
    /// A digital mode whose panel decides nothing by its name.
    OtherDigital,
}

/// A request to the radio.
#[derive(Debug)]
pub enum Command {
    SelectVfo(Vfo),
    SwapVfos,
    CopyAtoB,
    /// Tune a register to a whole number of hertz.
    TuneHz { vfo: Vfo, freq: i64 },
    /// Tune a register, to thousandths of a hertz.
    Tune { vfo: Vfo, freq: i64 },
    /// Change to the band with this place in the list of bands.
    SetBand(u8),
    SetMode(Mode),
    SetSplit(bool),
    SetSubRx(bool),
    SetRit { enabled: bool, hz: i32 },
    SetXit { enabled: bool, hz: i32 },
    SetMute(bool),
    SetRecording(bool),
    SetNoiseBlanker(bool),
    SetAutoNotch(bool),
    SetPtt(bool),
    SetTune(bool),
    StartAtu,
    BypassAtu,
    DigiStartQso {
        from: String,
        grid: Option<String>,
        snr: i16,
        audio_hz: Single,
        wait_for_cq: bool,
    },
    SetDigiAudioFreq(Single),
    DigiCallCq,
    DigiStopQso,
    DigiAbortTx,
    DigiSetStep(QsoStep),
    /// Send a free text in the next transmit slot.
    DigiSendText(String),
    /// A picture to be sent, as the bytes of its file.
    DigiImageTx(Vec<u8>),
    /// Replace the text that is being sent.
    DigiTxText(String),
    /// Start or stop sending text.
    DigiTxActive(bool),
    VoicePlay(Option<u8>),
    VoicePreview(Option<u8>),
    VoiceRecord(Option<u8>),
    VoiceClear(u8),
    VoiceRename { slot: u8, name: String },
    RecallMemory(u32),
    StoreMemory(String),
    DeleteMemory(u32),
    /// Compute the spectrum with these settings.
    SetSpectrumCfg(SpectrumConfig),
    LookupCallsign(String),
    UploadQso { id: u64, targets: Vec<UploadTarget> },
}

} // verus!
