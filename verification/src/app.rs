//! The front end as a whole: what each report from the engine changes, and what
//! a frame sends.
use crate::carried::{Place, Single};
use crate::command::{Command, Mode};
use crate::decodes::{is_reply, prepend_decodes, Decode, Preview, DECODES_MAX};
use crate::digi_map::{dots, DigiStations, DigiTraffic, Hearing, STATION_FADE_US};
use crate::digi_panel::QsoStep;
use crate::frame::{
    law_logging_keeps_ids_distinct, locked_view, panel_for, push_image, put_back, queued,
    refit_view, remembered, repaint_wait, repaint_wait_ms, CfgSync, DigiRx, EditCopy, FirstState,
    Panel, SavedView, DIGI_IMAGES_MAX,
};
use crate::logbook::{
    ids_distinct, index_of_id, latest, law_confirmations_only_add_marks, lemma_confirm_keeps_length,
    lemma_index_has_id, lemma_latest_bound, max_id, CallsignInfo, Logbook, NetworkConfig,
    UploadResult,
};
use crate::overlay::{enabled_spots, keyed_map, rekeyed, Skimmer, SkimmerSpot};
use crate::qso::QsoRecord;
use crate::radio::SkimmerCfg;
use crate::settings::ServerStatus;
use crate::spectrum::ideal_config;
use crate::spots::Spot;
use crate::sstv::{SstvStatus, SstvUi};
use crate::text::{upper, upper_of};
use crate::view::{Device, ViewState, FREQ_MAX, HZ};
use crate::voice::VoiceStatus;
use vstd::prelude::*;

verus! {

/// What the engine reports of the radio.
#[derive(Clone, Copy, Debug, PartialEq, Eq, Structural)]
pub struct RadioState {
    pub mode: Mode,
    /// Whether the mode is a digital one, a keyboard one, one with time slots.
    pub digital: bool,
    pub text_modem: bool,
    pub slotted: bool,
    /// The frequency of the active register, and that of the receiver.
    pub tuned: i64,
    pub dial: i64,
    /// The span that the device receives.
    pub device: Device,
    pub skimmer: SkimmerCfg,
}

/// The operator's settings of the digital modes.
#[derive(Debug)]
pub struct DigiCfg {
    pub my_call: String,
    pub my_grid: String,
}

/// What the engine reports of the digital modes.
#[derive(Debug)]
pub struct DigiStatus {
    pub cfg: DigiCfg,
    pub step: QsoStep,
    pub audio_hz: Single,
    pub transmitting: bool,
    pub dx_call: Option<String>,
    pub dx_grid: Option<String>,
}

/// A stored frequency.
#[derive(Debug)]
pub struct Memory {
    pub id: u32,
    pub name: String,
}

/// A report from the engine.
#[derive(Debug)]
pub enum RadioEvent {
    /// The radio that is connected, by its name.
    Capabilities(String),
    State(RadioState),
    /// A frame of the spectrum.
    Spectrum,
    Memories(Vec<Memory>),
    ConnectionLost(String),
    /// A warning that stays up, or none any more.
    Notice(Option<String>),
    Ft8Decodes(Vec<Decode>),
    Ft8Status(DigiStatus),
    /// A contact that was completed.
    Ft8QsoLogged(QsoRecord),
    /// A row of a picture in the size of the detected mode.
    SstvLine { image_id: u32, y: u16, rgb: Vec<u8>, w: u16, h: u16 },
    /// A picture that was completed, as a texture if it decoded.
    SstvImage { mode: u8, tex: Option<u64> },
    DigiImage { tex: Option<u64> },
    SstvStatus(SstvStatus),
    SkimmerSpots(Vec<SkimmerSpot>),
    Spots(Vec<Spot>),
    NetStatus(Option<String>),
    TciServerStatus(ServerStatus),
    RigctldStatus(ServerStatus),
    VoiceStatus(VoiceStatus),
    CallsignResult(CallsignInfo),
    Upload(UploadResult),
    Confirmations(Vec<QsoRecord>),
}

/// What is to be done about a report beside taking it in.
#[derive(Debug)]
pub struct Outcome {
    /// The window gets this title.
    pub title: Option<String>,
    /// The log is to be saved.
    pub save_log: bool,
    /// The picture being received is to be shown anew.
    pub show_picture: bool,
}

/// What fills the window below the controls.
#[derive(Clone, Copy, Debug, PartialEq, Eq, Structural)]
pub enum Pane {
    /// The reason why the connection was lost.
    Error,
    /// The waterfall and the operating panel of a digital mode; with the boxes
    /// of the stations heard, in a mode with time slots.
    Digital { panel: Panel, boxes: bool },
    /// The panadapter.
    Voice,
}

/// The state of the front end.
pub struct SdroxideApp {
    pub caps: Option<String>,
    pub state: RadioState,
    pub has_frame: bool,
    pub last_spectrum_at: i64,
    pub memories: Vec<Memory>,
    pub error: Option<String>,
    pub notice: Option<String>,
    pub rx: DigiRx,
    pub digi_status: Option<DigiStatus>,
    pub digi_cfg: EditCopy<DigiCfg>,
    pub book: Logbook,
    pub net_cfg: NetworkConfig,
    pub sstv: SstvUi,
    pub images: Vec<u64>,
    pub skimmer: Skimmer,
    pub spots: Vec<Spot>,
    pub net_status: Option<String>,
    pub tci_server: Option<ServerStatus>,
    pub rigctld: Option<ServerStatus>,
    pub voice: VoiceStatus,
    pub view: ViewState,
    pub saved: SavedView,
    pub first: FirstState,
    pub cfg: CfgSync,
}

impl RadioState {
    /// The invariant: the frequencies can be reckoned with.
    pub open spec fn wf(&self) -> bool {
        &&& -FREQ_MAX <= self.tuned <= FREQ_MAX
        &&& -FREQ_MAX <= self.dial <= FREQ_MAX
        &&& self.device.wf()
    }
}

impl DigiCfg {
    /// A copy.
    pub fn copy(&self) -> (r: DigiCfg)
        ensures
            r == *self,
    {
        DigiCfg { my_call: self.my_call.clone(), my_grid: self.my_grid.clone() }
    }

    /// The operator typed a callsign: it is kept in upper case.
    pub fn type_call(&mut self, typed: &str)
        ensures
            final(self).my_call@ == upper_of(typed@),
            final(self).my_grid == old(self).my_grid,
    {
        self.my_call = upper(typed);
    }
}

/// Whether the device shows another span than before: by more than a hertz.
pub open spec fn span_changed(before: RadioState, now: RadioState) -> bool {
    let d = now.device.span - before.device.span;
    d > HZ || d < -HZ
}

impl SdroxideApp {
    /// The invariant of the parts.
    pub open spec fn wf(&self) -> bool {
        &&& self.state.wf()
        &&& self.rx.stations.wf()
        &&& self.sstv.wf()
        &&& self.view.wf()
        &&& self.saved.span matches Some(s) ==> -2 * FREQ_MAX <= s.0 <= 2 * FREQ_MAX && -2
            * FREQ_MAX <= s.1 <= 2 * FREQ_MAX
        &&& self.cfg.wf()
    }

    /// Whether a report is one that the engine can make: frequencies that can be
    /// reckoned with, a row that lies inside the picture that it belongs to, and
    /// a log that is not out of ids.
    pub open spec fn takes(&self, ev: RadioEvent) -> bool {
        match ev {
            RadioEvent::State(s) => s.wf(),
            RadioEvent::SstvLine { image_id, y, rgb, w, h } => self.sstv.row_painted(
                y,
                rgb@,
                w,
                h,
            ) ==> y * w + w <= self.sstv.row_base(image_id, w, h).len(),
            RadioEvent::Ft8QsoLogged(_) => max_id(self.book.log@) < u64::MAX,
            _ => true,
        }
    }

    /// The view once the engine reported its state: fitted anew if the device
    /// shows another span, then centred on the tuned frequency if it was tuned
    /// away.
    pub open spec fn view_at(&self, s: RadioState) -> ViewState {
        let v = if span_changed(self.state, s) && s.device.span > 0 && self.view.width() > 0 {
            self.view.fitted(s.device)
        } else {
            self.view
        };
        self.first.recentered(
            v,
            s.tuned as int,
            self.state.tuned as int,
            s.device.span as int,
        )
    }

    /// What a report of the radio's state changes.
    pub open spec fn at_state(&self, next: &SdroxideApp, s: RadioState) -> bool {
        &&& *next == SdroxideApp {
            state: s,
            rx: next.rx,
            view: self.view_at(s),
            first: next.first,
            ..*self
        }
        &&& next.first.seen
        &&& s.mode == self.state.mode ==> next.rx == self.rx
        &&& s.mode != self.state.mode ==> {
            &&& next.rx.decodes@.len() == 0
            &&& next.rx.preview.station is None
            &&& next.rx.stations.seen() == Map::<Seq<char>, Hearing>::empty()
            &&& next.rx.stations.hits().len() == 0
            &&& next.rx.stations.keys() == Set::<(Seq<char>, int)>::empty()
            &&& next.rx.stations.fade_us() == STATION_FADE_US
        }
    }

    /// What a report changes. `out` is what else is to be done.
    pub open spec fn handled(
        &self,
        next: &SdroxideApp,
        ev: RadioEvent,
        now: i64,
        out: Outcome,
    ) -> bool {
        &&& match ev {
            RadioEvent::Capabilities(_) => out.title is Some,
            _ => out.title is None,
        }
        &&& match ev {
            RadioEvent::SstvLine { .. } => true,
            _ => !out.show_picture,
        }
        &&& match ev {
            RadioEvent::Ft8QsoLogged(_) => out.save_log,
            RadioEvent::CallsignResult(_) | RadioEvent::Upload(_) | RadioEvent::Confirmations(_) => true,
            _ => !out.save_log,
        }
        &&& match ev {
            RadioEvent::Capabilities(label) => {
                &&& *next == SdroxideApp { caps: Some(label), ..*self }
                &&& out.title->0@ == "sdroxide — "@ + label@
            },
            RadioEvent::State(s) => self.at_state(next, s),
            RadioEvent::Spectrum => *next == SdroxideApp {
                has_frame: true,
                last_spectrum_at: now,
                ..*self
            },
            RadioEvent::Memories(m) => *next == SdroxideApp { memories: m, ..*self },
            RadioEvent::ConnectionLost(e) => *next == SdroxideApp { error: Some(e), ..*self },
            RadioEvent::Notice(n) => *next == SdroxideApp { notice: n, ..*self },
            RadioEvent::Ft8Decodes(d) => {
                let all = d@ + self.rx.decodes@;
                &&& *next == SdroxideApp {
                    rx: DigiRx { decodes: next.rx.decodes, ..self.rx },
                    ..*self
                }
                &&& next.rx.decodes@ == all.take(
                    if all.len() < DECODES_MAX {
                        all.len() as int
                    } else {
                        DECODES_MAX as int
                    },
                )
            },
            RadioEvent::Ft8Status(s) => *next == SdroxideApp {
                digi_cfg: EditCopy {
                    edit: if self.digi_cfg.seeded {
                        self.digi_cfg.edit
                    } else {
                        s.cfg
                    },
                    seeded: true,
                },
                digi_status: Some(s),
                ..*self
            },
            RadioEvent::Ft8QsoLogged(r) => {
                &&& *next == SdroxideApp { book: next.book, ..*self }
                &&& self.book.logged_contact(&next.book, self.net_cfg, r)
            },
            RadioEvent::SstvLine { image_id, y, rgb, w, h } => {
                &&& *next == SdroxideApp { sstv: next.sstv, ..*self }
                &&& out.show_picture == self.sstv.status.detected is Some
                &&& self.sstv.lined(&next.sstv, image_id, y, rgb@, w, h)
            },
            RadioEvent::SstvImage { mode, tex } => {
                &&& *next == SdroxideApp { sstv: next.sstv, ..*self }
                &&& self.sstv.finished(&next.sstv, mode, tex)
            },
            RadioEvent::DigiImage { tex } => {
                &&& *next == SdroxideApp { images: next.images, ..*self }
                &&& match tex {
                    Some(t) => {
                        let all = seq![t] + self.images@;
                        next.images@ == all.take(
                            if all.len() < DIGI_IMAGES_MAX {
                                all.len() as int
                            } else {
                                DIGI_IMAGES_MAX as int
                            },
                        )
                    },
                    None => next.images == self.images,
                }
            },
            RadioEvent::SstvStatus(s) => *next == SdroxideApp {
                sstv: self.sstv.with_status(s),
                ..*self
            },
            RadioEvent::SkimmerSpots(s) => {
                &&& *next == SdroxideApp { skimmer: next.skimmer, ..*self }
                &&& next.skimmer.spots@ == s@
                &&& keyed_map(next.skimmer.keyed@) == rekeyed(
                    s@,
                    keyed_map(self.skimmer.keyed@),
                    now,
                    s@.len() as int,
                )
            },
            RadioEvent::Spots(s) => *next == SdroxideApp { spots: s, ..*self },
            RadioEvent::NetStatus(s) => *next == SdroxideApp { net_status: s, ..*self },
            RadioEvent::TciServerStatus(s) => *next == SdroxideApp {
                tci_server: Some(s),
                ..*self
            },
            RadioEvent::RigctldStatus(s) => *next == SdroxideApp { rigctld: Some(s), ..*self },
            RadioEvent::VoiceStatus(v) => *next == SdroxideApp { voice: v, ..*self },
            RadioEvent::CallsignResult(info) => {
                &&& *next == SdroxideApp { book: next.book, ..*self }
                &&& self.book.looked_up(&next.book, info, out.save_log)
            },
            RadioEvent::Upload(r) => {
                &&& *next == SdroxideApp { book: next.book, ..*self }
                &&& self.book.uploaded(&next.book, r, out.save_log)
            },
            RadioEvent::Confirmations(recs) => {
                &&& *next == SdroxideApp { book: next.book, ..*self }
                &&& self.book.confirmed_from(&next.book, recs@, out.save_log)
            },
        }
    }

    /// The front end at its start, with the view and the log that were stored and
    /// the network settings, which are known from the start so that lookups and
    /// uploads are honoured from launch. `state` stands in until the engine
    /// reports the radio's.
    pub fn new(
        state: RadioState,
        view: ViewState,
        log: Vec<QsoRecord>,
        net_cfg: NetworkConfig,
        cfg: DigiCfg,
    ) -> (r: SdroxideApp)
        requires
            state.wf(),
            view.wf(),
        ensures
            r.wf(),
            r.state == state,
            r.view == view,
            r.book.log == log,
            r.net_cfg == net_cfg,
            r.digi_cfg == (EditCopy { edit: cfg, seeded: false }),
            r.caps is None && r.error is None && r.notice is None && r.net_status is None,
            r.digi_status is None && r.tci_server is None && r.rigctld is None,
            !r.has_frame && r.last_spectrum_at == 0,
            r.memories@.len() == 0 && r.images@.len() == 0 && r.spots@.len() == 0,
            r.rx.decodes@.len() == 0 && r.rx.preview.station is None,
            r.rx.stations.seen() == Map::<Seq<char>, Hearing>::empty(),
            r.rx.stations.hits().len() == 0,
            r.rx.stations.keys() == Set::<(Seq<char>, int)>::empty(),
            r.rx.stations.fade_us() == STATION_FADE_US,
            r.sstv.at_start(),
            r.skimmer.spots@.len() == 0 && r.skimmer.keyed@.len() == 0,
            !r.book.show && r.book.edit is None && r.book.net_log@.len() == 0,
            r.book.pending_lookups@.len() == 0 && r.book.pending_uploads@.len() == 0,
            r.voice == (VoiceStatus { recording: None, playing: None, previewing: None }),
            r.saved.span is None && !r.first.seen,
            r.cfg == (CfgSync { sent: None, desired: None, desired_at: 0 }),
    {
        SdroxideApp {
            caps: None,
            state,
            has_frame: false,
            last_spectrum_at: 0,
            memories: Vec::new(),
            error: None,
            notice: None,
            rx: DigiRx {
                decodes: Vec::new(),
                stations: DigiStations::default(),
                preview: Preview { station: None },
            },
            digi_status: None,
            digi_cfg: EditCopy { edit: cfg, seeded: false },
            book: Logbook {
                log,
                show: false,
                edit: None,
                net_log: Vec::new(),
                pending_lookups: Vec::new(),
                pending_uploads: Vec::new(),
            },
            net_cfg,
            sstv: SstvUi::default(),
            images: Vec::new(),
            skimmer: Skimmer { spots: Vec::new(), keyed: Vec::new() },
            spots: Vec::new(),
            net_status: None,
            tci_server: None,
            rigctld: None,
            voice: VoiceStatus { recording: None, playing: None, previewing: None },
            view,
            saved: SavedView { span: None },
            first: FirstState { seen: false },
            cfg: CfgSync { sent: None, desired: None, desired_at: 0 },
        }
    }

    fn on_state(&mut self, s: RadioState)
        requires
            old(self).wf(),
            s.wf(),
        ensures
            final(self).wf(),
            old(self).at_state(final(self), s),
    {
        let was = self.state;
        self.state = s;
        self.rx.on_mode(was.mode, s.mode);
        let d: i64 = s.device.span - was.device.span;
        if refit_view(d > HZ || d < -HZ, s.device.span > 0, self.view.is_unset()) {
            self.view.fit(&s.device);
        }
        self.first.recenter_if_tuned_away(&mut self.view, s.tuned, was.tuned, s.device.span);
    }

    /// Take in a report from the engine, at frame time `now`. Returns what else
    /// is to be done.
    pub fn on_event(&mut self, ev: RadioEvent, now: i64) -> (out: Outcome)
        requires
            old(self).wf(),
            old(self).takes(ev),
        ensures
            final(self).wf(),
            old(self).handled(final(self), ev, now, out),
    {
        let mut out = Outcome { title: None, save_log: false, show_picture: false };
        match ev {
            RadioEvent::Capabilities(label) => {
                let mut t = String::from_str("sdroxide — ");
                t.append(label.as_str());
                out.title = Some(t);
                self.caps = Some(label);
            },
            RadioEvent::State(s) => {
                self.on_state(s);
            },
            RadioEvent::Spectrum => {
                self.has_frame = true;
                self.last_spectrum_at = now;
            },
            RadioEvent::Memories(m) => {
                self.memories = m;
            },
            RadioEvent::ConnectionLost(e) => {
                self.error = Some(e);
            },
            RadioEvent::Notice(n) => {
                self.notice = n;
            },
            RadioEvent::Ft8Decodes(d) => {
                prepend_decodes(&mut self.rx.decodes, d);
            },
            RadioEvent::Ft8Status(s) => {
                self.digi_cfg.seed(s.cfg.copy());
                self.digi_status = Some(s);
            },
            RadioEvent::Ft8QsoLogged(r) => {
                self.book.log_contact(&self.net_cfg, r);
                out.save_log = true;
            },
            RadioEvent::SstvLine { image_id, y, rgb, w, h } => {
                out.show_picture = self.sstv.on_line(image_id, y, rgb.as_slice(), w, h);
            },
            RadioEvent::SstvImage { mode, tex } => {
                self.sstv.on_image(mode, tex);
            },
            RadioEvent::DigiImage { tex } => {
                if let Some(t) = tex {
                    push_image(&mut self.images, t);
                }
            },
            RadioEvent::SstvStatus(s) => {
                self.sstv.on_status(s);
            },
            RadioEvent::SkimmerSpots(s) => {
                self.skimmer.on_spots(s, now);
            },
            RadioEvent::Spots(s) => {
                self.spots = s;
            },
            RadioEvent::NetStatus(s) => {
                self.net_status = s;
            },
            RadioEvent::TciServerStatus(s) => {
                self.tci_server = Some(s);
            },
            RadioEvent::RigctldStatus(s) => {
                self.rigctld = Some(s);
            },
            RadioEvent::VoiceStatus(v) => {
                self.voice = v;
            },
            RadioEvent::CallsignResult(info) => {
                out.save_log = self.book.apply_callsign(info);
            },
            RadioEvent::Upload(r) => {
                out.save_log = self.book.on_upload_result(r);
            },
            RadioEvent::Confirmations(recs) => {
                out.save_log = self.book.apply_confirmations(&recs);
            },
        }
        out
    }

    /// What fills the window.
    pub open spec fn pane_spec(&self) -> Pane {
        if self.error is Some {
            Pane::Error
        } else if self.state.digital {
            Pane::Digital {
                panel: match self.state.mode {
                    Mode::Rade => Panel::Rade,
                    Mode::Sstv => Panel::Sstv,
                    Mode::RfPaint => Panel::RfPaint,
                    Mode::Fsq => Panel::Fsq,
                    _ => if self.state.text_modem {
                        Panel::Text
                    } else {
                        Panel::Digi
                    },
                },
                boxes: self.state.slotted,
            }
        } else {
            Pane::Voice
        }
    }

    /// The operator's call, as the engine has it.
    pub open spec fn engine_call(&self) -> Seq<char> {
        match self.digi_status {
            Some(s) => s.cfg.my_call@,
            None => Seq::<char>::empty(),
        }
    }

    /// The REPLY button of a decode: start a contact with its sender, and look the
    /// call up where that is wanted. The station gets its own marker then, so the
    /// preview is dropped.
    pub fn reply(&mut self, row: usize) -> (r: Option<Command>)
        requires
            old(self).wf(),
            row < old(self).rx.decodes@.len(),
        ensures
            final(self).wf(),
            ({
                let d = old(self).rx.decodes@[row as int];
                &&& r is Some <==> d.from is Some
                &&& r matches Some(c) ==> is_reply(c, d, old(self).engine_call())
                &&& final(self).rx.preview.station is None
                &&& *final(self) == SdroxideApp {
                    rx: DigiRx { preview: final(self).rx.preview, ..old(self).rx },
                    book: final(self).book,
                    ..*old(self)
                }
                &&& match d.from {
                    Some(call) => old(self).book.looks_up(
                        &final(self).book,
                        old(self).net_cfg,
                        call@,
                    ),
                    None => final(self).book == old(self).book,
                }
            }),
    {
        let call = match &self.digi_status {
            Some(s) => s.cfg.my_call.clone(),
            None => String::new(),
        };
        assert(call@ =~= self.engine_call());
        let d = &self.rx.decodes[row];
        let r = self.rx.preview.reply(d, call.as_str());
        if let Some(from) = &self.rx.decodes[row].from {
            self.book.queue_lookup(&self.net_cfg, from.as_str());
        }
        r
    }

    /// The activity to show on the globe: the stations that the map shows, the
    /// one being worked, which is at `dx`, and the marked one. Outside the digital
    /// modes it fades away.
    pub fn digi_traffic(&self, now_t: i64, dx: Option<Place>) -> (r: DigiTraffic)
        requires
            self.wf(),
        ensures
            r.stations@ == dots(
                self.rx.stations.grids(),
                self.rx.stations.seen(),
                now_t as int,
                self.rx.stations.fade_us(),
            ),
            r.history@ == self.rx.stations.hits(),
            r.dx == match self.digi_status {
                Some(s) => if s.dx_grid is Some {
                    dx
                } else {
                    None
                },
                None => None,
            },
            r.dx_label is None,
            r.preview == match self.rx.preview.station {
                Some(p) => Some(p.1),
                None => None,
            },
            r.transmitting == (self.digi_status matches Some(s) && s.transmitting),
    {
        let preview = match &self.rx.preview.station {
            Some(p) => Some(p.1),
            None => None,
        };
        match &self.digi_status {
            Some(s) => {
                let worked = if s.dx_grid.is_some() {
                    dx
                } else {
                    None
                };
                self.rx.stations.traffic(now_t, worked, preview, s.transmitting)
            },
            None => self.rx.stations.traffic(now_t, None, preview, false),
        }
    }

    /// Start a frame: drop the signals of skimmers that are off, and set the view
    /// for the mode. A digital mode locks it to its part of the band; leaving the
    /// digital modes puts the view from before back. Returns what fills the
    /// window.
    pub fn begin_frame(&mut self) -> (r: Pane)
        requires
            old(self).wf(),
        ensures
            final(self).wf(),
            r == old(self).pane_spec(),
            ({
                let s = old(self).state;
                &&& *final(self) == SdroxideApp {
                    skimmer: final(self).skimmer,
                    saved: final(self).saved,
                    view: match r {
                        Pane::Error => old(self).view,
                        Pane::Digital { .. } => locked_view(
                            old(self).view,
                            s.dial as int,
                            s.mode == Mode::RfPaint,
                        ),
                        Pane::Voice => put_back(old(self).saved.span, old(self).view),
                    },
                    ..*old(self)
                }
                &&& final(self).saved.span == match r {
                    Pane::Error => old(self).saved.span,
                    Pane::Digital { .. } => remembered(old(self).saved.span, old(self).view),
                    Pane::Voice => None,
                }
                &&& final(self).skimmer.spots@ == enabled_spots(
                    old(self).skimmer.spots@,
                    s.skimmer.cw.enabled,
                    s.skimmer.psk.enabled,
                    s.skimmer.rtty.enabled,
                )
                &&& final(self).skimmer.keyed == old(self).skimmer.keyed
            }),
    {
        let s = self.state;
        self.skimmer.drop_disabled(
            s.skimmer.cw.enabled,
            s.skimmer.psk.enabled,
            s.skimmer.rtty.enabled,
        );
        if self.error.is_some() {
            return Pane::Error;
        }
        if s.digital {
            self.saved.digital(&mut self.view, s.dial, s.mode == Mode::RfPaint);
            Pane::Digital { panel: panel_for(s.mode, s.text_modem), boxes: s.slotted }
        } else {
            self.saved.voice(&mut self.view);
            Pane::Voice
        }
    }

    /// End a frame: send the spectrum settings if it is time to, and what was
    /// queued meanwhile. Returns the requests, and how long to wait until the next
    /// frame, in milliseconds.
    pub fn end_frame(
        &mut self,
        fps: u32,
        default_fps: u8,
        data_waiting: bool,
        now: i64,
    ) -> (r: (Vec<Command>, u64))
        requires
            old(self).wf(),
        ensures
            final(self).wf(),
            ({
                let ideal = ideal_config(old(self).state.device, old(self).view, fps);
                let send = old(self).cfg.sends(
                    ideal,
                    old(self).state.device,
                    old(self).view,
                    now as int,
                );
                &&& r.0@ == (if send {
                    seq![Command::SetSpectrumCfg(ideal)]
                } else {
                    seq![]
                }) + queued(old(self).book.pending_lookups@, old(self).book.pending_uploads@)
                &&& final(self).cfg == old(self).cfg.stepped(
                    ideal,
                    old(self).state.device,
                    old(self).view,
                    now,
                )
                &&& r.1 == repaint_wait(
                    data_waiting,
                    match (final(self).cfg.sent, final(self).cfg.desired) {
                        (Some(c), _) => c.fps,
                        (None, Some(c)) => c.fps,
                        (None, None) => default_fps,
                    },
                    old(self).has_frame,
                    old(self).error is Some,
                    now - old(self).last_spectrum_at,
                )
            }),
            *final(self) == (SdroxideApp {
                cfg: final(self).cfg,
                book: final(self).book,
                ..*old(self)
            }),
            final(self).book.pending_lookups@.len() == 0,
            final(self).book.pending_uploads@.len() == 0,
            final(self).book.log == old(self).book.log,
            final(self).book.edit == old(self).book.edit,
            final(self).book.net_log == old(self).book.net_log,
            final(self).book.show == old(self).book.show,
    {
        let mut cmds: Vec<Command> = Vec::new();
        if let Some(c) = self.cfg.frame(&self.state.device, &self.view, fps, now) {
            cmds.push(Command::SetSpectrumCfg(c));
        }
        let ghost first = cmds@;
        let mut waiting = self.book.flush();
        let ghost rest = waiting@;
        cmds.append(&mut waiting);
        assert(cmds@ =~= first + rest);
        let fps: u8 = self.cfg.fps(default_fps);
        let wait: u64 = repaint_wait_ms(
            data_waiting,
            fps,
            self.has_frame,
            self.error.is_some(),
            self.last_spectrum_at,
            now,
        );
        (cmds, wait)
    }
}

/// Whatever the engine reports, no two contacts in the log have the same id.
pub proof fn law_reports_keep_ids_distinct(
    before: SdroxideApp,
    after: SdroxideApp,
    ev: RadioEvent,
    now: i64,
    out: Outcome,
)
    requires
        ids_distinct(before.book.log@),
        before.takes(ev),
        before.handled(&after, ev, now, out),
    ensures
        ids_distinct(after.book.log@),
{
    let log = before.book.log@;
    let next = after.book.log@;
    match ev {
        RadioEvent::Ft8QsoLogged(r) => {
            law_logging_keeps_ids_distinct(before.book, after.book, before.net_cfg, r);
        },
        RadioEvent::CallsignResult(info) => {
            let k = latest(log, info.call@);
            lemma_latest_bound(log, info.call@);
            if next != log {
                lemma_ids_kept(log, next, k);
            }
        },
        RadioEvent::Upload(r) => {
            if next != log {
                lemma_index_has_id(log, r.qso_id);
                lemma_ids_kept(log, next, index_of_id(log, r.qso_id));
            }
        },
        RadioEvent::Confirmations(recs) => {
            lemma_confirm_keeps_length(log, recs@);
            assert forall|i: int, j: int| 0 <= i < j < next.len() implies (#[trigger] next[i]).id
                != (#[trigger] next[j]).id by {
                law_confirmations_only_add_marks(log, recs@, i);
                law_confirmations_only_add_marks(log, recs@, j);
            }
        },
        _ => {},
    }
}

proof fn lemma_ids_kept(log: Seq<QsoRecord>, next: Seq<QsoRecord>, k: int)
    requires
        ids_distinct(log),
        0 <= k < log.len(),
        next == log.update(k, next[k]),
        next[k].id == log[k].id,
    ensures
        ids_distinct(next),
{
    assert forall|i: int, j: int| 0 <= i < j < next.len() implies (#[trigger] next[i]).id
        != (#[trigger] next[j]).id by {
        assert(log[i].id != log[j].id);
    }
}

/// A device that comes to receive a span more than a hertz wider or narrower is shown
/// whole, and otherwise a view that shows the tuned frequency stays where it is.
pub proof fn law_another_span_is_shown_whole(app: SdroxideApp, s: RadioState)
    requires
        app.wf(),
        s.wf(),
        app.view.view_hi > app.view.view_lo,
    ensures
        ({
            let d = s.device;
            let other = d.span > app.state.device.span + 1000 || d.span < app.state.device.span
                - 1000;
            let v = app.view_at(s);
            &&& other && d.span > 0 && 2 * d.center - d.span <= 2 * s.tuned <= 2 * d.center + d.span
                ==> v.view_hi - v.view_lo == d.span && 0 <= v.view_lo + v.view_hi - 2 * d.center <= 1
            &&& !other && app.view.view_lo <= s.tuned <= app.view.view_hi ==> v == app.view
        }),
{
}

/// A change of mode throws away what the mode before received, and a report in the
/// same mode leaves it.
pub proof fn law_another_mode_starts_empty(
    before: SdroxideApp,
    after: SdroxideApp,
    s: RadioState,
    now: i64,
    out: Outcome,
)
    requires
        before.handled(&after, RadioEvent::State(s), now, out),
    ensures
        after.state == s,
        s.mode != before.state.mode ==> after.rx.decodes@.len() == 0 && after.rx.preview.station
            is None && after.rx.stations.hits().len() == 0 && after.rx.stations.fade_us()
            == 120_000_000 && after.rx.stations.seen() == Map::<Seq<char>, Hearing>::empty()
            && after.rx.stations.keys() == Set::<(Seq<char>, int)>::empty(),
        s.mode == before.state.mode ==> after.rx == before.rx,
        after.book == before.book && after.sstv == before.sstv && after.cfg == before.cfg,
        !out.save_log,
{
}

/// What is decoded stands in front of what was, in its order, and 200 decodes are
/// kept.
pub proof fn law_newest_reports_lead(
    before: SdroxideApp,
    after: SdroxideApp,
    d: Vec<Decode>,
    now: i64,
    out: Outcome,
    i: int,
)
    requires
        before.handled(&after, RadioEvent::Ft8Decodes(d), now, out),
        0 <= i < after.rx.decodes@.len(),
    ensures
        d@.len() + before.rx.decodes@.len() <= 200 ==> after.rx.decodes@.len() == d@.len()
            + before.rx.decodes@.len(),
        d@.len() + before.rx.decodes@.len() > 200 ==> after.rx.decodes@.len() == 200,
        i < d@.len() ==> after.rx.decodes@[i] == d@[i],
        i >= d@.len() ==> after.rx.decodes@[i] == before.rx.decodes@[i - d@.len()],
        after.rx.stations == before.rx.stations,
{
}

/// A picture received with text goes in front of the others, of which thirty are
/// kept; one that did not decode changes nothing.
pub proof fn law_thirty_pictures_are_kept(
    before: SdroxideApp,
    after: SdroxideApp,
    tex: Option<u64>,
    now: i64,
    out: Outcome,
)
    requires
        before.handled(&after, RadioEvent::DigiImage { tex }, now, out),
    ensures
        tex is None ==> after.images == before.images,
        tex matches Some(t) ==> after.images@[0] == t && after.images@.len() == (if before.images@.len()
            < 30 {
            before.images@.len() + 1
        } else {
            30
        }) && forall|i: int|
            0 < i < after.images@.len() ==> #[trigger] after.images@[i] == before.images@[i - 1],
{
}

/// A lost connection is what fills the window; else a digital mode has its own panel,
/// the boxes of the stations only where it has time slots, and any other mode the
/// panadapter.
pub proof fn law_window_shows_the_mode(app: SdroxideApp)
    ensures
        app.error is Some <==> app.pane_spec() == Pane::Error,
        app.error is None && !app.state.digital <==> app.pane_spec() == Pane::Voice,
        app.pane_spec() matches Pane::Digital { panel, boxes } ==> {
            &&& boxes == app.state.slotted
            &&& panel == Panel::Rade <==> app.state.mode == Mode::Rade
            &&& panel == Panel::Sstv <==> app.state.mode == Mode::Sstv
            &&& panel == Panel::RfPaint <==> app.state.mode == Mode::RfPaint
            &&& panel == Panel::Fsq <==> app.state.mode == Mode::Fsq
            &&& panel == Panel::Digi ==> !app.state.text_modem
            &&& panel == Panel::Text ==> app.state.text_modem
        },
{
}

} // verus!
