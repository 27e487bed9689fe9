//! One frame of the front end: what each report from the engine changes, which
//! panel is shown, what is sent, and when to draw again.
use crate::command::{Command, Mode};
use crate::decodes::{Decode, Preview};
use crate::digi_map::{
    dots, history_after, keys_after, observed, DigiStations, Heard, Hearing, Lit, FUTURE_S,
    HISTORY_S, STATION_FADE_US,
};
use crate::logbook::{
    auto_upload_adif, ids_distinct, law_next_id_is_free, Logbook, LookupProvider, max_id,
    NetworkConfig, UploadTarget, wants_lookup,
};
use crate::qso::{copy_text, QsoRecord};
use crate::text::{same, trimmed};
use crate::spectrum::{
    cfg_still_good, desired_spectrum_cfg, ideal_config, law_ideal_settings_serve,
    law_viewport_inside, SpectrumConfig, still_good,
};
use crate::view::{Device, FREQ_MAX, HZ, ViewState};
use vstd::prelude::*;

verus! {

/// Repaint cadence in milliseconds when no spectrum stream is flowing.
pub const IDLE_POLL_MS: u64 = 250;

/// The stream counts as stalled after this many microseconds without a frame.
pub const STREAM_STALE_US: i64 = 1_000_000;

/// Spectrum settings are sent once the view has been stable for this many
/// microseconds.
pub const CFG_DEBOUNCE_US: i64 = 250_000;

/// The least frame rate that is reckoned with.
pub const MIN_FPS: u8 = 1;

/// Half a hertz: what the tuned frequency has to move by to count as changed.
pub const HALF_HZ: i64 = 500;

/// Pictures kept of those received with text.
pub const DIGI_IMAGES_MAX: usize = 30;

/// The operating panel of a digital mode.
#[derive(Clone, Copy, Debug, PartialEq, Eq, Structural)]
pub enum Panel {
    Rade,
    Sstv,
    RfPaint,
    Fsq,
    Text,
    Digi,
}

/// The operating panel of a digital mode.
pub fn panel_for(mode: Mode, text_modem: bool) -> (r: Panel)
    ensures
        r == match mode {
            Mode::Rade => Panel::Rade,
            Mode::Sstv => Panel::Sstv,
            Mode::RfPaint => Panel::RfPaint,
            Mode::Fsq => Panel::Fsq,
            _ => if text_modem {
                Panel::Text
            } else {
                Panel::Digi
            },
        },
{
    match mode {
        Mode::Rade => Panel::Rade,
        Mode::Sstv => Panel::Sstv,
        Mode::RfPaint => Panel::RfPaint,
        Mode::Fsq => Panel::Fsq,
        _ => if text_modem {
            Panel::Text
        } else {
            Panel::Digi
        },
    }
}

/// The tone settings of the digital modes, in thousandths of a hertz.
#[derive(Clone, Copy, Debug, PartialEq, Eq, Structural)]
pub struct ToneCfg {
    pub rtty_shift: i64,
    pub olivia_bw: i64,
    pub thor_baud: i64,
    pub fsq_baud: i64,
}

/// The tone settings before the engine has reported any.
pub open spec fn usual_tones() -> ToneCfg {
    ToneCfg { rtty_shift: 170_000, olivia_bw: 1_000_000, thor_baud: 15_625, fsq_baud: 4_500 }
}

/// Where a digital mode sends before the engine has reported it.
pub const AUDIO_DEFAULT: i64 = 1_500_000;

/// The width of a mode's bank of tones: mark and space of RTTY are the shift
/// apart, and the others fill their bandwidth.
pub open spec fn bank_width(mode: Mode, t: ToneCfg) -> Option<int> {
    match mode {
        Mode::Rtty => Some(t.rtty_shift as int),
        Mode::Olivia => Some(t.olivia_bw as int),
        Mode::Thor => Some(18 * t.thor_baud),
        Mode::Fsq => Some(33 * t.fsq_baud),
        _ => None,
    }
}

/// The two edges of a bank of tones of a width around an audio frequency, doubled
/// so that an odd width has whole edges.
pub open spec fn bank_edges(audio: int, width: int) -> (int, int) {
    (2 * audio - width, 2 * audio + width)
}

/// The tuning lines that a digital mode draws on the waterfall, doubled: the
/// edges of its bank of tones around where it sends, or of the band that it
/// fills.
pub open spec fn marked(mode: Mode, audio: int, t: ToneCfg) -> Option<(int, int)> {
    match bank_width(mode, t) {
        Some(w) => Some(bank_edges(audio, w)),
        None => match mode {
            Mode::RfPaint => Some((2 * 300 * HZ, 2 * 3300 * HZ)),
            Mode::Rade => Some((2 * 1062 * HZ, 2 * 1876 * HZ)),
            _ => None,
        },
    }
}

/// The tuning lines of a mode, doubled, from what the engine reported of where it
/// sends and of its tones.
pub fn markers_for(mode: Mode, reported: Option<(i64, ToneCfg)>) -> (r: Option<(i128, i128)>)
    ensures
        ({
            let (audio, tones) = match reported {
                Some(s) => (s.0 as int, s.1),
                None => (AUDIO_DEFAULT as int, usual_tones()),
            };
            match (r, marked(mode, audio, tones)) {
                (Some(a), Some(b)) => a.0 == b.0 && a.1 == b.1,
                (None, None) => true,
                _ => false,
            }
        }),
{
    let (audio, t) = match reported {
        Some(s) => (s.0, s.1),
        None => (
            AUDIO_DEFAULT,
            ToneCfg { rtty_shift: 170_000, olivia_bw: 1_000_000, thor_baud: 15_625, fsq_baud: 4_500 },
        ),
    };
    let width: i128 = match mode {
        Mode::Rtty => t.rtty_shift as i128,
        Mode::Olivia => t.olivia_bw as i128,
        Mode::Thor => 18 * (t.thor_baud as i128),
        Mode::Fsq => 33 * (t.fsq_baud as i128),
        Mode::RfPaint => return Some((2 * 300 * HZ as i128, 2 * 3300 * HZ as i128)),
        Mode::Rade => return Some((2 * 1062 * HZ as i128, 2 * 1876 * HZ as i128)),
        _ => return None,
    };
    Some((2 * (audio as i128) - width, 2 * (audio as i128) + width))
}

/// The visible span that is put back on leaving the digital modes.
#[derive(Clone, Copy, Debug)]
pub struct SavedView {
    pub span: Option<(i64, i64)>,
}

/// The view of a digital mode on a dial frequency.
pub open spec fn locked_view(v: ViewState, dial: int, rf_paint: bool) -> ViewState {
    if rf_paint {
        ViewState { view_lo: (dial + 150 * HZ) as i64, view_hi: (dial + 3450 * HZ) as i64, ..v }
    } else {
        ViewState { view_lo: (dial - 200 * HZ) as i64, view_hi: (dial + 3500 * HZ) as i64, ..v }
    }
}

/// The span that is remembered on a frame in a digital mode: the first one.
pub open spec fn remembered(span: Option<(i64, i64)>, v: ViewState) -> Option<(i64, i64)> {
    match span {
        Some(s) => Some(s),
        None => Some((v.view_lo, v.view_hi)),
    }
}

/// The view with the span that was remembered.
pub open spec fn put_back(span: Option<(i64, i64)>, v: ViewState) -> ViewState {
    match span {
        Some(s) => ViewState { view_lo: s.0, view_hi: s.1, ..v },
        None => v,
    }
}

impl SavedView {
    /// A frame in a digital mode: the span before it is remembered once, and the
    /// view locked to the part of the band that the mode uses: the audio passband
    /// with a margin, or, for RF Paint, the painting band.
    pub fn digital(&mut self, v: &mut ViewState, dial: i64, rf_paint: bool)
        requires
            old(v).wf(),
            -FREQ_MAX <= dial <= FREQ_MAX,
        ensures
            final(self).span == remembered(old(self).span, *old(v)),
            *final(v) == locked_view(*old(v), dial as int, rf_paint),
            final(v).wf(),
    {
        if self.span.is_none() {
            self.span = Some((v.view_lo, v.view_hi));
        }
        if rf_paint {
            v.view_lo = dial + 150 * HZ;
            v.view_hi = dial + 3450 * HZ;
        } else {
            v.view_lo = dial - 200 * HZ;
            v.view_hi = dial + 3500 * HZ;
        }
    }

    /// A frame in another mode: the span is put back, once.
    pub fn voice(&mut self, v: &mut ViewState)
        ensures
            final(self).span is None,
            *final(v) == put_back(old(self).span, *old(v)),
    {
        if let Some(s) = self.span {
            v.view_lo = s.0;
            v.view_hi = s.1;
        }
        self.span = None;
    }
}

/// Leaving a digital mode brings back the view from before it, wherever the view
/// was meanwhile: each further frame remembers nothing new.
pub proof fn law_view_comes_back(
    v: ViewState,
    span: Option<(i64, i64)>,
    meanwhile: ViewState,
    last: ViewState,
)
    requires
        span == remembered(None, v),
    ensures
        remembered(span, meanwhile) == span,
        put_back(span, last).view_lo == v.view_lo,
        put_back(span, last).view_hi == v.view_hi,
{
}

/// What was received in the current mode, which a change of mode throws away.
pub struct DigiRx {
    pub decodes: Vec<Decode>,
    pub stations: DigiStations,
    pub preview: Preview,
}

/// What the map takes of the decodes.
pub open spec fn all_heard_of(ds: Seq<Decode>) -> Seq<Heard> {
    ds.map_values(
        |d: Decode| Heard { slot_utc: d.slot_utc, grid: d.grid, place: d.place },
    )
}

impl DigiRx {
    /// Drop everything derived from the previous mode's decodes: the list, the
    /// dots on the map and the marked station.
    pub fn clear_digi_rx(&mut self)
        ensures
            final(self).decodes@.len() == 0,
            final(self).preview.station is None,
            final(self).stations.wf(),
            final(self).stations.seen() == Map::<Seq<char>, Hearing>::empty(),
            final(self).stations.hits().len() == 0,
            final(self).stations.keys() == Set::<(Seq<char>, int)>::empty(),
            final(self).stations.fade_us() == STATION_FADE_US,
    {
        self.decodes = Vec::new();
        self.stations = DigiStations::default();
        self.preview = Preview { station: None };
    }

    /// The engine reported its state: a change of mode clears what the mode
    /// before received. Returns whether it did.
    pub fn on_mode(&mut self, before: Mode, now: Mode) -> (cleared: bool)
        requires
            old(self).stations.wf(),
        ensures
            cleared == (before != now),
            !cleared ==> *final(self) == *old(self),
            cleared ==> {
                &&& final(self).decodes@.len() == 0
                &&& final(self).preview.station is None
                &&& final(self).stations.seen() == Map::<Seq<char>, Hearing>::empty()
                &&& final(self).stations.hits().len() == 0
                &&& final(self).stations.keys() == Set::<(Seq<char>, int)>::empty()
                &&& final(self).stations.fade_us() == STATION_FADE_US
            },
            final(self).stations.wf(),
    {
        if before != now {
            self.clear_digi_rx();
            return true;
        }
        false
    }

    /// A frame of the map: takes in what the list holds, and gives the dots that
    /// are still lit.
    pub fn observe(&mut self, now_t: i64, now_utc: i64) -> (r: Vec<Lit>)
        requires
            old(self).stations.wf(),
            i64::MIN + HISTORY_S <= now_utc <= i64::MAX - FUTURE_S,
        ensures
            final(self).decodes == old(self).decodes,
            final(self).preview == old(self).preview,
            final(self).stations.wf(),
            final(self).stations.fade_us() == old(self).stations.fade_us(),
            final(self).stations.seen() == observed(
                old(self).stations.seen(),
                all_heard_of(old(self).decodes@),
                now_t as int,
                old(self).stations.fade_us(),
            ),
            final(self).stations.hits() == history_after(
                old(self).stations.hits(),
                old(self).stations.keys(),
                all_heard_of(old(self).decodes@),
                now_utc as int,
            ),
            final(self).stations.keys() == keys_after(
                old(self).stations.hits(),
                old(self).stations.keys(),
                all_heard_of(old(self).decodes@),
                now_utc as int,
            ),
            r@ == dots(
                final(self).stations.grids(),
                final(self).stations.seen(),
                now_t as int,
                final(self).stations.fade_us(),
            ),
    {
        let mut heard: Vec<Heard> = Vec::new();
        let mut i: usize = 0;
        while i < self.decodes.len()
            invariant
                i <= self.decodes@.len(),
                self.decodes == old(self).decodes,
                self.preview == old(self).preview,
                self.stations == old(self).stations,
                heard@ =~= all_heard_of(self.decodes@.take(i as int)),
            decreases self.decodes@.len() - i,
        {
            let d = &self.decodes[i];
            heard.push(Heard { slot_utc: d.slot_utc, grid: copy_text(&d.grid), place: d.place });
            i = i + 1;
        }
        assert(self.decodes@.take(i as int) =~= self.decodes@);
        self.stations.observe(heard.as_slice(), now_t, now_utc);
        self.stations.stations(now_t)
    }
}

/// Whether the view is fitted anew when the engine reports its state: the device
/// shows another span than before, and both that and the view are known.
pub fn refit_view(span_changed: bool, span_known: bool, view_unset: bool) -> (r: bool)
    ensures
        r == (span_changed && span_known && !view_unset),
{
    span_changed && span_known && !view_unset
}

/// Whether the first state of the engine has been seen.
pub struct FirstState {
    pub seen: bool,
}

/// Whether a frequency is in the visible span.
pub open spec fn in_view(v: ViewState, freq: int) -> bool {
    v.view_lo <= freq <= v.view_hi
}

impl FirstState {
    /// Whether the view is to be centred on the tuned frequency: it is outside
    /// the visible span after the tuning changed, or at the start. A deliberate
    /// pan away is left alone.
    pub open spec fn recenters(&self, v: ViewState, tuned: int, before: int) -> bool {
        &&& v.width() > 0
        &&& tuned - before > HALF_HZ || before - tuned > HALF_HZ || !self.seen
        &&& !in_view(v, tuned)
    }

    /// The view once the engine reported the tuned frequency: centred on it where
    /// it has to be, no wider than the span that the device receives.
    pub open spec fn recentered(
        &self,
        v: ViewState,
        tuned: int,
        before: int,
        device_span: int,
    ) -> ViewState {
        let w = if v.width() < device_span {
            v.width()
        } else {
            device_span
        };
        if self.recenters(v, tuned, before) {
            ViewState {
                view_lo: (tuned - w / 2) as i64,
                view_hi: (tuned - w / 2 + w) as i64,
                ..v
            }
        } else {
            v
        }
    }

    /// The engine reported the tuned frequency, which was `before` until now, and
    /// the span that the device receives.
    pub fn recenter_if_tuned_away(
        &mut self,
        v: &mut ViewState,
        tuned: i64,
        before: i64,
        device_span: i64,
    )
        requires
            old(v).wf(),
            -FREQ_MAX <= tuned <= FREQ_MAX,
            -FREQ_MAX <= before <= FREQ_MAX,
            0 <= device_span <= FREQ_MAX,
        ensures
            final(self).seen,
            final(v).wf(),
            *final(v) == old(self).recentered(
                *old(v),
                tuned as int,
                before as int,
                device_span as int,
            ),
    {
        let first = !self.seen;
        self.seen = true;
        if v.is_unset() {
            return ;
        }
        let moved = tuned - before > HALF_HZ || before - tuned > HALF_HZ;
        let outside = tuned < v.view_lo || v.view_hi < tuned;
        if (moved || first) && outside {
            let w: i64 = v.span();
            let w: i64 = if w < device_span {
                w
            } else {
                device_span
            };
            v.view_lo = tuned - w / 2;
            v.view_hi = v.view_lo + w;
        }
    }
}

/// After the tuning changed the tuned frequency is in view: a pan away lasts only
/// until the radio is tuned again.
pub proof fn law_tuning_comes_into_view(
    first: FirstState,
    v: ViewState,
    tuned: int,
    before: int,
    device_span: int,
)
    requires
        v.width() > 0,
        v.wf(),
        -FREQ_MAX <= tuned <= FREQ_MAX,
        0 <= device_span <= FREQ_MAX,
        tuned - before > HALF_HZ || before - tuned > HALF_HZ,
    ensures
        in_view(first.recentered(v, tuned, before, device_span), tuned),
{
}

/// The operator's settings as edited here, taken over from the engine once so
/// that its echoes do not fight the keyboard.
pub struct EditCopy<T> {
    pub edit: T,
    pub seeded: bool,
}

impl<T> EditCopy<T> {
    /// The engine reported its settings.
    pub fn seed(&mut self, from_engine: T)
        ensures
            final(self).seeded,
            final(self).edit == if old(self).seeded {
                old(self).edit
            } else {
                from_engine
            },
    {
        if !self.seeded {
            self.edit = from_engine;
            self.seeded = true;
        }
    }
}

impl<T> EditCopy<T> {
    /// The dialog asked for the settings anew: those that are known here replace
    /// the edited ones.
    pub fn reseed(&mut self, stored: Option<T>)
        ensures
            *final(self) == match stored {
                Some(t) => EditCopy { edit: t, seeded: true },
                None => *old(self),
            },
    {
        if let Some(t) = stored {
            self.edit = t;
            self.seeded = true;
        }
    }
}

/// Put a received picture in front of the others and drop the oldest past the
/// limit.
pub fn push_image(images: &mut Vec<u64>, tex: u64)
    ensures
        ({
            let all = seq![tex] + old(images)@;
            final(images)@ == all.take(
                if all.len() < DIGI_IMAGES_MAX {
                    all.len() as int
                } else {
                    DIGI_IMAGES_MAX as int
                },
            )
        }),
{
    images.insert(0, tex);
    let ghost all = seq![tex] + old(images)@;
    assert(images@ =~= all);
    images.truncate(DIGI_IMAGES_MAX);
    assert(images@ =~= all.take(images@.len() as int));
}

impl Logbook {
    /// What a contact that the engine completed does to the logbook.
    pub open spec fn logged_contact(
        &self,
        next: &Logbook,
        cfg: NetworkConfig,
        rec: QsoRecord,
    ) -> bool {
        let id = (max_id(self.log@) + 1) as u64;
        &&& next.log@ == self.log@.push(QsoRecord { id, ..rec })
        &&& next.show == self.show
        &&& next.edit == self.edit
        &&& next.net_log == self.net_log
        &&& if wants_lookup(cfg, rec.call@) {
            &&& next.pending_lookups@.len() == self.pending_lookups@.len() + 1
            &&& next.pending_lookups@.drop_last() == self.pending_lookups@
            &&& next.pending_lookups@.last()@ == trimmed(rec.call@)
        } else {
            next.pending_lookups == self.pending_lookups
        }
        &&& if cfg.auto_upload && cfg.auto_targets().len() > 0 {
            &&& next.pending_uploads@.len() == self.pending_uploads@.len() + 1
            &&& next.pending_uploads@.drop_last() == self.pending_uploads@
            &&& next.pending_uploads@.last().0 == id
            &&& next.pending_uploads@.last().1@ == cfg.auto_targets()
        } else {
            next.pending_uploads == self.pending_uploads
        }
    }

    /// The engine completed a contact: it is logged under a fresh id, looked up
    /// and uploaded as configured. The log is to be saved afterwards.
    pub fn log_contact(&mut self, cfg: &NetworkConfig, rec: QsoRecord)
        requires
            max_id(old(self).log@) < u64::MAX,
        ensures
            old(self).logged_contact(final(self), *cfg, rec),
    {
        let mut rec = rec;
        rec.id = self.next_log_id();
        let call = rec.call.clone();
        let upload = auto_upload_adif(cfg, &rec);
        self.log.push(rec);
        self.queue_lookup(cfg, call.as_str());
        if let Some(u) = upload {
            self.pending_uploads.push(u);
            assert(self.pending_uploads@.drop_last() =~= old(self).pending_uploads@);
        }
    }

    /// The queued lookups and uploads as requests, lookups first; the queues are
    /// empty then.
    pub fn flush(&mut self) -> (r: Vec<Command>)
        ensures
            final(self).pending_lookups@.len() == 0,
            final(self).pending_uploads@.len() == 0,
            final(self).log == old(self).log,
            final(self).show == old(self).show,
            final(self).edit == old(self).edit,
            final(self).net_log == old(self).net_log,
            r@ == queued(old(self).pending_lookups@, old(self).pending_uploads@),
    {
        let mut out: Vec<Command> = Vec::new();
        let ghost lookups = self.pending_lookups@;
        let ghost uploads = self.pending_uploads@;
        while self.pending_lookups.len() > 0
            invariant
                self.pending_uploads@ == uploads,
                self.pending_lookups@.len() <= lookups.len(),
                self.pending_lookups@ == lookups.skip(
                    lookups.len() - self.pending_lookups@.len(),
                ),
                out@ == lookups.take(
                    lookups.len() - self.pending_lookups@.len(),
                ).map_values(|c: String| Command::LookupCallsign(c)),
                self.log == old(self).log,
                self.show == old(self).show,
                self.edit == old(self).edit,
                self.net_log == old(self).net_log,
            decreases self.pending_lookups@.len(),
        {
            let ghost k = lookups.len() - self.pending_lookups@.len();
            let call = self.pending_lookups.remove(0);
            assert(call == lookups[k]);
            out.push(Command::LookupCallsign(call));
            assert(self.pending_lookups@ =~= lookups.skip(k + 1));
            assert(out@ =~= lookups.take(k + 1).map_values(
                |c: String| Command::LookupCallsign(c),
            ));
        }
        let ghost first = lookups.map_values(|c: String| Command::LookupCallsign(c));
        assert(out@ =~= first) by {
            assert(lookups.take(lookups.len() as int) =~= lookups);
        }
        assert(out@ =~= first + uploads.take(0).map_values(
            |u: (u64, Vec<UploadTarget>)| Command::UploadQso { id: u.0, targets: u.1 },
        ));
        assert(self.pending_uploads@ =~= uploads.skip(0));
        while self.pending_uploads.len() > 0
            invariant
                self.pending_lookups@.len() == 0,
                self.pending_uploads@.len() <= uploads.len(),
                self.pending_uploads@ == uploads.skip(
                    uploads.len() - self.pending_uploads@.len(),
                ),
                out@ == first + uploads.take(
                    uploads.len() - self.pending_uploads@.len(),
                ).map_values(
                    |u: (u64, Vec<UploadTarget>)| Command::UploadQso { id: u.0, targets: u.1 },
                ),
                self.log == old(self).log,
                self.show == old(self).show,
                self.edit == old(self).edit,
                self.net_log == old(self).net_log,
            decreases self.pending_uploads@.len(),
        {
            let ghost k = uploads.len() - self.pending_uploads@.len();
            let u = self.pending_uploads.remove(0);
            assert(u == uploads[k]);
            out.push(Command::UploadQso { id: u.0, targets: u.1 });
            assert(self.pending_uploads@ =~= uploads.skip(k + 1));
            assert(out@ =~= first + uploads.take(k + 1).map_values(
                |u: (u64, Vec<UploadTarget>)| Command::UploadQso { id: u.0, targets: u.1 },
            ));
        }
        assert(uploads.take(uploads.len() as int) =~= uploads);
        out
    }
}

/// Queued lookups and uploads as requests, lookups first.
pub open spec fn queued(lookups: Seq<String>, uploads: Seq<(u64, Vec<UploadTarget>)>) -> Seq<
    Command,
> {
    lookups.map_values(|c: String| Command::LookupCallsign(c)) + uploads.map_values(
        |u: (u64, Vec<UploadTarget>)| Command::UploadQso { id: u.0, targets: u.1 },
    )
}

/// Logging a contact keeps the ids of the log distinct.
pub proof fn law_logging_keeps_ids_distinct(
    before: Logbook,
    after: Logbook,
    cfg: NetworkConfig,
    rec: QsoRecord,
)
    requires
        ids_distinct(before.log@),
        max_id(before.log@) < u64::MAX,
        before.logged_contact(&after, cfg, rec),
    ensures
        ids_distinct(after.log@),
{
    let log = before.log@;
    let next = after.log@;
    assert forall|i: int, j: int| 0 <= i < j < next.len() implies (#[trigger] next[i]).id != (
    #[trigger] next[j]).id by {
        if j == log.len() {
            law_next_id_is_free(log, i);
        } else {
            assert(log[i].id != log[j].id);
        }
    }
}

/// The spectrum settings: those that were sent, those that are wanted, and since
/// when they have been.
#[derive(Clone, Copy, Debug, PartialEq, Eq, Structural)]
pub struct CfgSync {
    pub sent: Option<SpectrumConfig>,
    pub desired: Option<SpectrumConfig>,
    pub desired_at: i64,
}

impl CfgSync {
    /// The invariant: the span that was sent is one that can be reckoned with.
    pub open spec fn wf(&self) -> bool {
        self.sent matches Some(s) ==> s.viewport matches Some(p) ==> p.wf()
    }

    /// Whether the ideal settings are sent: those that the engine has no longer
    /// serve, and none were sent yet or the ideal ones have been the same for a
    /// while.
    pub open spec fn sends(&self, ideal: SpectrumConfig, d: Device, v: ViewState, now: int) -> bool {
        let since = if self.desired == Some(ideal) {
            self.desired_at as int
        } else {
            now
        };
        !still_good(self.sent, ideal, d, v) && (self.sent is None || now - since
            >= CFG_DEBOUNCE_US)
    }

    /// What a frame makes of the settings: the ideal ones are wanted from the
    /// first frame on that asks for them, and are the engine's once they are sent.
    pub open spec fn stepped(
        &self,
        ideal: SpectrumConfig,
        d: Device,
        v: ViewState,
        now: i64,
    ) -> CfgSync {
        if still_good(self.sent, ideal, d, v) {
            *self
        } else {
            CfgSync {
                sent: if self.sends(ideal, d, v, now as int) {
                    Some(ideal)
                } else {
                    self.sent
                },
                desired: Some(ideal),
                desired_at: if self.desired == Some(ideal) {
                    self.desired_at
                } else {
                    now
                },
            }
        }
    }

    /// A frame. Returns the settings to send, if they are to be sent now.
    pub fn frame(&mut self, d: &Device, v: &ViewState, fps: u32, now: i64) -> (r: Option<
        SpectrumConfig,
    >)
        requires
            old(self).wf(),
        ensures
            final(self).wf(),
            ({
                let ideal = ideal_config(*d, *v, fps);
                &&& r == if old(self).sends(ideal, *d, *v, now as int) {
                    Some(ideal)
                } else {
                    None::<SpectrumConfig>
                }
                &&& *final(self) == old(self).stepped(ideal, *d, *v, now)
            }),
    {
        let ideal = desired_spectrum_cfg(d, v, fps);
        if cfg_still_good(&self.sent, &ideal, d, v) {
            return None;
        }
        let same = match self.desired {
            Some(w) => w == ideal,
            None => false,
        };
        if !same {
            self.desired = Some(ideal);
            self.desired_at = now;
        }
        let age: i128 = now as i128 - self.desired_at as i128;
        if self.sent.is_none() || age >= CFG_DEBOUNCE_US as i128 {
            self.sent = Some(ideal);
            proof {
                law_viewport_inside(*d, *v);
            }
            return Some(ideal);
        }
        None
    }

    /// The frame rate that was asked for, or the default.
    pub fn fps(&self, default: u8) -> (r: u8)
        ensures
            r == match (self.sent, self.desired) {
                (Some(c), _) => c.fps,
                (None, Some(c)) => c.fps,
                (None, None) => default,
            },
    {
        match (self.sent, self.desired) {
            (Some(c), _) => c.fps,
            (None, Some(c)) => c.fps,
            (None, None) => default,
        }
    }
}

/// Settings are sent once: as long as neither the view nor the device changes,
/// nothing is sent after them.
pub proof fn law_settings_are_sent_once(
    c: CfgSync,
    d: Device,
    v: ViewState,
    fps: u32,
    now: int,
)
    requires
        c.sent == Some(ideal_config(d, v, fps)),
    ensures
        !c.sends(ideal_config(d, v, fps), d, v, now),
{
    law_ideal_settings_serve(d, v, fps);
}

/// Settings that have just changed wait: once any were sent, others are not sent
/// by the first frame that asks for them.
pub proof fn law_changed_settings_wait(
    c: CfgSync,
    d: Device,
    v: ViewState,
    fps: u32,
    now: int,
)
    requires
        c.sent is Some,
        c.desired != Some(ideal_config(d, v, fps)),
    ensures
        !c.sends(ideal_config(d, v, fps), d, v, now),
{
}

/// The settings after frames at the given times, with neither the view nor the
/// device changed meanwhile.
pub open spec fn after_frames(
    c: CfgSync,
    d: Device,
    v: ViewState,
    fps: u32,
    times: Seq<i64>,
) -> CfgSync
    decreases times.len(),
{
    if times.len() == 0 {
        c
    } else {
        after_frames(c, d, v, fps, times.drop_last()).stepped(
            ideal_config(d, v, fps),
            d,
            v,
            times.last(),
        )
    }
}

/// Frames that do not send leave the settings wanted since the first of them at
/// the latest.
proof fn lemma_wanted_since(c: CfgSync, d: Device, v: ViewState, fps: u32, times: Seq<i64>)
    requires
        times.len() > 0,
        !still_good(c.sent, ideal_config(d, v, fps), d, v),
        c.desired == Some(ideal_config(d, v, fps)) ==> c.desired_at <= times[0],
    ensures
        ({
            let ideal = ideal_config(d, v, fps);
            let r = after_frames(c, d, v, fps, times);
            r.sent == Some(ideal) || (r.sent == c.sent && r.desired == Some(ideal)
                && r.desired_at <= times[0])
        }),
    decreases times.len(),
{
    law_ideal_settings_serve(d, v, fps);
    let before = times.drop_last();
    if before.len() > 0 {
        lemma_wanted_since(c, d, v, fps, before);
    } else {
        assert(after_frames(c, d, v, fps, before) == c);
    }
}

/// Settings that are wanted unchanged for [`CFG_DEBOUNCE_US`] are sent: when
/// frames are drawn over that long a time and the view stays as it is, the engine
/// has settings in the end that serve it, and has the ideal ones where those that
/// it had did not serve. The clock does not run backwards.
pub proof fn law_wanted_settings_are_sent(
    c: CfgSync,
    d: Device,
    v: ViewState,
    fps: u32,
    times: Seq<i64>,
)
    requires
        times.len() > 0,
        times.last() - times[0] >= CFG_DEBOUNCE_US,
        c.desired == Some(ideal_config(d, v, fps)) ==> c.desired_at <= times[0],
    ensures
        ({
            let ideal = ideal_config(d, v, fps);
            let r = after_frames(c, d, v, fps, times);
            &&& still_good(r.sent, ideal, d, v)
            &&& !still_good(c.sent, ideal, d, v) ==> r.sent == Some(ideal)
        }),
{
    law_ideal_settings_serve(d, v, fps);
    let before = times.drop_last();
    if still_good(c.sent, ideal_config(d, v, fps), d, v) {
        lemma_served_stays(c, d, v, fps, times);
    } else {
        lemma_wanted_since(c, d, v, fps, before);
    }
}

/// Settings that serve stay as they are.
proof fn lemma_served_stays(c: CfgSync, d: Device, v: ViewState, fps: u32, times: Seq<i64>)
    requires
        still_good(c.sent, ideal_config(d, v, fps), d, v),
    ensures
        after_frames(c, d, v, fps, times) == c,
    decreases times.len(),
{
    if times.len() > 0 {
        lemma_served_stays(c, d, v, fps, times.drop_last());
    }
}

/// How long to wait until the next frame is drawn, in milliseconds: not at all
/// when data is waiting; until the next spectrum frame while a stream flows;
/// else an idle poll.
pub open spec fn repaint_wait(
    data_waiting: bool,
    fps: u8,
    has_frame: bool,
    has_error: bool,
    frame_age: int,
) -> u64 {
    if data_waiting {
        0
    } else if has_frame && !has_error && frame_age < STREAM_STALE_US {
        1000u64 / (if fps > MIN_FPS {
            fps as u64
        } else {
            1u64
        })
    } else {
        IDLE_POLL_MS
    }
}

/// How long to wait until the next frame is drawn, in milliseconds.
pub fn repaint_wait_ms(
    data_waiting: bool,
    fps: u8,
    has_frame: bool,
    has_error: bool,
    last_frame_at: i64,
    now: i64,
) -> (r: u64)
    ensures
        r == repaint_wait(data_waiting, fps, has_frame, has_error, now - last_frame_at),
{
    if data_waiting {
        return 0;
    }
    let age: i128 = now as i128 - last_frame_at as i128;
    let fps: u64 = if fps > MIN_FPS {
        fps as u64
    } else {
        1
    };
    if has_frame && !has_error && age < STREAM_STALE_US as i128 {
        1000 / fps
    } else {
        IDLE_POLL_MS
    }
}

/// No spectrum frame is skipped: while a stream flows, the wait is no longer
/// than the time between two of its frames.
pub proof fn law_no_frame_is_skipped(fps: u8, frame_age: int)
    requires
        fps >= 1,
        frame_age < STREAM_STALE_US,
    ensures
        repaint_wait(false, fps, true, false, frame_age) * fps <= 1000,
{
    let f = fps as u64;
    assert(1000u64 / f * f <= 1000) by (nonlinear_arith)
        requires
            f >= 1,
    ;
}

/// Whether held controls are to be released: the window closes while one is
/// held, and must not leave the transmitter keyed.
pub fn release_on_close(close_requested: bool, any_held: bool) -> (r: bool)
    ensures
        r == (close_requested && any_held),
{
    close_requested && any_held
}

/// The award tally: the band it is shown for, and what it was computed from.
pub struct AwardsView {
    /// The band filter; none means all bands.
    pub band: String,
    /// The log's length and the band of the tally that is held.
    pub held: Option<(usize, String)>,
}

impl AwardsView {
    /// Whether the tally has to be computed anew, for a log of this length: the
    /// log has another length, or another band is asked for. It then counts as
    /// held. Returns the band to compute for; all bands have no name.
    pub fn ensure(&mut self, log_len: usize) -> (r: Option<String>)
        ensures
            final(self).band == old(self).band,
            match old(self).held {
                Some(h) => (h.0 == log_len && h.1@ == old(self).band@) ==> r is None
                    && final(self).held == old(self).held,
                None => true,
            },
            !(old(self).held matches Some(h) && h.0 == log_len && h.1@ == old(self).band@) ==> {
                &&& r matches Some(b) && b@ == old(self).band@
                &&& final(self).held matches Some(h) && h.0 == log_len && h.1@ == old(self).band@
            },
    {
        if let Some(h) = &self.held {
            if h.0 == log_len && same(h.1.as_str(), self.band.as_str()) {
                return None;
            }
        }
        self.held = Some((log_len, self.band.clone()));
        Some(self.band.clone())
    }
}

/// The tuning lines stand as far to the left of where the mode sends as to the
/// right, and as far apart as its tones reach: the shift of RTTY, the bandwidth of
/// Olivia, eighteen times THOR's rate and thirty-three times that of FSQ. The other
/// two modes with lines fill a band of their own, wherever the mode sends.
pub proof fn law_lines_stand_around_the_signal(mode: Mode, audio: int, t: ToneCfg)
    ensures
        marked(Mode::RfPaint, audio, t) == Some((600_000int, 6_600_000int)),
        marked(Mode::Rade, audio, t) == Some((2_124_000int, 3_752_000int)),
        mode != Mode::RfPaint && mode != Mode::Rade ==> {
            &&& marked(mode, audio, t) is Some <==> mode == Mode::Rtty || mode == Mode::Olivia || mode
                == Mode::Thor || mode == Mode::Fsq
            &&& marked(mode, audio, t) matches Some(m) ==> m.0 + m.1 == 4 * audio
        },
        marked(Mode::Rtty, audio, t) matches Some(m) && m.1 - m.0 == 2 * t.rtty_shift,
        marked(Mode::Olivia, audio, t) matches Some(m) && m.1 - m.0 == 2 * t.olivia_bw,
        marked(Mode::Thor, audio, t) matches Some(m) && m.1 - m.0 == 36 * t.thor_baud,
        marked(Mode::Fsq, audio, t) matches Some(m) && m.1 - m.0 == 66 * t.fsq_baud,
{
}

/// A digital mode's view shows the whole of the audio that the mode can use: from
/// 200 Hz below the dial to 3500 Hz above, with a signal that is sent at 200 to
/// 3500 Hz inside it. That of RF Paint shows its painting band with 150 Hz to spare
/// on either side, and RADE's band is in view as well.
pub proof fn law_locked_view_shows_the_mode(v: ViewState, dial: int, audio: int, t: ToneCfg)
    requires
        -FREQ_MAX <= dial <= FREQ_MAX,
    ensures
        ({
            let usual = locked_view(v, dial, false);
            let paint = locked_view(v, dial, true);
            let band = marked(Mode::RfPaint, audio, t)->0;
            let rade = marked(Mode::Rade, audio, t)->0;
            &&& usual.view_lo == dial - 200_000 && usual.view_hi == dial + 3_500_000
            &&& 200_000 <= audio <= 3_500_000 ==> in_view(usual, dial + audio)
            &&& 2 * usual.view_lo <= 2 * dial + rade.0 && 2 * dial + rade.1 <= 2 * usual.view_hi
            &&& 2 * paint.view_lo + 300_000 == 2 * dial + band.0
            &&& 2 * paint.view_hi - 300_000 == 2 * dial + band.1
            &&& usual.db_floor == v.db_floor && usual.db_ceil == v.db_ceil
            &&& usual.fft_size == v.fft_size && paint.fft_size == v.fft_size
        }),
{
}

/// A view that is moved because the tuning left it is centred on the tuned
/// frequency and keeps its width, as far as the device receives that much. A view
/// that shows the tuned frequency stays, and so does one that was panned away from
/// it while the tuning moved by no more than half a hertz.
pub proof fn law_recentring_keeps_the_width(
    first: FirstState,
    v: ViewState,
    tuned: int,
    before: int,
    device_span: int,
)
    requires
        v.wf(),
        -FREQ_MAX <= tuned <= FREQ_MAX,
        0 <= device_span <= FREQ_MAX,
    ensures
        ({
            let r = first.recentered(v, tuned, before, device_span);
            let w = v.view_hi - v.view_lo;
            let away = tuned < v.view_lo || tuned > v.view_hi;
            let moved = tuned > before + 500 || before > tuned + 500;
            &&& w > 0 && away && (moved || !first.seen) ==> {
                &&& w <= device_span ==> r.view_hi - r.view_lo == w
                &&& w > device_span ==> r.view_hi - r.view_lo == device_span
                &&& 0 <= r.view_lo + r.view_hi - 2 * tuned <= 1
                &&& r == ViewState { view_lo: r.view_lo, view_hi: r.view_hi, ..v }
            }
            &&& w <= 0 || !away || (!moved && first.seen) ==> r == v
        }),
{
}

/// Settings wait a quarter of a second: once any were sent, others go out just when
/// those that the engine has no longer serve and the same have been wanted for so
/// long. The first go out at once.
pub proof fn law_settings_wait_a_quarter_second(
    c: CfgSync,
    ideal: SpectrumConfig,
    d: Device,
    v: ViewState,
    now: int,
)
    ensures
        c.sent is None ==> c.sends(ideal, d, v, now),
        c.sends(ideal, d, v, now) ==> !still_good(c.sent, ideal, d, v),
        c.sent is Some && c.sends(ideal, d, v, now) ==> c.desired == Some(ideal) && now
            >= c.desired_at + 250_000,
        !still_good(c.sent, ideal, d, v) && c.desired == Some(ideal) && now >= c.desired_at + 250_000
            ==> c.sends(ideal, d, v, now),
{
}

/// A view that keeps changing sends nothing: a frame that wants other settings than
/// the one before starts the wait anew.
pub proof fn law_a_change_starts_the_wait_anew(
    c: CfgSync,
    first: SpectrumConfig,
    second: SpectrumConfig,
    d: Device,
    v: ViewState,
    then: i64,
    now: int,
)
    requires
        c.sent is Some,
        first != second,
        !still_good(c.sent, first, d, v),
        !c.sends(first, d, v, then as int),
        now <= then + 249_999,
    ensures
        !c.stepped(first, d, v, then).sends(second, d, v, now),
        c.desired != Some(first) ==> !c.stepped(first, d, v, then).sends(first, d, v, now),
{
}

/// While a stream flows a frame is drawn for each of its own; a stream that has
/// stood for a second, or broke, is looked at four times a second; and what has
/// arrived is drawn at once.
pub proof fn law_frames_are_drawn_as_they_come(fps: u8, frame_age: int, broke: bool)
    ensures
        repaint_wait(true, fps, true, broke, frame_age) == 0,
        frame_age < 1_000_000 && fps >= 1 ==> {
            let wait = repaint_wait(false, fps, true, false, frame_age);
            wait * fps <= 1000 < (wait + 1) * fps
        },
        frame_age >= 1_000_000 || broke ==> repaint_wait(false, fps, true, broke, frame_age) == 250,
        repaint_wait(false, fps, false, broke, frame_age) == 250,
{
    if fps >= 1 {
        let q = 1000int / (fps as int);
        assert(q * fps <= 1000 < (q + 1) * fps) by (nonlinear_arith)
            requires
                q == 1000int / (fps as int),
                fps >= 1,
        ;
    }
}

/// A contact that the engine completed is the last of the log as it was completed,
/// under an id of its own, and no other record changes.
pub proof fn law_completed_contact_is_logged(
    before: Logbook,
    after: Logbook,
    cfg: NetworkConfig,
    rec: QsoRecord,
    i: int,
)
    requires
        max_id(before.log@) < u64::MAX,
        before.logged_contact(&after, cfg, rec),
        0 <= i < before.log@.len(),
    ensures
        after.log@.len() == before.log@.len() + 1,
        after.log@.last() == (QsoRecord { id: after.log@.last().id, ..rec }),
        after.log@[i] == before.log@[i],
        after.log@[i].id != after.log@.last().id,
{
    law_next_id_is_free(before.log@, i);
}

/// Before the engine has said anything a digital mode is taken to send at 1500 Hz,
/// RTTY with a shift of 170 Hz, Olivia 1000 Hz wide, THOR at 15.625 baud and FSQ at
/// 4.5.
pub proof fn law_usual_lines()
    ensures
        marked(Mode::Rtty, AUDIO_DEFAULT as int, usual_tones()) == Some((2_830_000int, 3_170_000int)),
        marked(Mode::Olivia, AUDIO_DEFAULT as int, usual_tones()) == Some(
            (2_000_000int, 4_000_000int),
        ),
        marked(Mode::Thor, AUDIO_DEFAULT as int, usual_tones()) == Some((2_718_750int, 3_281_250int)),
        marked(Mode::Fsq, AUDIO_DEFAULT as int, usual_tones()) == Some((2_851_500int, 3_148_500int)),
{
}

/// A contact that the engine completed is looked up and uploaded where that is
/// configured, after what was queued before it, and only then.
pub proof fn law_completed_contact_is_reported(
    before: Logbook,
    after: Logbook,
    cfg: NetworkConfig,
    rec: QsoRecord,
)
    requires
        max_id(before.log@) < u64::MAX,
        before.logged_contact(&after, cfg, rec),
    ensures
        ({
            let looks = trimmed(rec.call@).len() > 0 && cfg.auto_lookup && cfg.lookup_provider
                != LookupProvider::Off;
            let sends = cfg.auto_upload && cfg.auto_targets().len() > 0;
            &&& looks ==> after.pending_lookups@.drop_last() == before.pending_lookups@
                && after.pending_lookups@.last()@ == trimmed(rec.call@) && after.pending_lookups@.len()
                == before.pending_lookups@.len() + 1
            &&& !looks ==> after.pending_lookups == before.pending_lookups
            &&& sends ==> after.pending_uploads@.drop_last() == before.pending_uploads@
                && after.pending_uploads@.last().0 == after.log@.last().id
                && after.pending_uploads@.last().1@ == cfg.auto_targets()
                && after.pending_uploads@.len() == before.pending_uploads@.len() + 1
            &&& !sends ==> after.pending_uploads == before.pending_uploads
            &&& after.edit == before.edit && after.show == before.show && after.net_log
                == before.net_log
        }),
{
}

/// Every queued lookup and upload is asked for, in the order in which they were
/// queued, lookups first.
pub proof fn law_queued_requests_are_made(
    lookups: Seq<String>,
    uploads: Seq<(u64, Vec<UploadTarget>)>,
    i: int,
)
    requires
        0 <= i < lookups.len() + uploads.len(),
    ensures
        queued(lookups, uploads).len() == lookups.len() + uploads.len(),
        i < lookups.len() ==> queued(lookups, uploads)[i] == Command::LookupCallsign(lookups[i]),
        i >= lookups.len() ==> queued(lookups, uploads)[i] == (Command::UploadQso {
            id: uploads[i - lookups.len()].0,
            targets: uploads[i - lookups.len()].1,
        }),
{
}

} // verus!
