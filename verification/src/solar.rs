//! The solar-system window: its layers, its clock, the replay of the last hour,
//! and what a click in the scene takes hold of.
use crate::carried::Place;
use crate::solar_layer::{law_switching_is_local, ALL, AWARDS, QSO};
use crate::text::{decimal, fmt_u64};
use vstd::prelude::*;

verus! {

/// An hour, in nanoseconds: how far back a replay reaches.
pub const HOUR_NS: i64 = 3_600_000_000_000;

/// The slowest replay, in thousandths of real time.
pub const SPEED_MIN: i64 = 1_000;

/// The fastest replay, in thousandths of real time.
pub const SPEED_MAX: i64 = 600_000;

/// What a click on a label takes hold of.
#[derive(Clone, Copy, Debug, PartialEq, Eq, Structural)]
pub enum Click {
    Nothing,
    /// A satellite, by its catalogue number.
    Sat(u64),
    /// A body that the camera can orbit.
    Focus(u8),
}

/// A label on the screen.
#[derive(Clone, Copy, Debug, PartialEq, Eq, Structural)]
pub struct Label {
    pub click: Click,
    /// Whether the pointer is on its text.
    pub under_pointer: bool,
}

/// A body on the screen.
#[derive(Clone, Copy, Debug, PartialEq, Eq, Structural)]
pub struct Pick {
    pub focus: u8,
    /// How far the pointer is from its centre, in thousandths of a pixel.
    pub distance: u32,
    /// Its radius, in the same.
    pub radius: u32,
}

/// How a line is coloured.
#[derive(Clone, Copy, Debug, PartialEq, Eq, Structural)]
pub enum Tone {
    /// Hardly there: notes.
    Faint,
    Dim,
    Plain,
    /// The colour of ordinary text.
    Text,
    Good,
    Watch,
    Bad,
}

/// The state of the window.
#[derive(Debug)]
pub struct SolarUi {
    pub layers: u32,
    /// Whether the camera flies its tour.
    pub auto: bool,
    /// Whether the tour is to pick up from where the camera is.
    pub resume_tour: bool,
    /// Whether the tour moves the camera's pivot.
    pub pivot_overridden: bool,
    /// The body that the camera orbits.
    pub focus: u8,
    /// Whether the camera is to be framed on it anew.
    pub retarget: bool,
    pub channel: u8,
    pub refresh_requested: bool,
    pub all_satellites: bool,
    /// How far the scene is moved in time, in seconds.
    pub sim_offset_s: i64,
    /// How far back the replay is, in nanoseconds.
    pub lapse_back_ns: i64,
    pub lapse_playing: bool,
    /// The satellite whose passes are shown.
    pub selected_sat: Option<u64>,
}

/// A number held between two others.
pub open spec fn clamped(n: int, lo: int, hi: int) -> int {
    if n < lo {
        lo
    } else if n > hi {
        hi
    } else {
        n
    }
}

/// The click that the labels take: that of the last one under the pointer, for
/// it is drawn on top.
pub open spec fn label_hit(labels: Seq<Label>) -> Click
    decreases labels.len(),
{
    if labels.len() == 0 {
        Click::Nothing
    } else if labels.last().under_pointer && labels.last().click != Click::Nothing {
        labels.last().click
    } else {
        label_hit(labels.drop_last())
    }
}

/// Whether a body can be picked: it is not the target already, and the pointer
/// is on it.
pub open spec fn pickable(p: Pick, focus: u8) -> bool {
    p.focus != focus && p.distance <= p.radius
}

/// Whether the pointer is nearer to `a` than to `b`, each distance taken as a
/// fraction of that body's radius.
pub open spec fn nearer(a: Pick, b: Pick) -> bool {
    a.distance * b.radius < b.distance * a.radius
}

/// The body that a click takes: the nearest that can be picked, the first of
/// those equally near.
pub open spec fn picked(picks: Seq<Pick>, focus: u8) -> Option<Pick>
    decreases picks.len(),
{
    if picks.len() == 0 {
        None
    } else {
        let p = picks.last();
        let best = picked(picks.drop_last(), focus);
        if pickable(p, focus) && (best is None || nearer(p, best->0)) {
            Some(p)
        } else {
            best
        }
    }
}

/// Where the replay goes from `back` after `dt_us` microseconds: towards the
/// present at its speed, and round to the top of the hour when it gets there.
pub open spec fn lapse_after(back: int, dt_us: int, speed: int) -> int {
    let step = (if dt_us < 0 {
        0
    } else {
        dt_us
    }) * clamped(speed, SPEED_MIN as int, SPEED_MAX as int);
    if back - step <= 0 {
        HOUR_NS as int
    } else {
        back - step
    }
}

/// A quotient to the nearest whole, halves to the even one.
pub open spec fn rounded(n: nat, d: nat) -> nat
    recommends
        d > 0,
{
    let q = n / d;
    let r = n % d;
    if 2 * r > d || (2 * r == d && q % 2 == 1) {
        q + 1
    } else {
        q
    }
}

/// A quotient to the nearest whole, halves to the even one.
pub fn round_even(n: u64, d: u64) -> (r: u64)
    requires
        d > 0,
    ensures
        r == rounded(n as nat, d as nat),
{
    let q: u64 = n / d;
    let m: u64 = n % d;
    let twice: u128 = 2 * (m as u128);
    if twice > d as u128 || (twice == d as u128 && q % 2 == 1) {
        assert(q < u64::MAX) by {
            if d == 1 {
                assert(n % 1 == 0);
            } else {
                assert(n / d <= n / 2) by (nonlinear_arith)
                    requires
                        d >= 2,
                ;
            }
        }
        q + 1
    } else {
        q
    }
}

impl SolarUi {
    /// The invariant: the replay is within the hour.
    pub open spec fn wf(&self) -> bool {
        0 <= self.lapse_back_ns <= HOUR_NS
    }

    /// Whether any of these layers is on.
    pub open spec fn shows(&self, bits: u32) -> bool {
        self.layers & bits != 0
    }

    /// Whether any of these layers is on.
    pub fn layer(&self, bits: u32) -> (r: bool)
        ensures
            r == self.shows(bits),
    {
        self.layers & bits != 0
    }

    /// Switch layers on or off.
    pub fn set_layers(&mut self, bits: u32, on: bool)
        ensures
            *final(self) == (SolarUi {
                layers: if on {
                    old(self).layers | bits
                } else {
                    old(self).layers & !bits
                },
                ..*old(self)
            }),
    {
        if on {
            self.layers = self.layers | bits;
        } else {
            self.layers = self.layers & !bits;
        }
    }

    /// Whether a layer has a button. The awards have one only with a log to
    /// paint them from.
    pub fn has_chip(&self, bits: u32, awards: bool) -> (r: bool)
        ensures
            r == (bits == AWARDS ==> awards),
    {
        bits != AWARDS || awards
    }

    /// A layer's button: it is lit when any of its layers is on, and a press then
    /// switches all of them off.
    pub fn press_layer(&mut self, bits: u32)
        ensures
            *final(self) == (SolarUi {
                layers: if old(self).shows(bits) {
                    old(self).layers & !bits
                } else {
                    old(self).layers | bits
                },
                ..*old(self)
            }),
    {
        let on = self.layer(bits);
        self.set_layers(bits, !on);
    }

    /// The button of the camera's tour. It picks up from where the camera is.
    pub fn press_auto(&mut self)
        ensures
            *final(self) == (SolarUi {
                auto: !old(self).auto,
                resume_tour: old(self).resume_tour || !old(self).auto,
                ..*old(self)
            }),
    {
        self.auto = !self.auto;
        if self.auto {
            self.resume_tour = true;
        }
    }

    /// Take a body as the camera's target.
    pub fn set_focus(&mut self, focus: u8)
        ensures
            *final(self) == (SolarUi { focus, retarget: true, ..*old(self) }),
    {
        self.focus = focus;
        self.retarget = true;
    }

    /// Whether the camera is to be framed on a newly chosen target. Asked once,
    /// it is answered once.
    pub fn take_retarget(&mut self) -> (r: bool)
        ensures
            r == old(self).retarget,
            *final(self) == (SolarUi { retarget: false, ..*old(self) }),
    {
        let r = self.retarget;
        self.retarget = false;
        r
    }

    /// A step in time. None goes back to the present.
    pub fn press_time(&mut self, step_s: Option<i64>)
        ensures
            *final(self) == (SolarUi {
                sim_offset_s: match step_s {
                    None => 0,
                    Some(d) => clamped(
                        old(self).sim_offset_s + d,
                        i64::MIN as int,
                        i64::MAX as int,
                    ) as i64,
                },
                ..*old(self)
            }),
    {
        match step_s {
            None => {
                self.sim_offset_s = 0;
            },
            Some(d) => {
                let to: i128 = self.sim_offset_s as i128 + d as i128;
                self.sim_offset_s = if to < i64::MIN as i128 {
                    i64::MIN
                } else if to > i64::MAX as i128 {
                    i64::MAX
                } else {
                    to as i64
                };
            },
        }
    }

    /// Whether the activity is followed as it happens.
    pub open spec fn live(&self) -> bool {
        self.lapse_back_ns == 0
    }

    /// Whether the activity is followed as it happens.
    pub fn lapse_live(&self) -> (r: bool)
        ensures
            r == self.live(),
    {
        self.lapse_back_ns == 0
    }

    /// Move the replay, within the hour.
    pub fn set_lapse_back(&mut self, back_ns: i64)
        ensures
            *final(self) == (SolarUi {
                lapse_back_ns: clamped(back_ns as int, 0, HOUR_NS as int) as i64,
                ..*old(self)
            }),
            final(self).wf(),
    {
        self.lapse_back_ns = if back_ns < 0 {
            0
        } else if back_ns > HOUR_NS {
            HOUR_NS
        } else {
            back_ns
        };
    }

    /// The live button: stop the replay and follow the band.
    pub fn press_live(&mut self)
        ensures
            *final(self) == (SolarUi { lapse_back_ns: 0, lapse_playing: false, ..*old(self) }),
    {
        self.lapse_playing = false;
        self.set_lapse_back(0);
    }

    /// The replay button. A replay that begins while live starts at the top of
    /// the hour, for there is nothing to replay from the present.
    pub fn press_replay(&mut self)
        ensures
            *final(self) == (SolarUi {
                lapse_playing: !old(self).lapse_playing,
                lapse_back_ns: if !old(self).lapse_playing && old(self).live() {
                    HOUR_NS
                } else {
                    old(self).lapse_back_ns
                },
                ..*old(self)
            }),
    {
        self.lapse_playing = !self.lapse_playing;
        if self.lapse_playing && self.lapse_live() {
            self.set_lapse_back(HOUR_NS);
        }
    }

    /// The replay was dragged to a place in the hour. It stops there.
    pub fn drag_lapse(&mut self, back_ns: i64)
        ensures
            *final(self) == (SolarUi {
                lapse_back_ns: clamped(back_ns as int, 0, HOUR_NS as int) as i64,
                lapse_playing: false,
                ..*old(self)
            }),
    {
        self.set_lapse_back(back_ns);
        self.lapse_playing = false;
    }

    /// Step the replay by `dt_us` microseconds at `speed` thousandths of real
    /// time, looping round the hour. Returns whether it moves.
    pub fn advance_lapse(&mut self, dt_us: i64, speed: i64) -> (moving: bool)
        requires
            old(self).wf(),
        ensures
            moving == old(self).lapse_playing,
            *final(self) == (SolarUi {
                lapse_back_ns: if moving {
                    lapse_after(old(self).lapse_back_ns as int, dt_us as int, speed as int) as i64
                } else {
                    old(self).lapse_back_ns
                },
                ..*old(self)
            }),
            final(self).wf(),
    {
        if !self.lapse_playing {
            return false;
        }
        let dt: i64 = if dt_us < 0 {
            0
        } else {
            dt_us
        };
        let speed: i64 = if speed < SPEED_MIN {
            SPEED_MIN
        } else if speed > SPEED_MAX {
            SPEED_MAX
        } else {
            speed
        };
        assert(0 <= dt * speed <= i64::MAX * 600_000) by (nonlinear_arith)
            requires
                0 <= dt <= i64::MAX,
                0 <= speed <= 600_000,
        ;
        let step: i128 = dt as i128 * speed as i128;
        let back: i128 = self.lapse_back_ns as i128 - step;
        self.lapse_back_ns = if back <= 0 {
            HOUR_NS
        } else {
            back as i64
        };
        true
    }

    /// The line under the replay's controls, for this many decodes in the hour.
    pub fn activity_line(&self, hits: usize) -> (r: (String, Tone))
        requires
            self.wf(),
        ensures
            (r.0@, r.1) == activity_text(*self, hits as nat),
    {
        if !self.layer(QSO) {
            (String::from_str("QSO layer off"), Tone::Watch)
        } else if hits == 0 {
            (String::from_str("no decodes yet"), Tone::Dim)
        } else if self.lapse_live() {
            let mut s = fmt_u64(hits as u64);
            s.append(" in the hour");
            (s, Tone::Good)
        } else {
            let mut s = String::from_str("−");
            s.append(fmt_u64(round_even(self.lapse_back_ns as u64, 60_000_000_000)).as_str());
            s.append(" min");
            (s, Tone::Plain)
        }
    }

    /// A click that labels may take. Returns whether one did. On the open
    /// satellite's label it closes the passes again.
    pub fn click_labels(&mut self, labels: &Vec<Label>, clicked: bool) -> (taken: bool)
        ensures
            taken == (clicked && label_hit(labels@) != Click::Nothing),
            !taken ==> *final(self) == *old(self),
            taken ==> *final(self) == match label_hit(labels@) {
                Click::Sat(id) => SolarUi {
                    selected_sat: if old(self).selected_sat == Some(id) {
                        None
                    } else {
                        Some(id)
                    },
                    ..*old(self)
                },
                Click::Focus(f) => SolarUi { focus: f, retarget: true, ..*old(self) },
                Click::Nothing => *old(self),
            },
    {
        if !clicked {
            return false;
        }
        match find_label(labels) {
            Click::Sat(id) => {
                let open = match self.selected_sat {
                    Some(o) => o == id,
                    None => false,
                };
                self.selected_sat = if open {
                    None
                } else {
                    Some(id)
                };
                true
            },
            Click::Focus(f) => {
                self.set_focus(f);
                true
            },
            Click::Nothing => false,
        }
    }

    /// The body under the pointer. A click that no label took makes it the
    /// target.
    pub fn click_bodies(&mut self, picks: &Vec<Pick>, clicked: bool) -> (r: Option<Pick>)
        ensures
            r == picked(picks@, old(self).focus),
            *final(self) == match r {
                Some(p) if clicked => SolarUi { focus: p.focus, retarget: true, ..*old(self) },
                _ => *old(self),
            },
    {
        let r = find_pick(picks, self.focus);
        if let Some(p) = r {
            if clicked {
                self.set_focus(p.focus);
            }
        }
        r
    }

    /// What the tour flies along: the path to the station being worked, while
    /// its arc is on the screen. A camera that is not on tour has its target
    /// back as the pivot.
    pub fn advance_tour(&mut self, qth: Option<Place>, dx: Option<Place>) -> (r: Option<
        (Place, Place),
    >)
        ensures
            r == match (qth, dx) {
                (Some(home), Some(away)) if old(self).auto && old(self).shows(QSO) => Some(
                    (home, away),
                ),
                _ => None,
            },
            *final(self) == (SolarUi { pivot_overridden: old(self).auto, ..*old(self) }),
    {
        self.pivot_overridden = self.auto;
        if self.auto && self.layer(QSO) {
            if let (Some(home), Some(away)) = (qth, dx) {
                return Some((home, away));
            }
        }
        None
    }

    /// The pointer moved or zoomed the camera: that ends the tour. Returns
    /// whether the next frame is due at once.
    pub fn interact(&mut self, touched: bool, pressed: bool) -> (repaint: bool)
        ensures
            *final(self) == (SolarUi { auto: old(self).auto && !touched, ..*old(self) }),
            repaint == (touched || old(self).auto || pressed),
    {
        if touched {
            self.auto = false;
        }
        touched || self.auto || pressed
    }

    /// A double click on the view: it is framed anew on what it looks at, and the
    /// tour ends.
    pub fn double_click(&mut self)
        ensures
            *final(self) == (SolarUi { retarget: true, auto: false, ..*old(self) }),
    {
        self.retarget = true;
        self.auto = false;
    }
}

impl Default for SolarUi {
    fn default() -> (r: SolarUi)
        ensures
            r == (SolarUi {
                layers: ALL,
                auto: false,
                resume_tour: false,
                pivot_overridden: false,
                focus: 0,
                retarget: false,
                channel: 0,
                refresh_requested: false,
                all_satellites: false,
                sim_offset_s: 0,
                lapse_back_ns: 0,
                lapse_playing: false,
                selected_sat: None,
            }),
            r.wf(),
    {
        SolarUi {
            layers: ALL,
            auto: false,
            resume_tour: false,
            pivot_overridden: false,
            focus: 0,
            retarget: false,
            channel: 0,
            refresh_requested: false,
            all_satellites: false,
            sim_offset_s: 0,
            lapse_back_ns: 0,
            lapse_playing: false,
            selected_sat: None,
        }
    }
}

/// The line under the replay's controls.
pub open spec fn activity_text(st: SolarUi, hits: nat) -> (Seq<char>, Tone) {
    if !st.shows(QSO) {
        ("QSO layer off"@, Tone::Watch)
    } else if hits == 0 {
        ("no decodes yet"@, Tone::Dim)
    } else if st.live() {
        (decimal(hits) + " in the hour"@, Tone::Good)
    } else {
        (
            "−"@ + decimal(rounded(st.lapse_back_ns as nat, 60_000_000_000)) + " min"@,
            Tone::Plain,
        )
    }
}

fn find_label(labels: &Vec<Label>) -> (r: Click)
    ensures
        r == label_hit(labels@),
{
    let mut i: usize = labels.len();
    assert(labels@.take(i as int) =~= labels@);
    while i > 0
        invariant
            i <= labels@.len(),
            label_hit(labels@.take(i as int)) == label_hit(labels@),
        decreases i,
    {
        let l = labels[i - 1];
        assert(labels@.take(i as int).drop_last() =~= labels@.take(i - 1));
        assert(labels@.take(i as int).last() == l);
        if l.under_pointer && l.click != Click::Nothing {
            return l.click;
        }
        i = i - 1;
    }
    Click::Nothing
}

fn find_pick(picks: &Vec<Pick>, focus: u8) -> (r: Option<Pick>)
    ensures
        r == picked(picks@, focus),
{
    let mut best: Option<Pick> = None;
    let mut i: usize = 0;
    while i < picks.len()
        invariant
            i <= picks@.len(),
            best == picked(picks@.take(i as int), focus),
        decreases picks@.len() - i,
    {
        let p = picks[i];
        assert(picks@.take(i + 1).drop_last() =~= picks@.take(i as int));
        assert(picks@.take(i + 1).last() == p);
        if p.focus != focus && p.distance <= p.radius {
            let better = match best {
                None => true,
                Some(b) => is_nearer(p, b),
            };
            if better {
                best = Some(p);
            }
        }
        i = i + 1;
    }
    assert(picks@.take(i as int) =~= picks@);
    best
}

fn is_nearer(a: Pick, b: Pick) -> (r: bool)
    ensures
        r == nearer(a, b),
{
    proof {
        assert(a.distance * b.radius <= u32::MAX * u32::MAX) by (nonlinear_arith)
            requires
                a.distance <= u32::MAX,
                b.radius <= u32::MAX,
        ;
        assert(b.distance * a.radius <= u32::MAX * u32::MAX) by (nonlinear_arith)
            requires
                b.distance <= u32::MAX,
                a.radius <= u32::MAX,
        ;
    }
    (a.distance as u64) * (b.radius as u64) < (b.distance as u64) * (a.radius as u64)
}

/// The picked body is one that can be picked, and no other of them is nearer.
/// So a moon in front of its planet can be reached.
pub proof fn law_nearest_is_picked(picks: Seq<Pick>, focus: u8, i: int)
    requires
        forall|j: int| 0 <= j < picks.len() ==> (#[trigger] picks[j]).radius > 0,
        0 <= i < picks.len(),
        pickable(picks[i], focus),
    ensures
        picked(picks, focus) matches Some(p) && {
            &&& picks.contains(p)
            &&& pickable(p, focus)
            &&& !nearer(picks[i], p)
        },
    decreases picks.len(),
{
    let rest = picks.drop_last();
    let p = picks.last();
    assert(picks.contains(p)) by {
        assert(picks[picks.len() - 1] == p);
    }
    if i < rest.len() {
        law_nearest_is_picked(rest, focus, i);
        let best = picked(rest, focus)->0;
        let k = choose|k: int| 0 <= k < rest.len() && rest[k] == best;
        assert(picks[k] == best);
        if pickable(p, focus) && nearer(p, best) {
            let q = picks[i];
            assert(!nearer(q, p)) by (nonlinear_arith)
                requires
                    p.distance * best.radius < best.distance * p.radius,
                    q.distance * best.radius >= best.distance * q.radius,
                    p.radius > 0,
                    q.radius > 0,
                    best.radius > 0,
            ;
        }
    } else if !(picked(rest, focus) is None) {
        lemma_picked_is_one(rest, focus);
        let best = picked(rest, focus)->0;
        let k = choose|k: int| 0 <= k < rest.len() && rest[k] == best;
        assert(picks[k] == best);
    }
}

proof fn lemma_picked_is_one(picks: Seq<Pick>, focus: u8)
    ensures
        picked(picks, focus) matches Some(p) ==> picks.contains(p) && pickable(p, focus),
    decreases picks.len(),
{
    if picks.len() > 0 {
        let rest = picks.drop_last();
        lemma_picked_is_one(rest, focus);
        assert(picks[picks.len() - 1] == picks.last());
        if let Some(b) = picked(rest, focus) {
            let k = choose|k: int| 0 <= k < rest.len() && rest[k] == b;
            assert(picks[k] == b);
        }
    }
}

/// A replay that runs never stops at the present: it stays within the hour and
/// behind now.
pub proof fn law_replay_loops(back: int, dt_us: int, speed: int)
    requires
        0 <= back <= HOUR_NS,
    ensures
        0 < lapse_after(back, dt_us, speed) <= HOUR_NS,
        dt_us > 0 ==> lapse_after(back, dt_us, speed) != back || back == HOUR_NS,
{
    let s = clamped(speed, SPEED_MIN as int, SPEED_MAX as int);
    let dt = if dt_us < 0 {
        0
    } else {
        dt_us
    };
    assert(dt * s >= 0) by (nonlinear_arith)
        requires
            dt >= 0,
            s > 0,
    ;
    if dt_us > 0 {
        assert(dt * s > 0) by (nonlinear_arith)
            requires
                dt > 0,
                s > 0,
        ;
    }
}

/// A click goes to the label that is drawn on top: of those under the pointer that
/// take clicks, the last one.
pub proof fn law_topmost_label_takes_the_click(labels: Seq<Label>, i: int)
    requires
        0 <= i < labels.len(),
        labels[i].under_pointer,
        labels[i].click != Click::Nothing,
        forall|k: int|
            i < k < labels.len() ==> !(#[trigger] labels[k]).under_pointer || labels[k].click
                == Click::Nothing,
    ensures
        label_hit(labels) == labels[i].click,
    decreases labels.len(),
{
    if i < labels.len() - 1 {
        let t = labels.drop_last();
        assert(t[i] == labels[i]);
        assert(forall|k: int| 0 <= k < t.len() ==> t[k] == labels[k]);
        assert(labels[labels.len() - 1] == labels.last());
        law_topmost_label_takes_the_click(t, i);
    }
}

/// A click that no label is under is taken by none.
pub proof fn law_a_miss_takes_no_label(labels: Seq<Label>)
    requires
        forall|k: int|
            0 <= k < labels.len() ==> !(#[trigger] labels[k]).under_pointer || labels[k].click
                == Click::Nothing,
    ensures
        label_hit(labels) == Click::Nothing,
    decreases labels.len(),
{
    if labels.len() > 0 {
        let t = labels.drop_last();
        assert(forall|k: int| 0 <= k < t.len() ==> t[k] == labels[k]);
        assert(labels[labels.len() - 1] == labels.last());
        law_a_miss_takes_no_label(t);
    }
}

/// A click takes a body that the pointer is on and that is not the target already,
/// of those the one whose centre is nearest in terms of its own radius; where there
/// is none it takes nothing.
pub proof fn law_click_takes_the_body_under_it(picks: Seq<Pick>, focus: u8, i: int)
    requires
        forall|j: int| 0 <= j < picks.len() ==> (#[trigger] picks[j]).radius > 0,
        0 <= i < picks.len(),
    ensures
        picks[i].focus != focus && picks[i].distance <= picks[i].radius ==> (picked(
            picks,
            focus,
        ) matches Some(p) && p.focus != focus && p.distance <= p.radius && p.distance
            * picks[i].radius <= picks[i].distance * p.radius),
        picked(picks, focus) matches Some(p) ==> p.focus != focus && p.distance <= p.radius
            && picks.contains(p),
    decreases picks.len(),
{
    if pickable(picks[i], focus) {
        law_nearest_is_picked(picks, focus, i);
    }
    let t = picks.drop_last();
    assert(forall|k: int| 0 <= k < t.len() ==> t[k] == picks[k]);
    if picked(picks, focus) is Some {
        if t.len() > 0 {
            law_click_takes_the_body_under_it(t, focus, 0);
            if picked(t, focus) is Some {
                let k = choose|k: int| 0 <= k < t.len() && t[k] == picked(t, focus)->0;
                assert(picks[k] == picked(t, focus)->0);
            }
        } else {
            assert(picked(t, focus) is None);
        }
        assert(picks[picks.len() - 1] == picks.last());
    }
}

/// A replay runs through the hour at its speed, in thousandths of real time and
/// within one and six hundred times that: it comes nearer to now by the time that
/// went by, in microseconds, times the speed. On reaching now it starts over an hour
/// back.
pub proof fn law_replay_runs_at_its_speed(back: int, dt_us: int, speed: int)
    requires
        0 <= dt_us,
    ensures
        ({
            let s = if speed < 1_000 {
                1_000
            } else if speed > 600_000 {
                600_000
            } else {
                speed
            };
            &&& back > dt_us * s ==> back - lapse_after(back, dt_us, speed) == dt_us * s
            &&& back <= dt_us * s ==> lapse_after(back, dt_us, speed) == 3_600_000_000_000
            &&& lapse_after(back, -dt_us, speed) == if back > 0 {
                back
            } else if dt_us == 0 {
                lapse_after(back, 0, speed)
            } else {
                3_600_000_000_000
            }
        }),
{
    assert(0 * clamped(speed, SPEED_MIN as int, SPEED_MAX as int) == 0);
}

/// A rounded quotient is at most half a unit off, and of two that are as near the
/// even one.
pub proof fn law_rounding_is_to_the_nearest(n: nat, d: nat)
    requires
        d > 0,
    ensures
        2 * n <= 2 * d * rounded(n, d) + d,
        2 * d * rounded(n, d) <= 2 * n + d,
        2 * n == 2 * d * rounded(n, d) + d || 2 * d * rounded(n, d) == 2 * n + d ==> rounded(n, d) % 2
            == 0,
{
    let (q, r) = (n / d, n % d);
    assert(n == d * q + r && 0 <= r < d) by (nonlinear_arith)
        requires
            q == n / d,
            r == n % d,
            d > 0,
    ;
    assert(d * (q + 1) == d * q + d) by (nonlinear_arith);
    assert(2 * d * q == 2 * (d * q)) by (nonlinear_arith);
    assert(2 * d * (q + 1) == 2 * (d * (q + 1))) by (nonlinear_arith);
}

/// A layer's button does what it shows: a press on a lit one leaves none of its layers
/// on, a press on a dark one lights it, and either way the other layers stay.
pub proof fn law_layer_buttons_switch_their_layers(st: SolarUi, bits: u32, other: u32)
    requires
        bits != 0,
    ensures
        (SolarUi { layers: st.layers | bits, ..st }).shows(bits),
        !(SolarUi { layers: st.layers & !bits, ..st }).shows(bits),
        bits & other == 0 ==> (SolarUi { layers: st.layers | bits, ..st }).shows(other) == st.shows(
            other,
        ) && (SolarUi { layers: st.layers & !bits, ..st }).shows(other) == st.shows(other),
{
    law_switching_is_local(st.layers, bits, other);
}

/// The line under the replay says how far back it is, in minutes to the nearest, and
/// while the band is followed how many decodes there are.
pub proof fn law_replay_line_counts_minutes(st: SolarUi, hits: nat, minutes: nat)
    requires
        st.shows(QSO),
        hits > 0,
        st.wf(),
    ensures
        st.lapse_back_ns == 0 ==> activity_text(st, hits).0 == decimal(hits) + " in the hour"@,
        st.lapse_back_ns > 0 && 60_000_000_000 * minutes - 30_000_000_000 < st.lapse_back_ns
            < 60_000_000_000 * minutes + 30_000_000_000 ==> activity_text(st, hits).0 == "−"@
            + decimal(minutes) + " min"@,
{
}

} // verus!
