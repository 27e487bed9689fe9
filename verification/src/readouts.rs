//! The readouts over the solar-system scene: freshness, propagation, aurora,
//! clouds, coronal mass ejections and the clock.
use crate::decodes::slot_text;
use crate::solar::{round_even, rounded, Tone};
use crate::text::{decimal, fmt_padded, fmt_u64, lemma_two_digits, zero_padded};
use crate::utc::{law_time_of_day, time_text, utc_of, utc_ymd_hms, Utc};
use vstd::prelude::*;

verus! {

/// How long an arrival estimate stays up after its time, in seconds; estimates
/// are often off by that much.
pub const ARRIVAL_GRACE_S: i64 = 21_600;

/// How many bins of the forecast are drawn: a day of three-hour bins.
pub const STRIP_BINS: usize = 8;

/// A line of a readout.
#[derive(Debug)]
pub struct Row {
    pub label: String,
    pub value: String,
    pub tone: Tone,
}

/// A line of a readout, as its texts.
pub open spec fn row_view(r: Row) -> (Seq<char>, Seq<char>, Tone) {
    (r.label@, r.value@, r.tone)
}

/// The lines of a readout, as their texts.
pub open spec fn rows_view(v: Seq<Row>) -> Seq<(Seq<char>, Seq<char>, Tone)> {
    v.map_values(|r: Row| row_view(r))
}

fn push_row(rows: &mut Vec<Row>, label: &str, value: String, tone: Tone)
    ensures
        rows_view(final(rows)@) == rows_view(old(rows)@).push((label@, value@, tone)),
{
    rows.push(Row { label: String::from_str(label), value, tone });
    assert(rows_view(rows@) =~= rows_view(old(rows)@).push((label@, value@, tone)));
}

/// What is known of the picture of the Sun.
#[derive(Debug)]
pub struct SunStatus {
    /// How old it is, as text, if there is one.
    pub age: Option<String>,
    /// Whether the last fetch failed.
    pub failed: bool,
}

/// What to say of the picture of the Sun: never that old data is current.
pub open spec fn freshness_text(s: Option<SunStatus>) -> (Seq<char>, Tone) {
    match s {
        None => ("starting…"@, Tone::Dim),
        Some(s) => match s.age {
            Some(age) => if s.failed {
                (age@ + " · offline"@, Tone::Watch)
            } else {
                (age@, Tone::Good)
            },
            None => if s.failed {
                ("offline"@, Tone::Bad)
            } else {
                ("…"@, Tone::Dim)
            },
        },
    }
}

/// What to say of the picture of the Sun. None while there is no feed yet.
pub fn freshness(s: &Option<SunStatus>) -> (r: (String, Tone))
    ensures
        (r.0@, r.1) == freshness_text(*s),
{
    match s {
        None => (String::from_str("starting…"), Tone::Dim),
        Some(s) => match &s.age {
            Some(age) => if s.failed {
                let mut t = age.clone();
                t.append(" · offline");
                (t, Tone::Watch)
            } else {
                (age.clone(), Tone::Good)
            },
            None => if s.failed {
                (String::from_str("offline"), Tone::Bad)
            } else {
                (String::from_str("…"), Tone::Dim)
            },
        },
    }
}

/// The numbers of the propagation readout. Each measured quantity comes rounded
/// down to a whole, for its colour, and as text.
#[derive(Debug)]
pub struct Weather {
    /// Whether the operator's place is known.
    pub placed: bool,
    /// The highest usable frequency there: in kilohertz, and in megahertz as text.
    pub muf: Option<(i64, String)>,
    /// The planetary K in hundredths, K as text, A as text.
    pub geomagnetic: Option<(i64, String, String)>,
    /// The solar flux, and as text.
    pub flux: Option<(i64, String)>,
    /// The X-ray class, and whether it blacks out the lower bands.
    pub xray: Option<(String, bool)>,
}

/// The colour of the highest usable frequency.
pub open spec fn muf_tone(khz: int) -> Tone {
    if khz >= 24_000 {
        Tone::Good
    } else if khz >= 14_000 {
        Tone::Plain
    } else {
        Tone::Watch
    }
}

/// The colour of a planetary K: a storm from five, worth watching from four.
pub open spec fn kp_tone(hundredths: int) -> Tone {
    if hundredths >= 500 {
        Tone::Bad
    } else if hundredths >= 400 {
        Tone::Watch
    } else {
        Tone::Good
    }
}

/// The colour of the solar flux.
pub open spec fn flux_tone(sfu: int) -> Tone {
    if sfu >= 150 {
        Tone::Good
    } else if sfu >= 90 {
        Tone::Plain
    } else {
        Tone::Watch
    }
}

fn tone_of_kp(hundredths: i64) -> (r: Tone)
    ensures
        r == kp_tone(hundredths as int),
{
    if hundredths >= 500 {
        Tone::Bad
    } else if hundredths >= 400 {
        Tone::Watch
    } else {
        Tone::Good
    }
}

/// The lines of the propagation readout.
pub open spec fn weather_text(w: Weather) -> Seq<(Seq<char>, Seq<char>, Tone)> {
    (if w.placed {
        match w.muf {
            Some(m) => seq![("MUF"@, m.1@ + " MHz"@, muf_tone(m.0 as int))],
            None => seq![("MUF"@, "no sounder"@, Tone::Faint)],
        }
    } else {
        seq![]
    }) + (match w.geomagnetic {
        Some(g) => seq![("Kp / A"@, g.1@ + " / "@ + g.2@, kp_tone(g.0 as int))],
        None => seq![],
    }) + (match w.flux {
        Some(f) => seq![("F10.7"@, f.1@ + " sfu"@, flux_tone(f.0 as int))],
        None => seq![],
    }) + (match w.xray {
        Some(x) => seq![
            (
                "X-ray"@,
                x.0@,
                if x.1 {
                    Tone::Bad
                } else {
                    Tone::Dim
                },
            ),
        ],
        None => seq![],
    })
}

/// The lines of the propagation readout; with none it is not drawn.
pub fn weather_rows(w: &Weather) -> (r: Vec<Row>)
    ensures
        rows_view(r@) == weather_text(*w),
{
    let mut rows: Vec<Row> = Vec::new();
    assert(rows_view(rows@) =~= seq![]);
    if w.placed {
        match &w.muf {
            Some(m) => {
                let mut t = m.1.clone();
                t.append(" MHz");
                let tone = if m.0 >= 24_000 {
                    Tone::Good
                } else if m.0 >= 14_000 {
                    Tone::Plain
                } else {
                    Tone::Watch
                };
                push_row(&mut rows, "MUF", t, tone);
            },
            None => {
                push_row(&mut rows, "MUF", String::from_str("no sounder"), Tone::Faint);
            },
        }
    }
    if let Some(g) = &w.geomagnetic {
        let mut t = g.1.clone();
        t.append(" / ");
        t.append(g.2.as_str());
        let tone = tone_of_kp(g.0);
        push_row(&mut rows, "Kp / A", t, tone);
    }
    if let Some(f) = &w.flux {
        let mut t = f.1.clone();
        t.append(" sfu");
        let tone = if f.0 >= 150 {
            Tone::Good
        } else if f.0 >= 90 {
            Tone::Plain
        } else {
            Tone::Watch
        };
        push_row(&mut rows, "F10.7", t, tone);
    }
    if let Some(x) = &w.xray {
        let tone = if x.1 {
            Tone::Bad
        } else {
            Tone::Dim
        };
        push_row(&mut rows, "X-ray", x.0.clone(), tone);
    }
    assert(rows_view(rows@) =~= weather_text(*w));
    rows
}

/// The power that goes into the ovals.
#[derive(Debug)]
pub struct AuroraPower {
    /// North and south, in gigawatts, as text.
    pub north: String,
    pub south: String,
    /// What the stronger one is called, and its index.
    pub words: String,
    pub index: u64,
}

/// The auroral oval.
#[derive(Debug)]
pub struct AuroraOval {
    /// How far it reaches towards the equator, as text, where it is strong
    /// enough to have an edge.
    pub north_edge: Option<String>,
    pub south_edge: Option<String>,
    /// The operator's square, the chance there as text, and its colour.
    pub home: Option<(String, String, Tone)>,
}

/// The worst forecast of the coming day.
#[derive(Debug)]
pub struct KpPeak {
    pub unix: i64,
    /// The planetary K in hundredths, and as text.
    pub kp: (i64, String),
    /// How far the aurora can be seen then, as text.
    pub viewline: String,
}

/// What is known of the aurora.
#[derive(Debug)]
pub struct Aurora {
    pub power: Option<AuroraPower>,
    pub oval: Option<AuroraOval>,
    pub peak: Option<KpPeak>,
}

/// The colour of the power index.
pub open spec fn index_tone(index: int) -> Tone {
    if 8 <= index <= 10 {
        Tone::Bad
    } else if 6 <= index <= 7 {
        Tone::Watch
    } else {
        Tone::Good
    }
}

/// An edge of the oval, or a dash where it has none.
pub open spec fn edge_text(e: Option<String>) -> Seq<char> {
    match e {
        Some(t) => t@,
        None => "—"@,
    }
}

/// When the peak comes: now, if that is less than an hour and a half away, or in
/// so many hours.
pub open spec fn peak_text(kp: Seq<char>, unix: int, now: int) -> Seq<char> {
    let away = if unix > now {
        unix - now
    } else {
        0
    };
    if away < 5400 {
        kp + " now"@
    } else {
        kp + " in "@ + decimal(rounded(away as nat, 3600)) + " h"@
    }
}

/// The lines of the power.
pub open spec fn power_text(p: Option<AuroraPower>) -> Seq<(Seq<char>, Seq<char>, Tone)> {
    match p {
        Some(p) => seq![
            ("power N/S"@, p.north@ + " / "@ + p.south@ + " GW"@, index_tone(p.index as int)),
            (
                "activity"@,
                p.words@ + " · HPI "@ + decimal(p.index as nat),
                index_tone(p.index as int),
            ),
        ],
        None => seq![],
    }
}

/// The lines of the oval. One too weak to have an edge on either side has no
/// line for it.
pub open spec fn oval_text(o: Option<AuroraOval>) -> Seq<(Seq<char>, Seq<char>, Tone)> {
    match o {
        Some(o) => (if o.north_edge is Some || o.south_edge is Some {
            seq![
                (
                    "edge N/S"@,
                    edge_text(o.north_edge) + " / "@ + edge_text(o.south_edge),
                    Tone::Plain,
                ),
            ]
        } else {
            seq![]
        }) + (match o.home {
            Some(h) => seq![(h.0@, h.1@ + " %"@, h.2)],
            None => seq![],
        }),
        None => seq![],
    }
}

/// The lines of the forecast.
pub open spec fn forecast_text(p: Option<KpPeak>, now: int) -> Seq<(Seq<char>, Seq<char>, Tone)> {
    match p {
        Some(p) => seq![
            ("Kp peak 24 h"@, peak_text(p.kp.1@, p.unix as int, now), kp_tone(p.kp.0 as int)),
            ("viewline"@, p.viewline@ + "° geomag"@, kp_tone(p.kp.0 as int)),
        ],
        None => seq![],
    }
}

fn edge_of(e: &Option<String>) -> (r: String)
    ensures
        r@ == edge_text(*e),
{
    match e {
        Some(t) => t.clone(),
        None => String::from_str("—"),
    }
}

/// When the peak comes.
pub fn peak_when(kp: &str, unix: i64, now: i64) -> (r: String)
    ensures
        r@ == peak_text(kp@, unix as int, now as int),
{
    let away: i128 = if unix > now {
        unix as i128 - now as i128
    } else {
        0
    };
    let mut t = String::from_str(kp);
    if away < 5400 {
        t.append(" now");
    } else {
        t.append(" in ");
        t.append(fmt_u64(round_even(away as u64, 3600)).as_str());
        t.append(" h");
    }
    t
}

fn push_power(rows: &mut Vec<Row>, p: &AuroraPower)
    ensures
        rows_view(final(rows)@) == rows_view(old(rows)@) + power_text(Some(*p)),
{
    let tone = if 8 <= p.index && p.index <= 10 {
        Tone::Bad
    } else if 6 <= p.index && p.index <= 7 {
        Tone::Watch
    } else {
        Tone::Good
    };
    let mut t = p.north.clone();
    t.append(" / ");
    t.append(p.south.as_str());
    t.append(" GW");
    push_row(rows, "power N/S", t, tone);
    let mut t = p.words.clone();
    t.append(" · HPI ");
    t.append(fmt_u64(p.index).as_str());
    push_row(rows, "activity", t, tone);
    assert(rows_view(rows@) =~= rows_view(old(rows)@) + power_text(Some(*p)));
}

fn push_oval(rows: &mut Vec<Row>, o: &AuroraOval)
    ensures
        rows_view(final(rows)@) == rows_view(old(rows)@) + oval_text(Some(*o)),
{
    if o.north_edge.is_some() || o.south_edge.is_some() {
        let mut t = edge_of(&o.north_edge);
        t.append(" / ");
        t.append(edge_of(&o.south_edge).as_str());
        push_row(rows, "edge N/S", t, Tone::Plain);
    }
    if let Some(h) = &o.home {
        let mut t = h.1.clone();
        t.append(" %");
        push_row(rows, h.0.as_str(), t, h.2);
    }
    assert(rows_view(rows@) =~= rows_view(old(rows)@) + oval_text(Some(*o)));
}

/// The lines of the aurora readout: the power, the oval, the forecast. With no
/// line it is not drawn, for an empty box would say that there is no aurora.
pub fn aurora_rows(a: &Aurora, now: i64) -> (r: Vec<Row>)
    ensures
        rows_view(r@) == power_text(a.power) + oval_text(a.oval) + forecast_text(
            a.peak,
            now as int,
        ),
{
    let mut rows: Vec<Row> = Vec::new();
    assert(rows_view(rows@) =~= seq![]);
    if let Some(p) = &a.power {
        push_power(&mut rows, p);
    }
    assert(rows_view(rows@) =~= power_text(a.power));
    if let Some(o) = &a.oval {
        push_oval(&mut rows, o);
    }
    assert(rows_view(rows@) =~= power_text(a.power) + oval_text(a.oval));
    if let Some(p) = &a.peak {
        let tone = tone_of_kp(p.kp.0);
        push_row(&mut rows, "Kp peak 24 h", peak_when(p.kp.1.as_str(), p.unix, now), tone);
        let mut t = p.viewline.clone();
        t.append("° geomag");
        push_row(&mut rows, "viewline", t, tone);
    }
    assert(rows_view(rows@) =~= power_text(a.power) + oval_text(a.oval) + forecast_text(
        a.peak,
        now as int,
    ));
    rows
}

/// The hour under the forecast strip, as `21z`.
pub fn hour_stamp(unix: i64) -> (r: String)
    ensures
        r@ == zero_padded(utc_of(unix as int).hour as int, 2).push('z'),
{
    let u = utc_ymd_hms(unix);
    proof {
        crate::utc::law_utc_unique(u, utc_of(unix as int));
    }
    let mut t = fmt_padded(u.hour as i64, 2);
    t.push('z');
    t
}

/// How many bins of a forecast are drawn.
pub open spec fn strip_len(bins: int) -> int {
    if bins < STRIP_BINS {
        bins
    } else {
        STRIP_BINS as int
    }
}

/// The forecast strip: how many bins it has, and the hours under its ends.
pub fn strip(bins: &Vec<i64>) -> (r: Option<(usize, String, String)>)
    ensures
        match r {
            None => bins@.len() == 0,
            Some(s) => {
                &&& s.0 > 0
                &&& s.0 == strip_len(bins@.len() as int)
                &&& s.1@ == zero_padded(utc_of(bins@[0] as int).hour as int, 2).push('z')
                &&& s.2@ == zero_padded(utc_of(bins@[s.0 - 1] as int).hour as int, 2).push('z')
            },
        },
{
    let n: usize = if bins.len() < STRIP_BINS {
        bins.len()
    } else {
        STRIP_BINS
    };
    if n == 0 {
        return None;
    }
    Some((n, hour_stamp(bins[0]), hour_stamp(bins[n - 1])))
}

/// How old something is, in seconds; what is ahead of now is new.
pub fn age_secs(now: i64, then: i64) -> (r: i64)
    ensures
        r == if now <= then {
            0
        } else if now - then > i64::MAX {
            i64::MAX as int
        } else {
            now - then
        },
{
    let age: i128 = now as i128 - then as i128;
    if age <= 0 {
        0
    } else if age > i64::MAX as i128 {
        i64::MAX
    } else {
        age as i64
    }
}

/// How many ejections are on the screen: those that left within the window. None
/// stands for one that was not analysed.
pub open spec fn cmes_shown(left: Seq<Option<i64>>, now: int, window_h: int) -> nat
    decreases left.len(),
{
    if left.len() == 0 {
        0
    } else {
        cmes_shown(left.drop_last(), now, window_h) + (match left.last() {
            Some(t) if 0 <= now - t < window_h * 3600 => 1nat,
            _ => 0nat,
        })
    }
}

/// How many ejections are on the screen.
pub fn count_cmes(left: &Vec<Option<i64>>, now: i64, window_h: i32) -> (r: usize)
    ensures
        r == cmes_shown(left@, now as int, window_h as int),
{
    let mut n: usize = 0;
    let mut i: usize = 0;
    while i < left.len()
        invariant
            i <= left@.len(),
            n <= i,
            n == cmes_shown(left@.take(i as int), now as int, window_h as int),
        decreases left@.len() - i,
    {
        assert(left@.take(i + 1).drop_last() =~= left@.take(i as int));
        assert(left@.take(i + 1).last() == left@[i as int]);
        if let Some(t) = left[i] {
            let age: i128 = now as i128 - t as i128;
            if 0 <= age && age < window_h as i128 * 3600 {
                n = n + 1;
            }
        }
        i = i + 1;
    }
    assert(left@.take(i as int) =~= left@);
    n
}

/// The line that says what the feed holds.
pub fn feed_line(cmes: usize, spots: usize) -> (r: String)
    ensures
        r@ == decimal(cmes as nat) + " CME · "@ + decimal(spots as nat) + " spots"@,
{
    let mut t = fmt_u64(cmes as u64);
    t.append(" CME · ");
    t.append(fmt_u64(spots as u64).as_str());
    t.append(" spots");
    t
}

/// The line that says where the tour is.
pub fn tour_line(in_transit: bool, leg: &str) -> (r: String)
    ensures
        r@ == "AUTO  "@ + (if in_transit {
            "→ "@
        } else {
            ""@
        }) + leg@,
{
    let mut t = String::from_str("AUTO  ");
    t.append(
        if in_transit {
            "→ "
        } else {
            ""
        },
    );
    t.append(leg);
    t
}

/// The line under the cloud deck.
pub open spec fn clouds_text(
    frame: Seq<char>,
    age: Seq<char>,
    has_visible: bool,
    storms: nat,
) -> Seq<char> {
    "CLOUDS  "@ + frame + "  ·  "@ + age + " old  ·  "@ + (if has_visible {
        "IR+VIS"@
    } else {
        "IR only"@
    }) + "  ·  "@ + (if storms == 0 {
        "no deep convection"@
    } else if storms == 1 {
        "1 storm"@
    } else {
        decimal(storms) + " storms"@
    }) + "  ·  lightning simulated"@
}

/// The line under the cloud deck: the hour that the picture is of, never the
/// hour it is now, and that the flashes are made up.
pub fn clouds_note(frame: &str, age: &str, has_visible: bool, storms: usize) -> (r: String)
    ensures
        r@ == clouds_text(frame@, age@, has_visible, storms as nat),
{
    let mut t = String::from_str("CLOUDS  ");
    t.append(frame);
    t.append("  ·  ");
    t.append(age);
    t.append(" old  ·  ");
    t.append(
        if has_visible {
            "IR+VIS"
        } else {
            "IR only"
        },
    );
    t.append("  ·  ");
    if storms == 0 {
        t.append("no deep convection");
    } else if storms == 1 {
        t.append("1 storm");
    } else {
        let mut n = fmt_u64(storms as u64);
        n.append(" storms");
        t.append(n.as_str());
    }
    t.append("  ·  lightning simulated");
    t
}

/// The legend of the awards, a line for each state.
pub fn award_legend(missing: usize, worked: usize, confirmed: usize) -> (r: Vec<String>)
    ensures
        r@.len() == 3,
        r@[0]@ == "missing  "@ + decimal(missing as nat),
        r@[1]@ == "worked  "@ + decimal(worked as nat),
        r@[2]@ == "confirmed  "@ + decimal(confirmed as nat),
{
    let mut a = String::from_str("missing  ");
    a.append(fmt_u64(missing as u64).as_str());
    let mut b = String::from_str("worked  ");
    b.append(fmt_u64(worked as u64).as_str());
    let mut c = String::from_str("confirmed  ");
    c.append(fmt_u64(confirmed as u64).as_str());
    let mut out: Vec<String> = Vec::new();
    out.push(a);
    out.push(b);
    out.push(c);
    out
}

/// Whether an arrival is still worth a banner.
pub open spec fn arrival_due(eta: Option<i64>, now: int) -> bool {
    eta matches Some(e) && e >= now - ARRIVAL_GRACE_S
}

/// The soonest arrival that is still worth a banner, by its place; the first of
/// those equally soon. None stands for an ejection that misses the Earth or was
/// not analysed.
pub open spec fn soonest(etas: Seq<Option<i64>>, now: int) -> Option<int>
    decreases etas.len(),
{
    if etas.len() == 0 {
        None
    } else {
        let best = soonest(etas.drop_last(), now);
        if arrival_due(etas.last(), now) && (best matches Some(b) ==> etas.last()->0
            < etas[b]->0) {
            Some(etas.len() - 1)
        } else {
            best
        }
    }
}

/// The soonest arrival that is still worth a banner, by its place.
pub fn soonest_arrival(etas: &Vec<Option<i64>>, now: i64) -> (r: Option<usize>)
    ensures
        match r {
            Some(i) => soonest(etas@, now as int) == Some(i as int),
            None => soonest(etas@, now as int) is None,
        },
{
    let mut best: Option<(usize, i64)> = None;
    let mut i: usize = 0;
    while i < etas.len()
        invariant
            i <= etas@.len(),
            match best {
                Some(b) => b.0 < i && etas@[b.0 as int] == Some(b.1) && soonest(
                    etas@.take(i as int),
                    now as int,
                ) == Some(b.0 as int),
                None => soonest(etas@.take(i as int), now as int) is None,
            },
        decreases etas@.len() - i,
    {
        assert(etas@.take(i + 1).drop_last() =~= etas@.take(i as int));
        assert(etas@.take(i + 1).last() == etas@[i as int]);
        if let Some(e) = etas[i] {
            if e as i128 >= now as i128 - ARRIVAL_GRACE_S as i128 {
                let sooner = match best {
                    Some(b) => e < b.1,
                    None => true,
                };
                if sooner {
                    best = Some((i, e));
                }
            }
        }
        i = i + 1;
    }
    assert(etas@.take(i as int) =~= etas@);
    match best {
        Some(b) => Some(b.0),
        None => None,
    }
}

/// The banner's arrival is still due, and no other that is due comes sooner.
pub proof fn law_banner_shows_the_soonest(etas: Seq<Option<i64>>, now: int, i: int)
    requires
        0 <= i < etas.len(),
        arrival_due(etas[i], now),
    ensures
        soonest(etas, now) matches Some(b) && {
            &&& 0 <= b < etas.len()
            &&& arrival_due(etas[b], now)
            &&& etas[b]->0 <= etas[i]->0
        },
    decreases etas.len(),
{
    let rest = etas.drop_last();
    if i < rest.len() {
        law_banner_shows_the_soonest(rest, now, i);
    } else {
        lemma_soonest_is_due(rest, now);
    }
}

proof fn lemma_soonest_is_due(etas: Seq<Option<i64>>, now: int)
    ensures
        soonest(etas, now) matches Some(b) ==> 0 <= b < etas.len() && arrival_due(etas[b], now),
    decreases etas.len(),
{
    if etas.len() > 0 {
        lemma_soonest_is_due(etas.drop_last(), now);
    }
}

/// What the banner says of an ejection.
#[derive(Debug)]
pub struct Arrival {
    pub eta_unix: i64,
    /// The estimate, when it left, and its speed, as text.
    pub eta: String,
    pub left: String,
    pub km_s: String,
    pub glancing: bool,
    /// Whether its direction is an estimate.
    pub estimated: bool,
}

/// When an ejection arrives, or did.
pub open spec fn arrival_text(eta: Seq<char>, ahead: int) -> Seq<char> {
    if ahead >= 0 {
        "ETA "@ + eta + " (+"@ + decimal(rounded(ahead as nat, 3600)) + " h)"@
    } else {
        "arrival was "@ + eta + " ("@ + decimal(rounded((-ahead) as nat, 3600)) + " h ago)"@
    }
}

/// The banner.
pub open spec fn banner_text(a: Arrival, now: int) -> Seq<char> {
    "EARTH-DIRECTED CME  "@ + a.left@ + "  ·  "@ + a.km_s@ + " km/s  ·  "@ + arrival_text(
        a.eta@,
        a.eta_unix - now,
    ) + (if a.glancing {
        " · glancing"@
    } else {
        ""@
    }) + (if a.estimated {
        " · direction estimated"@
    } else {
        ""@
    })
}

fn arrival_when(eta: &str, eta_unix: i64, now: i64) -> (r: String)
    ensures
        r@ == arrival_text(eta@, eta_unix - now),
{
    let ahead: i128 = eta_unix as i128 - now as i128;
    if ahead >= 0 {
        let mut t = String::from_str("ETA ");
        t.append(eta);
        t.append(" (+");
        t.append(fmt_u64(round_even(ahead as u64, 3600)).as_str());
        t.append(" h)");
        t
    } else {
        let mut t = String::from_str("arrival was ");
        t.append(eta);
        t.append(" (");
        t.append(fmt_u64(round_even((-ahead) as u64, 3600)).as_str());
        t.append(" h ago)");
        t
    }
}

/// The banner of an ejection that is to hit the Earth.
pub fn impact_banner(a: &Arrival, now: i64) -> (r: String)
    ensures
        r@ == banner_text(*a, now as int),
{
    let mut t = String::from_str("EARTH-DIRECTED CME  ");
    t.append(a.left.as_str());
    t.append("  ·  ");
    t.append(a.km_s.as_str());
    t.append(" km/s  ·  ");
    t.append(arrival_when(a.eta.as_str(), a.eta_unix, now).as_str());
    t.append(
        if a.glancing {
            " · glancing"
        } else {
            ""
        },
    );
    t.append(
        if a.estimated {
            " · direction estimated"
        } else {
            ""
        },
    );
    t
}

/// The time of day to the second.
pub open spec fn clock_text(u: Utc) -> Seq<char> {
    zero_padded(u.hour as int, 2).push(':') + zero_padded(u.minute as int, 2).push(':')
        + zero_padded(u.second as int, 2)
}

/// The clock: the time of day, and what it is: the present, or a moment that the
/// scene was moved to.
pub fn clock(unix: i64, moved: bool) -> (r: (String, String))
    ensures
        r.0@ == clock_text(utc_of(unix as int)),
        r.1@ == if moved {
            "-- SIM"@
        } else {
            "UTC"@
        },
{
    let u = utc_ymd_hms(unix);
    proof {
        crate::utc::law_utc_unique(u, utc_of(unix as int));
    }
    let mut t = fmt_padded(u.hour as i64, 2);
    t.push(':');
    t.append(fmt_padded(u.minute as i64, 2).as_str());
    t.push(':');
    t.append(fmt_padded(u.second as i64, 2).as_str());
    assert(t@ =~= clock_text(u));
    (
        t,
        String::from_str(
            if moved {
                "-- SIM"
            } else {
                "UTC"
            },
        ),
    )
}

/// An arrival stays up for six hours after its time, and not longer; the banner is
/// the first of the soonest, whichever others are due.
pub proof fn law_banner_stays_six_hours(etas: Seq<Option<i64>>, now: int, i: int)
    requires
        0 <= i < etas.len(),
    ensures
        arrival_due(etas[i], now) <==> (etas[i] matches Some(e) && now <= e + 21_600),
        etas[i] matches Some(e) && now <= e + 21_600 ==> soonest(etas, now) is Some,
        soonest(etas, now) matches Some(b) ==> 0 <= b < etas.len() && (etas[b] matches Some(e) && now
            <= e + 21_600),
        soonest(etas, now) == Some(i) ==> forall|k: int|
            0 <= k < i && arrival_due(#[trigger] etas[k], now) ==> etas[i]->0 < etas[k]->0,
    decreases etas.len(),
{
    let t = etas.drop_last();
    if t.len() > 0 {
        law_banner_stays_six_hours(t, now, 0);
        if i < t.len() {
            law_banner_stays_six_hours(t, now, i);
        } else if soonest(etas, now) == Some(i) {
            assert forall|k: int| 0 <= k < i && arrival_due(#[trigger] etas[k], now) implies etas[i]->0
                < etas[k]->0 by {
                assert(t[k] == etas[k]);
                law_banner_shows_the_soonest(t, now, k);
            }
        }
        assert(forall|k: int| 0 <= k < t.len() ==> t[k] == etas[k]);
    } else {
        assert(soonest(t, now) is None);
    }
}

/// The ejections on the screen are those that left in the window, up to the present:
/// each such one counts, and no other.
pub proof fn law_ejections_in_the_window_count(
    left: Seq<Option<i64>>,
    one: Option<i64>,
    now: int,
    window_h: int,
)
    ensures
        cmes_shown(Seq::empty(), now, window_h) == 0,
        cmes_shown(left.push(one), now, window_h) - cmes_shown(left, now, window_h) == (if (
        one matches Some(t) && t <= now && now < t + 3600 * window_h) {
            1int
        } else {
            0
        }),
{
    assert(left.push(one).drop_last() == left);
}

/// The colours of the readouts change where the quantities start to matter: a storm
/// is red from a planetary K of 5 and worth watching from 4; the flux is good from
/// 150 and poor below 90; the highest usable frequency is good from 24 MHz and poor
/// below 14; the power of the aurora is red from an index of 8 and worth watching
/// from 6.
pub proof fn law_colours_change_where_it_matters(n: int)
    ensures
        kp_tone(n) == Tone::Bad <==> n >= 500,
        kp_tone(n) == Tone::Good <==> n < 400,
        kp_tone(n) == Tone::Watch <==> 400 <= n < 500,
        flux_tone(n) == Tone::Good <==> n >= 150,
        flux_tone(n) == Tone::Watch <==> n < 90,
        flux_tone(n) == Tone::Plain <==> 90 <= n < 150,
        muf_tone(n) == Tone::Good <==> n >= 24_000,
        muf_tone(n) == Tone::Watch <==> n < 14_000,
        muf_tone(n) == Tone::Plain <==> 14_000 <= n < 24_000,
        n <= 10 ==> (index_tone(n) == Tone::Bad <==> n >= 8),
        index_tone(n) == Tone::Watch <==> n == 6 || n == 7,
        n < 6 ==> index_tone(n) == Tone::Good,
{
}

/// The list of decodes and the clock tell the time of a moment alike, and the hours
/// under the forecast are those of the clock.
pub proof fn law_clocks_agree(unix: int)
    requires
        i64::MIN <= unix <= i64::MAX,
    ensures
        clock_text(utc_of(unix)) == slot_text(unix),
        clock_text(utc_of(unix)).take(5) == time_text(utc_of(unix)),
{
    law_time_of_day(unix);
    let u = utc_of(unix);
    let s = unix % 86400;
    assert(s / 3600 == u.hour && s % 3600 / 60 == u.minute && s % 60 == u.second);
    lemma_two_digits(u.hour as int);
    lemma_two_digits(u.minute as int);
    assert(clock_text(u) == slot_text(unix));
    assert(clock_text(u).take(5) == time_text(u));
}

/// The forecast strip reaches a day ahead, eight bins of three hours, or as far as
/// there is a forecast.
pub proof fn law_strip_reaches_a_day_ahead(bins: int)
    requires
        bins >= 0,
    ensures
        3 * strip_len(bins) <= 24,
        strip_len(bins) <= bins,
        3 * bins <= 24 ==> strip_len(bins) == bins,
        3 * bins > 24 ==> 3 * strip_len(bins) == 24,
{
}

/// One storm is spoken of as one, and none as none.
pub proof fn law_storms_are_counted(frame: Seq<char>, age: Seq<char>, vis: bool, storms: nat)
    requires
        storms > 1,
    ensures
        ({
            let head = "CLOUDS  "@ + frame + "  ·  "@ + age + " old  ·  "@ + (if vis {
                "IR+VIS"@
            } else {
                "IR only"@
            }) + "  ·  "@;
            let tail = "  ·  lightning simulated"@;
            &&& clouds_text(frame, age, vis, 0) == head + "no deep convection"@ + tail
            &&& clouds_text(frame, age, vis, 1) == head + "1 storm"@ + tail
            &&& clouds_text(frame, age, vis, storms) == head + (decimal(storms) + " storms"@) + tail
        }),
{
}

/// A peak is spoken of as now until an hour and a half before it, and as in so many
/// hours, to the nearest, earlier than that.
pub proof fn law_peaks_are_announced_in_hours(kp: Seq<char>, unix: int, now: int, hours: nat)
    ensures
        unix < now + 5400 ==> peak_text(kp, unix, now) == kp + " now"@,
        unix >= now + 5400 && 3600 * hours - 1800 < unix - now < 3600 * hours + 1800 ==> peak_text(
            kp,
            unix,
            now,
        ) == kp + " in "@ + decimal(hours) + " h"@,
        unix == now + 5400 ==> peak_text(kp, unix, now) == kp + " in "@ + decimal(2) + " h"@,
{
}

/// The banner counts the hours to an arrival, or since it, to the nearest.
pub proof fn law_arrivals_are_announced_in_hours(eta: Seq<char>, ahead: int, hours: nat)
    ensures
        ahead >= 0 && 3600 * hours - 1800 < ahead < 3600 * hours + 1800 ==> arrival_text(eta, ahead)
            == "ETA "@ + eta + " (+"@ + decimal(hours) + " h)"@,
        ahead < 0 && 3600 * hours - 1800 < -ahead < 3600 * hours + 1800 ==> arrival_text(eta, ahead)
            == "arrival was "@ + eta + " ("@ + decimal(hours) + " h ago)"@,
{
}

/// The banner gives when the ejection left and how fast it is, when it arrives, counted
/// from now, and at its end what is uncertain about it.
pub proof fn law_banner_tells_the_arrival(a: Arrival, now: int)
    ensures
        banner_text(a, now) == "EARTH-DIRECTED CME  "@ + a.left@ + "  ·  "@ + a.km_s@
            + " km/s  ·  "@ + arrival_text(a.eta@, a.eta_unix - now) + (if a.glancing {
            " · glancing"@
        } else {
            ""@
        }) + (if a.estimated {
            " · direction estimated"@
        } else {
            ""@
        }),
{
}

} // verus!
