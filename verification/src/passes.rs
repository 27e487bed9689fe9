//! The passes of a satellite over the operator's place: when they are computed,
//! what is tuned to, and the search for a satellite by name.
use crate::carried::Place;
use crate::solar::{SolarUi, Tone};
use crate::solar_layer::SATS;
use crate::text::{
    decimal, decimal_int, eq_ignore_ascii_case, fmt_i64, fmt_u64, is_blank, same_ignoring_case,
    trimmed,
};
use crate::utc::{time_str, time_text, utc_of};
use vstd::prelude::*;

verus! {

/// How old a prediction may be before its first pass may have gone by, in
/// microseconds.
pub const PASSES_STALE_US: i64 = 300_000_000;

/// What a prediction was made for.
#[derive(Clone, Copy, Debug, PartialEq, Eq, Structural)]
pub struct PassKey {
    /// The satellite, by its catalogue number.
    pub sat: u64,
    pub qth: Place,
    /// When it was made, in microseconds.
    pub made: i64,
}

/// What the pass window does in a frame.
#[derive(Clone, Copy, Debug, PartialEq, Eq, Structural)]
pub enum PassStep {
    /// No window.
    Closed,
    /// The held prediction is shown.
    Show,
    /// A new prediction is made, for this, and shown.
    Predict(PassKey),
}

/// Whether a prediction serves for a satellite seen from a place: it was made
/// for both, and not long ago.
pub open spec fn serves(held: Option<PassKey>, sat: u64, qth: Place, now: int) -> bool {
    held matches Some(k) && {
        &&& k.sat == sat
        &&& k.qth == qth
        &&& -PASSES_STALE_US <= now - k.made <= PASSES_STALE_US
    }
}

/// What the pass window does in a frame, and which satellite stays selected.
/// Without a place, or without the satellite in the element set, the selection
/// goes.
pub open spec fn pass_outcome(
    selected: Option<u64>,
    has_data: bool,
    qth: Option<Place>,
    known: bool,
    held: Option<PassKey>,
    now: i64,
) -> (PassStep, Option<u64>) {
    match (selected, qth) {
        (Some(id), _) if !has_data => (PassStep::Closed, Some(id)),
        (Some(id), Some(place)) if known => (
            if serves(held, id, place, now as int) {
                PassStep::Show
            } else {
                PassStep::Predict(PassKey { sat: id, qth: place, made: now })
            },
            Some(id),
        ),
        _ => (PassStep::Closed, None),
    }
}

impl SolarUi {
    /// A frame of the pass window. `known` says that the element set has the
    /// selected satellite; `held` is the prediction at hand.
    pub fn pass_frame(
        &mut self,
        has_data: bool,
        qth: Option<Place>,
        known: bool,
        held: Option<PassKey>,
        now: i64,
    ) -> (r: PassStep)
        ensures
            (r, final(self).selected_sat) == pass_outcome(
                old(self).selected_sat,
                has_data,
                qth,
                known,
                held,
                now,
            ),
            *final(self) == (SolarUi { selected_sat: final(self).selected_sat, ..*old(self) }),
    {
        let id: u64 = match self.selected_sat {
            Some(id) => id,
            None => {
                return PassStep::Closed;
            },
        };
        if !has_data {
            return PassStep::Closed;
        }
        let place = match qth {
            Some(p) if known => p,
            _ => {
                self.selected_sat = None;
                return PassStep::Closed;
            },
        };
        if let Some(k) = held {
            let age: i128 = now as i128 - k.made as i128;
            if k.sat == id && k.qth == place && -(PASSES_STALE_US as i128) <= age && age
                <= PASSES_STALE_US as i128 {
                return PassStep::Show;
            }
        }
        PassStep::Predict(PassKey { sat: id, qth: place, made: now })
    }

    /// The pass window was closed.
    pub fn close_passes(&mut self)
        ensures
            *final(self) == (SolarUi { selected_sat: None, ..*old(self) }),
    {
        self.selected_sat = None;
    }
}

/// A prediction that was just made serves in the same frame and until it ages
/// out.
pub proof fn law_prediction_serves(
    selected: Option<u64>,
    qth: Option<Place>,
    held: Option<PassKey>,
    now: i64,
    later: i64,
)
    requires
        now <= later <= now + PASSES_STALE_US,
    ensures
        pass_outcome(selected, true, qth, true, held, now) matches (PassStep::Predict(k), s)
            ==> pass_outcome(s, true, qth, true, Some(k), later) == (PassStep::Show, selected),
{
}

/// The colour of a pass by when it rises.
pub open spec fn tone_of_pass(rise: int, now: int) -> Tone {
    if rise * 1_000_000 < now {
        Tone::Good
    } else if rise * 1_000_000 - now < 3_600_000_000 {
        Tone::Watch
    } else {
        Tone::Text
    }
}

/// The colour of a pass by how high it gets.
pub open spec fn tone_of_height(max_el: int) -> Tone {
    if max_el >= 30_000 {
        Tone::Good
    } else if max_el >= 15_000 {
        Tone::Text
    } else {
        Tone::Dim
    }
}

/// The colour of a pass that rises at `rise` seconds: under way, within the hour,
/// or later.
pub fn pass_tone(rise: i64, now: i64) -> (r: Tone)
    ensures
        r == tone_of_pass(rise as int, now as int),
{
    let soon: i128 = rise as i128 * 1_000_000 - now as i128;
    if soon < 0 {
        Tone::Good
    } else if soon < 3_600_000_000 {
        Tone::Watch
    } else {
        Tone::Text
    }
}

/// A pass of a satellite: when it rises and sets, in seconds, and how high it
/// gets, in thousandths of a degree.
#[derive(Clone, Copy, Debug, PartialEq, Eq, Structural)]
pub struct Pass {
    pub rise: i64,
    pub set: i64,
    pub max_el: i64,
}

/// A row of the pass table.
#[derive(Debug)]
pub struct PassRow {
    pub tone: Tone,
    /// The time of day when it sets; the date is already in the first column.
    pub ends: String,
    pub lasts: String,
    /// How well it can be worked.
    pub height: Tone,
}

/// Whole minutes of a number of seconds, the rest cut off.
pub open spec fn whole_minutes(secs: int) -> int {
    if secs >= 0 {
        secs / 60
    } else {
        -((-secs) / 60)
    }
}

/// The row of a pass: the one going on, or next, stands out.
pub fn pass_row(p: &Pass, now: i64) -> (r: PassRow)
    requires
        i64::MIN < p.set - p.rise <= i64::MAX,
    ensures
        r.tone == tone_of_pass(p.rise as int, now as int),
        r.ends@ == time_text(utc_of(p.set as int)),
        r.lasts@ == decimal_int(whole_minutes(p.set - p.rise)) + " min"@,
        r.height == tone_of_height(p.max_el as int),
{
    let secs: i64 = p.set - p.rise;
    let minutes: i64 = if secs >= 0 {
        secs / 60
    } else {
        -((-secs) / 60)
    };
    let mut lasts = fmt_i64(minutes);
    lasts.append(" min");
    let height = if p.max_el >= 30_000 {
        Tone::Good
    } else if p.max_el >= 15_000 {
        Tone::Text
    } else {
        Tone::Dim
    };
    PassRow { tone: pass_tone(p.rise, now), ends: time_str(p.set), lasts, height }
}

/// The title of the pass window.
pub fn pass_title(name: &str, grid: &str) -> (r: String)
    ensures
        r@ == name@ + "  ·  PASSES FROM "@ + grid@,
{
    let mut s = name.to_owned();
    s.append("  ·  PASSES FROM ");
    s.append(grid);
    s
}

/// A radio link of a satellite.
#[derive(Debug)]
pub struct SatLink {
    pub label: String,
    /// The frequencies, as text.
    pub downlink: Option<String>,
    pub uplink: Option<String>,
    pub mode: String,
    pub note: String,
    /// Whether it holds nothing to tune to.
    pub empty: bool,
}

/// The published links of a satellite.
#[derive(Debug)]
pub struct SatFreqs {
    pub name: String,
    pub links: Vec<SatLink>,
}

/// A row of the frequency table.
#[derive(Debug)]
pub struct FreqRow {
    /// The link, by its place.
    pub link: usize,
    pub downlink: String,
    pub uplink: String,
    /// Whether there is a note to it.
    pub noted: bool,
}

/// The frequency table.
#[derive(Debug)]
pub struct FreqTable {
    pub heading: String,
    /// What the satellite is published as, where that differs from what it is
    /// tracked as.
    pub published: Option<String>,
    pub rows: Vec<FreqRow>,
    /// The notes, below the table.
    pub notes: Vec<String>,
}

/// A frequency, or a dash.
pub open spec fn freq_text(f: Option<String>) -> Seq<char> {
    match f {
        Some(t) => t@,
        None => "—"@,
    }
}

/// Whether a row shows a link.
pub open spec fn shows_link(r: FreqRow, links: Seq<SatLink>, i: int) -> bool {
    &&& r.link == i
    &&& r.downlink@ == freq_text(links[i].downlink)
    &&& r.uplink@ == freq_text(links[i].uplink)
    &&& r.noted == (links[i].note@.len() > 0)
}

/// The places of the links that hold something.
pub open spec fn usable(links: Seq<SatLink>, n: int) -> Seq<int>
    decreases n,
{
    if n <= 0 {
        seq![]
    } else if links[n - 1].empty {
        usable(links, n - 1)
    } else {
        usable(links, n - 1).push(n - 1)
    }
}

/// The notes of the links that hold something.
pub open spec fn link_notes(links: Seq<SatLink>, n: int) -> Seq<Seq<char>>
    decreases n,
{
    if n <= 0 {
        seq![]
    } else {
        let l = links[n - 1];
        let before = link_notes(links, n - 1);
        if l.empty || l.note@.len() == 0 {
            before
        } else {
            before.push(l.label@ + " — "@ + l.note@)
        }
    }
}

/// Which frequencies are shown: the operator's own before the built-in ones.
/// Returns whether they are the operator's.
pub fn choose_freqs<'a>(own: Option<&'a SatFreqs>, built_in: Option<&'a SatFreqs>) -> (r: (
    Option<&'a SatFreqs>,
    bool,
))
    ensures
        r == match own {
            Some(f) => (Some(f), true),
            None => (built_in, false),
        },
{
    match own {
        Some(f) => (Some(f), true),
        None => (built_in, false),
    }
}

fn freq_of(f: &Option<String>) -> (r: String)
    ensures
        r@ == freq_text(*f),
{
    match f {
        Some(t) => t.clone(),
        None => String::from_str("—"),
    }
}

/// The rows of the frequency table.
fn freq_rows(links: &Vec<SatLink>) -> (r: Vec<FreqRow>)
    ensures
        r@.len() == usable(links@, links@.len() as int).len(),
        forall|k: int|
            0 <= k < r@.len() ==> shows_link(
                #[trigger] r@[k],
                links@,
                usable(links@, links@.len() as int)[k],
            ),
{
    let mut rows: Vec<FreqRow> = Vec::new();
    let mut i: usize = 0;
    while i < links.len()
        invariant
            i <= links@.len(),
            rows@.len() == usable(links@, i as int).len(),
            forall|k: int|
                0 <= k < rows@.len() ==> shows_link(
                    #[trigger] rows@[k],
                    links@,
                    usable(links@, i as int)[k],
                ),
        decreases links@.len() - i,
    {
        let l = &links[i];
        if !l.empty {
            rows.push(
                FreqRow {
                    link: i,
                    downlink: freq_of(&l.downlink),
                    uplink: freq_of(&l.uplink),
                    noted: l.note.as_str().unicode_len() > 0,
                },
            );
        }
        i = i + 1;
    }
    rows
}

/// The notes under the frequency table.
fn freq_notes(links: &Vec<SatLink>) -> (r: Vec<String>)
    ensures
        crate::text::views(r@) == link_notes(links@, links@.len() as int),
{
    let mut notes: Vec<String> = Vec::new();
    assert(crate::text::views(notes@) =~= seq![]);
    let mut i: usize = 0;
    while i < links.len()
        invariant
            i <= links@.len(),
            crate::text::views(notes@) == link_notes(links@, i as int),
        decreases links@.len() - i,
    {
        let l = &links[i];
        if !l.empty && l.note.as_str().unicode_len() > 0 {
            let mut t = l.label.clone();
            t.append(" — ");
            t.append(l.note.as_str());
            let ghost before = notes@;
            notes.push(t);
            assert(crate::text::views(notes@) =~= crate::text::views(before).push(t@));
        }
        i = i + 1;
    }
    notes
}

/// The frequency table of a satellite; none when there is nothing to tune to.
pub fn freq_table(freqs: Option<&SatFreqs>, own: bool, known_as: &str) -> (r: Option<FreqTable>)
    ensures
        r is None <==> (freqs matches Some(f) ==> usable(f.links@, f.links@.len() as int).len()
            == 0),
        r matches Some(t) ==> {
            let f = freqs->0;
            let places = usable(f.links@, f.links@.len() as int);
            &&& t.heading@ == if own {
                "FREQUENCIES  ·  YOURS"@
            } else {
                "FREQUENCIES"@
            }
            &&& match t.published {
                Some(p) => trimmed(f.name@).len() > 0 && !same_ignoring_case(f.name@, known_as@)
                    && p@ == "published as "@ + f.name@,
                None => trimmed(f.name@).len() == 0 || same_ignoring_case(f.name@, known_as@),
            }
            &&& t.rows@.len() == places.len()
            &&& forall|k: int|
                0 <= k < t.rows@.len() ==> shows_link(#[trigger] t.rows@[k], f.links@, places[k])
            &&& crate::text::views(t.notes@) == link_notes(f.links@, f.links@.len() as int)
        },
{
    let f = match freqs {
        Some(f) => f,
        None => {
            return None;
        },
    };
    let rows = freq_rows(&f.links);
    if rows.len() == 0 {
        return None;
    }
    let published = if !is_blank(f.name.as_str()) && !eq_ignore_ascii_case(
        f.name.as_str(),
        known_as,
    ) {
        let mut p = String::from_str("published as ");
        p.append(f.name.as_str());
        Some(p)
    } else {
        None
    };
    Some(
        FreqTable {
            heading: String::from_str(
                if own {
                    "FREQUENCIES  ·  YOURS"
                } else {
                    "FREQUENCIES"
                },
            ),
            published,
            rows,
            notes: freq_notes(&f.links),
        },
    )
}

/// A tracked satellite, and whether the search matches it.
#[derive(Clone, Copy, Debug, PartialEq, Eq, Structural)]
pub struct Candidate {
    pub sat: u64,
    pub hit: bool,
}

/// The satellites that the search matches.
pub open spec fn matches_of(sats: Seq<Candidate>) -> Seq<u64>
    decreases sats.len(),
{
    if sats.len() == 0 {
        seq![]
    } else if sats.last().hit {
        matches_of(sats.drop_last()).push(sats.last().sat)
    } else {
        matches_of(sats.drop_last())
    }
}

/// The satellites that the search matches.
pub fn search_hits(sats: &Vec<Candidate>) -> (r: Vec<u64>)
    ensures
        r@ == matches_of(sats@),
{
    let mut out: Vec<u64> = Vec::new();
    let mut i: usize = 0;
    while i < sats.len()
        invariant
            i <= sats@.len(),
            out@ == matches_of(sats@.take(i as int)),
        decreases sats@.len() - i,
    {
        assert(sats@.take(i + 1).drop_last() =~= sats@.take(i as int));
        assert(sats@.take(i + 1).last() == sats@[i as int]);
        if sats[i].hit {
            out.push(sats[i].sat);
        }
        i = i + 1;
    }
    assert(sats@.take(i as int) =~= sats@);
    out
}

impl SolarUi {
    /// A frame of the search box. With the satellites hidden it is hidden too,
    /// and what was typed goes, or it would light them up again later with
    /// nothing to say why. Returns whether it is shown.
    pub fn search_frame(&self, query: &mut String) -> (shown: bool)
        ensures
            shown == self.shows(SATS),
            shown ==> *final(query) == *old(query),
            !shown ==> final(query)@.len() == 0,
    {
        if !self.layer(SATS) {
            *query = String::new();
            return false;
        }
        true
    }

    /// Enter in the search box: a single match has its passes opened.
    pub fn search_enter(&mut self, sats: &Vec<Candidate>)
        ensures
            *final(self) == (SolarUi {
                selected_sat: if matches_of(sats@).len() == 1 {
                    Some(matches_of(sats@)[0])
                } else {
                    old(self).selected_sat
                },
                ..*old(self)
            }),
    {
        let hits = search_hits(sats);
        if hits.len() == 1 {
            self.selected_sat = Some(hits[0]);
        }
    }
}

/// The line under the search box: how many of the tracked satellites match. None
/// while nothing is typed.
pub fn search_line(query: &str, sats: &Vec<Candidate>) -> (r: Option<(String, Tone)>)
    ensures
        match r {
            None => trimmed(query@).len() == 0,
            Some(l) => {
                &&& trimmed(query@).len() > 0
                &&& (l.0@, l.1) == if matches_of(sats@).len() == 0 {
                    ("no match"@, Tone::Bad)
                } else {
                    (
                        decimal(matches_of(sats@).len()) + " of "@ + decimal(sats@.len())
                            + " tracked"@,
                        Tone::Watch,
                    )
                }
            },
        },
{
    if is_blank(query) {
        return None;
    }
    let hits = search_hits(sats);
    if hits.len() == 0 {
        return Some((String::from_str("no match"), Tone::Bad));
    }
    let mut t = fmt_u64(hits.len() as u64);
    t.append(" of ");
    t.append(fmt_u64(sats.len() as u64).as_str());
    t.append(" tracked");
    Some((t, Tone::Watch))
}

/// A prediction is made anew for another satellite, another place, and once it is
/// more than five minutes old, or stamped as far ahead of the clock; until then it
/// is shown.
pub proof fn law_stale_predictions_are_made_anew(
    sat: u64,
    qth: Place,
    held: Option<PassKey>,
    now: i64,
)
    ensures
        ({
            let r = pass_outcome(Some(sat), true, Some(qth), true, held, now);
            let good = held matches Some(k) && k.sat == sat && k.qth == qth && now <= k.made
                + 300_000_000 && k.made <= now + 300_000_000;
            &&& good ==> r.0 == PassStep::Show
            &&& !good ==> r.0 == PassStep::Predict(PassKey { sat, qth, made: now })
            &&& r.1 == Some(sat)
        }),
{
}

/// Without a satellite, a place or its elements there is no window; the selection is
/// then dropped, except while the data is still to come.
pub proof fn law_window_needs_a_satellite_and_a_place(
    selected: Option<u64>,
    qth: Option<Place>,
    known: bool,
    held: Option<PassKey>,
    now: i64,
)
    ensures
        selected is None || qth is None || !known ==> pass_outcome(
            selected,
            true,
            qth,
            known,
            held,
            now,
        ) == (PassStep::Closed, None::<u64>),
        pass_outcome(selected, false, qth, known, held, now) == (PassStep::Closed, selected),
{
}

/// The search finds the satellites that match, all of them and no others, in the
/// order in which they are tracked.
pub proof fn law_search_finds_the_matches(sats: Seq<Candidate>, one: Candidate)
    ensures
        matches_of(Seq::empty()) == Seq::<u64>::empty(),
        one.hit ==> matches_of(sats.push(one)) == matches_of(sats).push(one.sat),
        !one.hit ==> matches_of(sats.push(one)) == matches_of(sats),
{
    assert(sats.push(one).drop_last() == sats);
}

/// The table has a row for each link that holds something to tune to, in their
/// order, and for no other.
pub proof fn law_table_holds_the_usable_links(links: Seq<SatLink>, n: int)
    requires
        0 <= n <= links.len(),
    ensures
        ({
            let r = usable(links, n);
            &&& forall|k: int| 0 <= k < r.len() ==> 0 <= (#[trigger] r[k]) < n && !links[r[k]].empty
            &&& forall|k: int, l: int| 0 <= k < l < r.len() ==> (#[trigger] r[k]) < (#[trigger] r[l])
            &&& forall|i: int| 0 <= i < n && !(#[trigger] links[i]).empty ==> r.contains(i)
        }),
    decreases n,
{
    if n > 0 {
        law_table_holds_the_usable_links(links, n - 1);
        let rest = usable(links, n - 1);
        let r = usable(links, n);
        assert forall|i: int| 0 <= i < n && !(#[trigger] links[i]).empty implies r.contains(i) by {
            if i < n - 1 {
                let k = choose|k: int| 0 <= k < rest.len() && rest[k] == i;
                assert(r[k] == i);
            } else {
                assert(r[r.len() - 1] == i);
            }
        }
    }
}

/// The minutes that a pass lasts are the whole ones in it.
pub proof fn law_passes_last_whole_minutes(secs: int)
    requires
        secs >= 0,
    ensures
        60 * whole_minutes(secs) <= secs < 60 * whole_minutes(secs) + 60,
{
}

/// A row shows the frequencies of its link, a dash for one that it has not, and says
/// whether there is a note to it.
pub proof fn law_rows_show_their_link(r: FreqRow, links: Seq<SatLink>, i: int)
    requires
        shows_link(r, links, i),
    ensures
        r.link == i,
        links[i].downlink matches Some(t) ==> r.downlink@ == t@,
        links[i].downlink is None ==> r.downlink@ == "—"@,
        links[i].uplink matches Some(t) ==> r.uplink@ == t@,
        links[i].uplink is None ==> r.uplink@ == "—"@,
        r.noted <==> links[i].note@.len() > 0,
{
}

/// Below the table stands the note of each of its links that has one, after the
/// link's name and in their order, and of no other.
pub proof fn law_notes_are_those_of_the_rows(links: Seq<SatLink>, n: int)
    requires
        0 <= n < links.len(),
    ensures
        link_notes(links, 0) == Seq::<Seq<char>>::empty(),
        !links[n].empty && links[n].note@.len() > 0 ==> link_notes(links, n + 1) == link_notes(
            links,
            n,
        ).push(links[n].label@ + " — "@ + links[n].note@),
        links[n].empty || links[n].note@.len() == 0 ==> link_notes(links, n + 1) == link_notes(
            links,
            n,
        ),
{
}

/// A pass stands out while it is under way and in the hour before it; that moment goes
/// with the clock and not with the pass. It is good from thirty degrees up and hardly
/// worth it below fifteen.
pub proof fn law_passes_stand_out_in_their_hour(rise: int, now: int, el: int)
    ensures
        tone_of_pass(rise, 1_000_000 * now) == Tone::Good <==> rise < now,
        tone_of_pass(rise, 1_000_000 * now) == Tone::Watch <==> now <= rise < now + 3600,
        tone_of_pass(rise, 1_000_000 * now) == Tone::Text <==> rise >= now + 3600,
        tone_of_height(1000 * el) == Tone::Good <==> el >= 30,
        tone_of_height(1000 * el) == Tone::Dim <==> el < 15,
        tone_of_height(1000 * el) == Tone::Text <==> 15 <= el < 30,
{
}

} // verus!
