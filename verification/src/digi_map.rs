//! Which decoded stations are currently "up", and how brightly, plus the last
//! hour of them, which the globe replays as a time-lapse.
//!
//! The flat panel map and the globe both draw this, and they have to agree, so
//! the rule lives here once. Ages go by the frame time, in microseconds;
//! `slot_utc` only decides whether a decode is newer than the one already
//! recorded for that grid. The history is stamped and pruned in UTC.
use crate::carried::Place;
use crate::sort::{
    in_order, inserted, law_sorted_stays, law_stable_sort_in_order, law_stable_sort_keeps_items,
    orders, sort, stable_sort,
};
use vstd::prelude::*;

verus! {

/// A decoded station's dot fades over this many microseconds since it was last
/// heard, then expires.
pub const STATION_FADE_US: i64 = 120_000_000;

/// The shortest fade that can be set.
pub const MIN_FADE_US: i64 = 1_000_000;

/// How far back the activity history reaches, in seconds.
pub const HISTORY_S: i64 = 3600;

/// How far ahead of the clock a slot may be stamped, in seconds.
pub const FUTURE_S: i64 = 300;

/// What the map reads of a decode.
#[derive(Debug)]
pub struct Heard {
    /// Unix seconds at the start of the slot it was decoded in.
    pub slot_utc: i64,
    /// The grid square that the station sent.
    pub grid: Option<String>,
    /// Where that grid square is, if it is one.
    pub place: Option<Place>,
}

/// One located decode, stamped with the slot it came from.
#[derive(Clone, Copy, Debug, PartialEq, Eq, Structural)]
pub struct DigiHit {
    pub place: Place,
    /// Unix seconds at the start of the slot it was decoded in.
    pub slot_utc: i64,
}

/// The newest hearing of a grid square.
#[derive(Debug)]
pub struct Seen {
    pub grid: String,
    /// The newest slot seen, which is remembered after the dot has faded.
    pub slot: i64,
    /// The frame time it was lit at; none once it has faded.
    pub lit: Option<i64>,
    pub place: Option<Place>,
}

/// A station on the map: the part of its fade that is left.
#[derive(Clone, Copy, Debug, PartialEq, Eq, Structural)]
pub struct Lit {
    pub place: Place,
    /// Microseconds of light left, out of `fade`.
    pub left: i64,
    pub fade: i64,
}

/// The globe's view of the stations, plus the contact in progress.
#[derive(Debug)]
pub struct DigiTraffic {
    pub stations: Vec<Lit>,
    pub dx: Option<Place>,
    pub dx_label: Option<String>,
    pub preview: Option<Place>,
    pub transmitting: bool,
    pub history: Vec<DigiHit>,
}

/// The stations on the map, and the last hour of located decodes.
pub struct DigiStations {
    seen: Vec<Seen>,
    /// The last hour of located decodes.
    history: Vec<DigiHit>,
    /// The grid and slot of each entry of `history`, so that a decode that
    /// stays in the caller's list for many frames is recorded exactly once.
    recorded: Vec<(String, i64)>,
    /// How long a station stays lit after it was last heard.
    fade: i64,
}

/// The newest hearing of one grid square: its slot, and since when its dot is
/// lit, if it still is.
#[verifier::ext_equal]
pub struct Hearing {
    pub slot: int,
    pub lit: Option<int>,
    pub place: Option<Place>,
}

/// The hearings after one more decode: only a newer slot counts as hearing the
/// station again.
pub open spec fn hear(m: Map<Seq<char>, Hearing>, d: Heard, now: int) -> Map<Seq<char>, Hearing> {
    match d.grid {
        Some(g) => if !m.contains_key(g@) || d.slot_utc > m[g@].slot {
            m.insert(g@, Hearing { slot: d.slot_utc as int, lit: Some(now), place: d.place })
        } else {
            m
        },
        None => m,
    }
}

/// The hearings after a list of decodes.
pub open spec fn hear_all(m: Map<Seq<char>, Hearing>, ds: Seq<Heard>, now: int) -> Map<
    Seq<char>,
    Hearing,
>
    decreases ds.len(),
{
    if ds.len() == 0 {
        m
    } else {
        hear(hear_all(m, ds.drop_last(), now), ds.last(), now)
    }
}

/// A hearing whose dot goes dark once it has faded. Its slot is remembered.
pub open spec fn dimmed(h: Hearing, now: int, fade: int) -> Hearing {
    match h.lit {
        Some(at) => if now - at < fade {
            h
        } else {
            Hearing { lit: None, ..h }
        },
        None => h,
    }
}

/// The hearings with the dots that have faded gone dark.
pub open spec fn still_lit(m: Map<Seq<char>, Hearing>, now: int, fade: int) -> Map<
    Seq<char>,
    Hearing,
> {
    Map::new(|g: Seq<char>| m.contains_key(g), |g: Seq<char>| dimmed(m[g], now, fade))
}

/// The hearings after a frame with a list of decodes.
pub open spec fn observed(
    m: Map<Seq<char>, Hearing>,
    ds: Seq<Heard>,
    now: int,
    fade: int,
) -> Map<Seq<char>, Hearing> {
    still_lit(hear_all(m, ds, now), now, fade)
}

/// Whether a slot has a place on the time axis of the replay.
pub open spec fn in_window(slot: int, now_utc: int) -> bool {
    now_utc - HISTORY_S < slot <= now_utc + FUTURE_S
}

/// The grids and slots on record, and the hits that are new.
#[verifier::ext_equal]
pub struct Record {
    pub keys: Set<(Seq<char>, int)>,
    pub fresh: Seq<DigiHit>,
}

/// Whether a decode is to be recorded.
pub open spec fn is_fresh(keys: Set<(Seq<char>, int)>, d: Heard, now_utc: int) -> bool {
    &&& d.grid is Some
    &&& d.place is Some
    &&& in_window(d.slot_utc as int, now_utc)
    &&& !keys.contains((d.grid->0@, d.slot_utc as int))
}

/// The record after one more decode.
pub open spec fn record(r: Record, d: Heard, now_utc: int) -> Record {
    if is_fresh(r.keys, d, now_utc) {
        Record {
            keys: r.keys.insert((d.grid->0@, d.slot_utc as int)),
            fresh: r.fresh.push(DigiHit { place: d.place->0, slot_utc: d.slot_utc }),
        }
    } else {
        r
    }
}

/// The record after a list of decodes.
pub open spec fn record_all(keys: Set<(Seq<char>, int)>, ds: Seq<Heard>, now_utc: int) -> Record
    decreases ds.len(),
{
    if ds.len() == 0 {
        Record { keys, fresh: seq![] }
    } else {
        record(record_all(keys, ds.drop_last(), now_utc), ds.last(), now_utc)
    }
}

/// Oldest first.
pub open spec fn older(a: DigiHit, b: DigiHit) -> bool {
    a.slot_utc < b.slot_utc
}

/// The order of the history.
pub open spec fn by_slot() -> spec_fn(DigiHit, DigiHit) -> bool {
    |a: DigiHit, b: DigiHit| older(a, b)
}

/// The entries of a history that are still inside the hour.
pub open spec fn recent(h: Seq<DigiHit>, now_utc: int) -> Seq<DigiHit> {
    h.filter(|e: DigiHit| e.slot_utc > now_utc - HISTORY_S)
}

/// Whether the oldest entry has left the hour, which is what prunes the rest.
pub open spec fn expired(h: Seq<DigiHit>, now_utc: int) -> bool {
    h.len() > 0 && h[0].slot_utc <= now_utc - HISTORY_S
}

/// The hearing that an entry stands for.
pub open spec fn hearing_of(e: Seen) -> Hearing {
    Hearing {
        slot: e.slot as int,
        lit: match e.lit {
            Some(at) => Some(at as int),
            None => None,
        },
        place: e.place,
    }
}

/// Whether an entry for a grid square exists.
spec fn has_grid(v: Seq<Seen>, g: Seq<char>) -> bool {
    exists|i: int| 0 <= i < v.len() && (#[trigger] v[i]).grid@ == g
}

/// Where the entry for a grid square stands.
spec fn place_of(v: Seq<Seen>, g: Seq<char>) -> int {
    choose|i: int| 0 <= i < v.len() && (#[trigger] v[i]).grid@ == g
}

/// The hearings that a list of entries stands for.
spec fn hearings(v: Seq<Seen>) -> Map<Seq<char>, Hearing> {
    Map::new(|g: Seq<char>| has_grid(v, g), |g: Seq<char>| hearing_of(v[place_of(v, g)]))
}

/// Whether no grid square has two entries.
spec fn distinct(v: Seq<Seen>) -> bool {
    forall|i: int, j: int|
        0 <= i < j < v.len() ==> (#[trigger] v[i]).grid@ != (#[trigger] v[j]).grid@
}

/// The grid and slot of a recorded decode.
spec fn key_of(k: (String, i64)) -> (Seq<char>, int) {
    (k.0@, k.1 as int)
}

/// The keys that a list of recorded decodes holds.
spec fn keys_of(v: Seq<(String, i64)>) -> Set<(Seq<char>, int)> {
    Set::new(|k: (Seq<char>, int)| exists|i: int| 0 <= i < v.len() && key_of(#[trigger] v[i]) == k)
}

/// Whether nothing is recorded twice.
spec fn recorded_once(v: Seq<(String, i64)>) -> bool {
    forall|i: int, j: int|
        0 <= i < j < v.len() ==> key_of(#[trigger] v[i]) != key_of(#[trigger] v[j])
}

/// How many entries of a history came from a slot.
pub open spec fn hits_at(h: Seq<DigiHit>, slot: int) -> nat
    decreases h.len(),
{
    if h.len() == 0 {
        0
    } else {
        hits_at(h.drop_last(), slot) + if h.last().slot_utc == slot {
            1nat
        } else {
            0nat
        }
    }
}

/// How many recorded decodes came from a slot.
spec fn keys_at(v: Seq<(String, i64)>, slot: int) -> nat
    decreases v.len(),
{
    if v.len() == 0 {
        0
    } else {
        keys_at(v.drop_last(), slot) + if v.last().1 == slot {
            1nat
        } else {
            0nat
        }
    }
}

proof fn lemma_hits_push(h: Seq<DigiHit>, e: DigiHit, slot: int)
    ensures
        hits_at(h.push(e), slot) == hits_at(h, slot) + if e.slot_utc == slot {
            1nat
        } else {
            0nat
        },
{
    assert(h.push(e).drop_last() =~= h);
}

proof fn lemma_keys_push(v: Seq<(String, i64)>, k: (String, i64), slot: int)
    ensures
        keys_at(v.push(k), slot) == keys_at(v, slot) + if k.1 == slot {
            1nat
        } else {
            0nat
        },
{
    assert(v.push(k).drop_last() =~= v);
}

proof fn lemma_hits_add(a: Seq<DigiHit>, b: Seq<DigiHit>, slot: int)
    ensures
        hits_at(a + b, slot) == hits_at(a, slot) + hits_at(b, slot),
    decreases b.len(),
{
    if b.len() == 0 {
        assert(a + b =~= a);
    } else {
        lemma_hits_add(a, b.drop_last(), slot);
        assert((a + b).drop_last() =~= a + b.drop_last());
    }
}

proof fn lemma_hits_inserted(s: Seq<DigiHit>, x: DigiHit, slot: int)
    ensures
        hits_at(inserted(s, x, by_slot()), slot) == hits_at(s.push(x), slot),
    decreases s.len(),
{
    if s.len() == 0 || !by_slot()(x, s.last()) {
    } else {
        lemma_hits_inserted(s.drop_last(), x, slot);
        lemma_hits_push(inserted(s.drop_last(), x, by_slot()), s.last(), slot);
        lemma_hits_push(s.drop_last(), x, slot);
        lemma_hits_push(s, x, slot);
    }
}

proof fn lemma_hits_sorted(s: Seq<DigiHit>, slot: int)
    ensures
        hits_at(stable_sort(s, by_slot()), slot) == hits_at(s, slot),
    decreases s.len(),
{
    if s.len() > 0 {
        let t = stable_sort(s.drop_last(), by_slot());
        lemma_hits_sorted(s.drop_last(), slot);
        lemma_hits_inserted(t, s.last(), slot);
        lemma_hits_push(t, s.last(), slot);
    }
}

proof fn lemma_hits_recent(h: Seq<DigiHit>, now_utc: int, slot: int)
    ensures
        hits_at(recent(h, now_utc), slot) == if slot > now_utc - HISTORY_S {
            hits_at(h, slot)
        } else {
            0
        },
    decreases h.len(),
{
    reveal(Seq::filter);
    if h.len() > 0 {
        lemma_hits_recent(h.drop_last(), now_utc, slot);
        lemma_hits_push(recent(h.drop_last(), now_utc), h.last(), slot);
    }
}

/// How long a station stays lit once that is set; at least the shortest fade.
pub open spec fn fade_for(micros: int) -> int {
    if micros > MIN_FADE_US {
        micros
    } else {
        MIN_FADE_US as int
    }
}

impl Default for DigiStations {
    fn default() -> (r: DigiStations)
        ensures
            r.wf(),
            r.seen() == Map::<Seq<char>, Hearing>::empty(),
            r.hits().len() == 0,
            r.keys() == Set::<(Seq<char>, int)>::empty(),
            r.fade_us() == STATION_FADE_US,
    {
        let r = DigiStations {
            seen: Vec::new(),
            history: Vec::new(),
            recorded: Vec::new(),
            fade: STATION_FADE_US,
        };
        assert(r.seen() =~= Map::<Seq<char>, Hearing>::empty());
        assert(r.keys() =~= Set::<(Seq<char>, int)>::empty());
        r
    }
}

/// Where the entry for a grid square stands, or the length if there is none.
fn find_grid(v: &Vec<Seen>, g: &String) -> (r: usize)
    ensures
        r <= v@.len(),
        r < v@.len() ==> v@[r as int].grid@ == g@,
        r == v@.len() ==> !has_grid(v@, g@),
{
    let mut i: usize = 0;
    while i < v.len()
        invariant
            i <= v@.len(),
            forall|j: int| 0 <= j < i ==> (#[trigger] v@[j]).grid@ != g@,
        decreases v@.len() - i,
    {
        if v[i].grid == *g {
            return i;
        }
        i = i + 1;
    }
    i
}

/// Whether a grid and slot are on record.
fn is_recorded(v: &Vec<(String, i64)>, g: &String, slot: i64) -> (r: bool)
    ensures
        r == keys_of(v@).contains((g@, slot as int)),
{
    let mut i: usize = 0;
    while i < v.len()
        invariant
            i <= v@.len(),
            forall|j: int| 0 <= j < i ==> key_of(#[trigger] v@[j]) != (g@, slot as int),
        decreases v@.len() - i,
    {
        if v[i].1 == slot && v[i].0 == *g {
            assert(key_of(v@[i as int]) == (g@, slot as int));
            return true;
        }
        i = i + 1;
    }
    false
}

proof fn lemma_hearings_push(v: Seq<Seen>, e: Seen)
    requires
        distinct(v),
        !has_grid(v, e.grid@),
    ensures
        distinct(v.push(e)),
        hearings(v.push(e)) == hearings(v).insert(e.grid@, hearing_of(e)),
{
    let w = v.push(e);
    assert forall|i: int, j: int| 0 <= i < j < w.len() implies (#[trigger] w[i]).grid@ != (
    #[trigger] w[j]).grid@ by {
        if j == v.len() {
            assert(w[i] == v[i]);
        }
    }
    lemma_entries(w);
    lemma_entries(v);
    assert forall|g: Seq<char>| has_grid(w, g) == (has_grid(v, g) || g == e.grid@) by {
        if has_grid(v, g) {
            let i = place_of(v, g);
            assert(w[i].grid@ == g);
        }
        if g == e.grid@ {
            assert(w[v.len() as int].grid@ == g);
        }
    }
    assert forall|g: Seq<char>| has_grid(v, g) && g != e.grid@ implies #[trigger] hearings(w)[g]
        == hearings(v)[g] by {
        let i = place_of(v, g);
        assert(w[i].grid@ == g);
        assert(hearings(w)[w[i].grid@] == hearing_of(w[i]));
    }
    assert(w[v.len() as int] == e);
    assert(hearings(w)[e.grid@] == hearing_of(e));
    assert(hearings(w) =~= hearings(v).insert(e.grid@, hearing_of(e)));
}

/// Each entry gives the hearing of its grid square.
proof fn lemma_entries(v: Seq<Seen>)
    requires
        distinct(v),
    ensures
        forall|i: int|
            0 <= i < v.len() ==> hearings(v).contains_key((#[trigger] v[i]).grid@)
                && hearings(v)[v[i].grid@] == hearing_of(v[i]),
{
    assert forall|i: int| 0 <= i < v.len() implies hearings(v).contains_key(
        (#[trigger] v[i]).grid@,
    ) && hearings(v)[v[i].grid@] == hearing_of(v[i]) by {
        assert(has_grid(v, v[i].grid@));
        let j = place_of(v, v[i].grid@);
        assert(v[j].grid@ == v[i].grid@);
    }
}

proof fn lemma_hearings_update(v: Seq<Seen>, k: int, e: Seen)
    requires
        distinct(v),
        0 <= k < v.len(),
        v[k].grid@ == e.grid@,
    ensures
        distinct(v.update(k, e)),
        hearings(v.update(k, e)) == hearings(v).insert(e.grid@, hearing_of(e)),
{
    let w = v.update(k, e);
    assert forall|i: int, j: int| 0 <= i < j < w.len() implies (#[trigger] w[i]).grid@ != (
    #[trigger] w[j]).grid@ by {
        assert(v[i].grid@ != v[j].grid@);
    }
    lemma_entries(w);
    lemma_entries(v);
    assert forall|g: Seq<char>| has_grid(w, g) == has_grid(v, g) by {
        if has_grid(v, g) {
            let i = place_of(v, g);
            assert(w[i].grid@ == g);
        }
        if has_grid(w, g) {
            let i = place_of(w, g);
            assert(v[i].grid@ == g);
        }
    }
    assert forall|g: Seq<char>| has_grid(v, g) && g != e.grid@ implies #[trigger] hearings(w)[g]
        == hearings(v)[g] by {
        let i = place_of(v, g);
        assert(w[i].grid@ == g);
        assert(hearings(w)[w[i].grid@] == hearing_of(w[i]));
    }
    assert(w[k] == e);
    assert(has_grid(v, v[k].grid@));
    assert(hearings(w) =~= hearings(v).insert(e.grid@, hearing_of(e)));
}

impl DigiStations {
    /// The newest hearing of each grid square, lit or dark.
    pub closed spec fn seen(&self) -> Map<Seq<char>, Hearing> {
        hearings(self.seen@)
    }

    /// The located decodes of the last hour.
    pub closed spec fn hits(&self) -> Seq<DigiHit> {
        self.history@
    }

    /// The grid and slot of each decode in the history.
    pub closed spec fn keys(&self) -> Set<(Seq<char>, int)> {
        keys_of(self.recorded@)
    }

    /// How long a station stays lit.
    pub closed spec fn fade_us(&self) -> int {
        self.fade as int
    }

    /// No grid square is heard twice over, nothing is recorded twice, the history is
    /// oldest first and has one entry for each recorded decode, and dots take
    /// time to fade.
    pub closed spec fn wf(&self) -> bool {
        &&& distinct(self.seen@)
        &&& recorded_once(self.recorded@)
        &&& forall|slot: int| #[trigger]
            hits_at(self.history@, slot) == keys_at(self.recorded@, slot)
        &&& in_order(self.history@, by_slot())
        &&& self.fade >= MIN_FADE_US
    }

    /// Set how long a station stays lit after it was last heard, in
    /// microseconds; at least a second.
    ///
    /// FT8 fills every slot, so [`STATION_FADE_US`] of silence means gone. JS8
    /// is sparse, and a map that emptied between its beacons would be blank
    /// almost all the time.
    pub fn set_fade_s(&mut self, micros: i64)
        requires
            old(self).wf(),
        ensures
            final(self).wf(),
            final(self).fade_us() == fade_for(micros as int),
            final(self).seen() == old(self).seen(),
            final(self).hits() == old(self).hits(),
            final(self).keys() == old(self).keys(),
    {
        self.fade = if micros > MIN_FADE_US {
            micros
        } else {
            MIN_FADE_US
        };
    }

    /// Fold in one decode's hearing.
    fn hear(&mut self, d: &Heard, now: i64)
        requires
            distinct(old(self).seen@),
        ensures
            distinct(final(self).seen@),
            hearings(final(self).seen@) == hear(hearings(old(self).seen@), *d, now as int),
            final(self).history == old(self).history,
            final(self).recorded == old(self).recorded,
            final(self).fade == old(self).fade,
    {
        if let Some(g) = &d.grid {
            let k: usize = find_grid(&self.seen, g);
            let ghost v = self.seen@;
            proof {
                lemma_entries(v);
            }
            if k == self.seen.len() {
                let e = Seen { grid: g.clone(), slot: d.slot_utc, lit: Some(now), place: d.place };
                proof {
                    lemma_hearings_push(v, e);
                }
                self.seen.push(e);
            } else if d.slot_utc > self.seen[k].slot {
                let e = Seen { grid: g.clone(), slot: d.slot_utc, lit: Some(now), place: d.place };
                proof {
                    lemma_hearings_update(v, k as int, e);
                }
                self.seen.set(k, e);
            }
        }
    }

    /// Put one decode on record if it is new.
    fn record(&mut self, d: &Heard, now_utc: i64, fresh: &mut Vec<DigiHit>)
        requires
            i64::MIN + HISTORY_S <= now_utc <= i64::MAX - FUTURE_S,
            recorded_once(old(self).recorded@),
        ensures
            recorded_once(final(self).recorded@),
            ({
                let r = record(
                    Record { keys: keys_of(old(self).recorded@), fresh: old(fresh)@ },
                    *d,
                    now_utc as int,
                );
                &&& keys_of(final(self).recorded@) == r.keys
                &&& final(fresh)@ == r.fresh
            }),
            forall|slot: int|
                hits_at(final(fresh)@, slot) - hits_at(old(fresh)@, slot) == #[trigger] keys_at(
                    final(self).recorded@,
                    slot,
                ) - keys_at(old(self).recorded@, slot),
            final(self).seen == old(self).seen,
            final(self).history == old(self).history,
            final(self).fade == old(self).fade,
    {
        if let Some(g) = &d.grid {
            if d.slot_utc <= now_utc - HISTORY_S || d.slot_utc > now_utc + FUTURE_S {
                return ;
            }
            if let Some(place) = d.place {
                if !is_recorded(&self.recorded, g, d.slot_utc) {
                    let ghost v = self.recorded@;
                    let key = (g.clone(), d.slot_utc);
                    let hit = DigiHit { place, slot_utc: d.slot_utc };
                    self.recorded.push(key);
                    fresh.push(hit);
                    proof {
                        let w = v.push(key);
                        assert forall|slot: int|
                            hits_at(old(fresh)@.push(hit), slot) - hits_at(old(fresh)@, slot)
                                == #[trigger] keys_at(w, slot) - keys_at(v, slot) by {
                            lemma_hits_push(old(fresh)@, hit, slot);
                            lemma_keys_push(v, key, slot);
                        }
                        assert forall|i: int, j: int| 0 <= i < j < w.len() implies key_of(
                            #[trigger] w[i],
                        ) != key_of(#[trigger] w[j]) by {
                            if j == v.len() {
                                assert(w[i] == v[i]);
                            }
                        }
                        assert(keys_of(w) =~= keys_of(v).insert((g@, d.slot_utc as int))) by {
                            assert forall|k: (Seq<char>, int)| keys_of(w).contains(k) == keys_of(
                                v,
                            ).insert((g@, d.slot_utc as int)).contains(k) by {
                                if keys_of(v).contains(k) {
                                    let i = choose|i: int|
                                        0 <= i < v.len() && key_of(#[trigger] v[i]) == k;
                                    assert(key_of(w[i]) == k);
                                }
                                assert(key_of(w[v.len() as int]) == (g@, d.slot_utc as int));
                            }
                        }
                    }
                }
            }
        }
    }

    /// Turn the dots dark that have faded.
    fn drop_faded(&mut self, now: i64)
        requires
            distinct(old(self).seen@),
        ensures
            distinct(final(self).seen@),
            hearings(final(self).seen@) == still_lit(
                hearings(old(self).seen@),
                now as int,
                old(self).fade as int,
            ),
            final(self).history == old(self).history,
            final(self).recorded == old(self).recorded,
            final(self).fade == old(self).fade,
    {
        let ghost m0 = hearings(self.seen@);
        let ghost fade = self.fade as int;
        let mut i: usize = 0;
        while i < self.seen.len()
            invariant
                i <= self.seen@.len(),
                distinct(self.seen@),
                fade == self.fade,
                forall|j: int|
                    0 <= j < i ==> dimmed(hearing_of(#[trigger] self.seen@[j]), now as int, fade)
                        == hearing_of(self.seen@[j]),
                still_lit(hearings(self.seen@), now as int, fade) == still_lit(
                    m0,
                    now as int,
                    fade,
                ),
                self.history == old(self).history,
                self.recorded == old(self).recorded,
                self.fade == old(self).fade,
            decreases self.seen@.len() - i,
        {
            let faded = match self.seen[i].lit {
                Some(at) => now as i128 - at as i128 >= self.fade as i128,
                None => false,
            };
            if faded {
                let ghost v = self.seen@;
                let dark = Seen {
                    grid: self.seen[i].grid.clone(),
                    slot: self.seen[i].slot,
                    lit: None,
                    place: self.seen[i].place,
                };
                proof {
                    lemma_entries(v);
                    lemma_hearings_update(v, i as int, dark);
                }
                self.seen.set(i, dark);
                assert(still_lit(hearings(self.seen@), now as int, fade) =~= still_lit(
                    hearings(v),
                    now as int,
                    fade,
                ));
            }
            i = i + 1;
        }
        proof {
            let v = self.seen@;
            lemma_entries(v);
            assert forall|g: Seq<char>| hearings(v).contains_key(g) implies dimmed(
                #[trigger] hearings(v)[g],
                now as int,
                fade,
            ) == hearings(v)[g] by {
                let j = place_of(v, g);
                assert(v[j].grid@ == g);
            }
            assert(still_lit(hearings(v), now as int, fade) =~= hearings(v));
        }
    }
}

/// The recorded keys that are still inside the hour.
pub open spec fn recent_keys(keys: Set<(Seq<char>, int)>, now_utc: int) -> Set<(Seq<char>, int)> {
    keys.filter(|k: (Seq<char>, int)| k.1 > now_utc - HISTORY_S)
}

/// The history after a list of decodes: what is left of it and what is new,
/// oldest first.
pub open spec fn history_after(
    h: Seq<DigiHit>,
    keys: Set<(Seq<char>, int)>,
    ds: Seq<Heard>,
    now_utc: int,
) -> Seq<DigiHit> {
    let kept = if expired(h, now_utc) {
        recent(h, now_utc)
    } else {
        h
    };
    stable_sort(kept + record_all(keys, ds, now_utc).fresh, by_slot())
}

/// The recorded keys after a list of decodes.
pub open spec fn keys_after(
    h: Seq<DigiHit>,
    keys: Set<(Seq<char>, int)>,
    ds: Seq<Heard>,
    now_utc: int,
) -> Set<(Seq<char>, int)> {
    let all = record_all(keys, ds, now_utc).keys;
    if expired(h, now_utc) {
        recent_keys(all, now_utc)
    } else {
        all
    }
}

/// The entries of a history that are still inside the hour.
fn prune_history(h: &Vec<DigiHit>, now_utc: i64) -> (r: Vec<DigiHit>)
    requires
        i64::MIN + HISTORY_S <= now_utc,
    ensures
        r@ == recent(h@, now_utc as int),
{
    let mut kept: Vec<DigiHit> = Vec::new();
    let mut i: usize = 0;
    assert(h@.take(0) =~= Seq::<DigiHit>::empty());
    proof {
        reveal(Seq::filter);
    }
    while i < h.len()
        invariant
            i64::MIN + HISTORY_S <= now_utc,
            i <= h@.len(),
            kept@ == recent(h@.take(i as int), now_utc as int),
        decreases h@.len() - i,
    {
        proof {
            reveal(Seq::filter);
            assert(h@.take(i + 1).drop_last() =~= h@.take(i as int));
        }
        if h[i].slot_utc > now_utc - HISTORY_S {
            kept.push(h[i]);
        }
        i = i + 1;
    }
    assert(h@.take(i as int) =~= h@);
    kept
}

/// Drop the recorded keys that have left the hour.
fn prune_recorded(v: &mut Vec<(String, i64)>, now_utc: i64)
    requires
        i64::MIN + HISTORY_S <= now_utc,
        recorded_once(old(v)@),
    ensures
        recorded_once(final(v)@),
        keys_of(final(v)@) == recent_keys(keys_of(old(v)@), now_utc as int),
        forall|slot: int| #[trigger]
            keys_at(final(v)@, slot) == if slot > now_utc - HISTORY_S {
                keys_at(old(v)@, slot)
            } else {
                0
            },
{
    let cutoff: i64 = now_utc - HISTORY_S;
    let mut i: usize = 0;
    while i < v.len()
        invariant
            cutoff == now_utc - HISTORY_S,
            i <= v@.len(),
            recorded_once(v@),
            forall|j: int| 0 <= j < i ==> (#[trigger] v@[j]).1 > cutoff,
            recent_keys(keys_of(v@), now_utc as int) == recent_keys(
                keys_of(old(v)@),
                now_utc as int,
            ),
            forall|slot: int|
                slot > cutoff ==> #[trigger] keys_at(v@, slot) == keys_at(old(v)@, slot),
        decreases v@.len() - i,
    {
        if v[i].1 > cutoff {
            i = i + 1;
        } else {
            let ghost before = v@;
            v.remove(i);
            proof {
                lemma_recorded_remove(before, i as int);
                assert forall|slot: int| slot > cutoff implies #[trigger] keys_at(v@, slot)
                    == keys_at(old(v)@, slot) by {
                    lemma_keys_remove(before, i as int, slot);
                }
                assert(recent_keys(keys_of(v@), now_utc as int) =~= recent_keys(
                    keys_of(before),
                    now_utc as int,
                ));
            }
        }
    }
    proof {
        assert forall|slot: int| #[trigger]
            keys_at(v@, slot) == if slot > now_utc - HISTORY_S {
                keys_at(old(v)@, slot)
            } else {
                0
            } by {
            if slot <= cutoff {
                lemma_no_keys_at(v@, slot);
            }
        }
        assert(recent_keys(keys_of(v@), now_utc as int) =~= keys_of(v@));
    }
}

proof fn lemma_no_keys_at(v: Seq<(String, i64)>, slot: int)
    requires
        forall|j: int| 0 <= j < v.len() ==> (#[trigger] v[j]).1 != slot,
    ensures
        keys_at(v, slot) == 0,
    decreases v.len(),
{
    if v.len() > 0 {
        lemma_no_keys_at(v.drop_last(), slot);
        assert(v[v.len() - 1].1 != slot);
    }
}

proof fn lemma_keys_remove(v: Seq<(String, i64)>, k: int, slot: int)
    requires
        0 <= k < v.len(),
    ensures
        keys_at(v.remove(k), slot) + (if v[k].1 == slot {
            1nat
        } else {
            0nat
        }) == keys_at(v, slot),
    decreases v.len(),
{
    if k == v.len() - 1 {
        assert(v.remove(k) =~= v.drop_last());
    } else {
        lemma_keys_remove(v.drop_last(), k, slot);
        assert(v.remove(k).drop_last() =~= v.drop_last().remove(k));
    }
}

proof fn lemma_recorded_remove(v: Seq<(String, i64)>, k: int)
    requires
        recorded_once(v),
        0 <= k < v.len(),
    ensures
        recorded_once(v.remove(k)),
        keys_of(v.remove(k)) == keys_of(v).remove(key_of(v[k])),
{
    let w = v.remove(k);
    assert forall|i: int| 0 <= i < w.len() implies #[trigger] w[i] == v[if i < k {
        i
    } else {
        i + 1
    }] by {}
    assert forall|x: (Seq<char>, int)| keys_of(w).contains(x) == keys_of(v).remove(
        key_of(v[k]),
    ).contains(x) by {
        if keys_of(v).contains(x) && x != key_of(v[k]) {
            let i = choose|i: int| 0 <= i < v.len() && key_of(#[trigger] v[i]) == x;
            assert(key_of(w[if i < k {
                i
            } else {
                i - 1
            }]) == x);
        }
        if keys_of(w).contains(x) {
            let i = choose|i: int| 0 <= i < w.len() && key_of(#[trigger] w[i]) == x;
            assert(key_of(v[if i < k {
                i
            } else {
                i + 1
            }]) == x);
        }
    }
    assert(keys_of(w) =~= keys_of(v).remove(key_of(v[k])));
}

impl DigiStations {
    /// Fold in this frame's decode list and drop anything that has expired.
    /// `now_t` is the frame time in microseconds; `now_utc` is the wall clock,
    /// which only the history uses.
    ///
    /// Observing the same decodes again does not refresh a dot, nor light one
    /// that has faded, because only a newer `slot_utc` counts as hearing the
    /// station again. That is what lets both the panel map and the globe call
    /// this with whatever list they hold.
    pub fn observe(&mut self, decodes: &[Heard], now_t: i64, now_utc: i64)
        requires
            old(self).wf(),
            i64::MIN + HISTORY_S <= now_utc <= i64::MAX - FUTURE_S,
        ensures
            final(self).wf(),
            final(self).fade_us() == old(self).fade_us(),
            final(self).seen() == observed(
                old(self).seen(),
                decodes@,
                now_t as int,
                old(self).fade_us(),
            ),
            final(self).hits() == history_after(
                old(self).hits(),
                old(self).keys(),
                decodes@,
                now_utc as int,
            ),
            final(self).keys() == keys_after(
                old(self).hits(),
                old(self).keys(),
                decodes@,
                now_utc as int,
            ),
    {
        let mut fresh: Vec<DigiHit> = Vec::new();
        let mut i: usize = 0;
        let ghost recorded0 = self.recorded@;
        assert(decodes@.take(0) =~= Seq::<Heard>::empty());
        while i < decodes.len()
            invariant
                i64::MIN + HISTORY_S <= now_utc <= i64::MAX - FUTURE_S,
                i <= decodes@.len(),
                distinct(self.seen@),
                recorded_once(self.recorded@),
                self.fade == old(self).fade,
                self.history == old(self).history,
                recorded0 == old(self).recorded@,
                hearings(self.seen@) == hear_all(
                    old(self).seen(),
                    decodes@.take(i as int),
                    now_t as int,
                ),
                ({
                    let r = record_all(old(self).keys(), decodes@.take(i as int), now_utc as int);
                    &&& keys_of(self.recorded@) == r.keys
                    &&& fresh@ == r.fresh
                }),
                forall|slot: int| #[trigger]
                    keys_at(self.recorded@, slot) == keys_at(recorded0, slot) + hits_at(
                        fresh@,
                        slot,
                    ),
            decreases decodes@.len() - i,
        {
            assert(decodes@.take(i + 1).drop_last() =~= decodes@.take(i as int));
            self.hear(&decodes[i], now_t);
            self.record(&decodes[i], now_utc, &mut fresh);
            i = i + 1;
        }
        assert(decodes@.take(i as int) =~= decodes@);
        self.drop_faded(now_t);
        let expired = self.history.len() > 0 && self.history[0].slot_utc <= now_utc - HISTORY_S;
        let ghost kept_recorded = self.recorded@;
        let ghost new = fresh@;
        if expired {
            self.history = prune_history(&self.history, now_utc);
            prune_recorded(&mut self.recorded, now_utc);
        }
        let ghost kept = self.history@;
        let any = fresh.len() > 0;
        self.history.append(&mut fresh);
        assert(self.history@ =~= kept + new);
        proof {
            assert(orders(by_slot()));
            if expired {
                lemma_recent_in_order(old(self).history@, now_utc as int);
            }
            law_stable_sort_in_order(kept + new, by_slot());
            law_sorted_stays(kept, by_slot());
        }
        if any {
            let first = |a: &DigiHit, b: &DigiHit| -> (r: bool)
                ensures
                    r == older(*a, *b),
            { a.slot_utc < b.slot_utc };
            sort(&mut self.history, first, Ghost(by_slot()));
        } else {
            assert(kept + new =~= kept);
        }
        proof {
            assert forall|slot: int| #[trigger]
                hits_at(self.history@, slot) == keys_at(self.recorded@, slot) by {
                lemma_hits_sorted(kept + new, slot);
                lemma_hits_add(kept, new, slot);
                assert(hits_at(old(self).history@, slot) == keys_at(recorded0, slot));
                assert(keys_at(kept_recorded, slot) == keys_at(recorded0, slot) + hits_at(
                    new,
                    slot,
                ));
                if expired {
                    lemma_hits_recent(old(self).history@, now_utc as int, slot);
                    lemma_fresh_in_window(old(self).keys(), decodes@, now_utc as int, slot);
                }
            }
        }
    }

    /// The last hour of located decodes, oldest first.
    pub fn history(&self) -> (r: &Vec<DigiHit>)
        requires
            self.wf(),
        ensures
            r@ == self.hits(),
            in_order(r@, by_slot()),
    {
        &self.history
    }
}

/// What is new lies inside the hour.
proof fn lemma_fresh_in_window(
    keys: Set<(Seq<char>, int)>,
    ds: Seq<Heard>,
    now_utc: int,
    slot: int,
)
    ensures
        slot <= now_utc - HISTORY_S ==> hits_at(record_all(keys, ds, now_utc).fresh, slot) == 0,
    decreases ds.len(),
{
    if ds.len() > 0 {
        lemma_fresh_in_window(keys, ds.drop_last(), now_utc, slot);
        let r = record_all(keys, ds.drop_last(), now_utc);
        if is_fresh(r.keys, ds.last(), now_utc) {
            lemma_hits_push(
                r.fresh,
                DigiHit { place: ds.last().place->0, slot_utc: ds.last().slot_utc },
                slot,
            );
        }
    }
}

/// The dot of one hearing, if its place is known and it has not faded.
pub open spec fn dot(h: Hearing, now: int, fade: int) -> Option<Lit> {
    match (h.place, h.lit) {
        (Some(place), Some(at)) => {
            let age = now - at;
            if age < fade {
                Some(
                    Lit {
                        place,
                        left: (if age > 0 {
                            fade - age
                        } else {
                            fade
                        }) as i64,
                        fade: fade as i64,
                    },
                )
            } else {
                None
            }
        },
        _ => None,
    }
}

/// The dots of some grid squares, in that order.
pub open spec fn dots(
    grids: Seq<Seq<char>>,
    m: Map<Seq<char>, Hearing>,
    now: int,
    fade: int,
) -> Seq<Lit>
    decreases grids.len(),
{
    if grids.len() == 0 {
        seq![]
    } else {
        let rest = dots(grids.drop_last(), m, now, fade);
        match dot(m[grids.last()], now, fade) {
            Some(l) => rest.push(l),
            None => rest,
        }
    }
}

impl DigiStations {
    /// The grid squares that were heard, in the order in which they are listed.
    pub closed spec fn grids(&self) -> Seq<Seq<char>> {
        self.seen@.map_values(|e: Seen| e.grid@)
    }

    /// Every grid square that was heard is listed, and none twice.
    pub proof fn law_grids_listed_once(&self)
        requires
            self.wf(),
        ensures
            self.grids().no_duplicates(),
            self.grids().to_set() == self.seen().dom(),
    {
        lemma_entries(self.seen@);
        assert forall|g: Seq<char>| self.grids().to_set().contains(g) == self.seen().dom().contains(
            g,
        ) by {
            if has_grid(self.seen@, g) {
                let i = place_of(self.seen@, g);
                assert(self.grids()[i] == g);
            }
            if self.grids().contains(g) {
                let i = choose|i: int| 0 <= i < self.grids().len() && self.grids()[i] == g;
                assert(self.seen@[i].grid@ == g);
            }
        }
        assert(self.grids().to_set() =~= self.seen().dom());
    }

    /// Located stations with what is left of their fade.
    pub fn stations(&self, now_t: i64) -> (r: Vec<Lit>)
        requires
            self.wf(),
        ensures
            r@ == dots(self.grids(), self.seen(), now_t as int, self.fade_us()),
    {
        let mut out: Vec<Lit> = Vec::new();
        let mut i: usize = 0;
        assert(self.grids().take(0) =~= Seq::<Seq<char>>::empty());
        while i < self.seen.len()
            invariant
                self.wf(),
                i <= self.seen@.len(),
                out@ == dots(
                    self.grids().take(i as int),
                    self.seen(),
                    now_t as int,
                    self.fade_us(),
                ),
            decreases self.seen@.len() - i,
        {
            proof {
                lemma_entries(self.seen@);
                let g = self.grids();
                assert(g.take(i + 1).drop_last() =~= g.take(i as int));
                assert(g.take(i + 1).last() == self.seen@[i as int].grid@);
            }
            let e = &self.seen[i];
            if let (Some(place), Some(at)) = (e.place, e.lit) {
                let age: i128 = now_t as i128 - at as i128;
                if age < self.fade as i128 {
                    let left: i64 = if age > 0 {
                        (self.fade as i128 - age) as i64
                    } else {
                        self.fade
                    };
                    out.push(Lit { place, left, fade: self.fade });
                }
            }
            i = i + 1;
        }
        assert(self.grids().take(i as int) =~= self.grids());
        out
    }

    /// The globe's view of the same set, plus the contact in progress, whose
    /// place comes from its own grid and not from the decode list.
    pub fn traffic(
        &self,
        now_t: i64,
        dx: Option<Place>,
        preview: Option<Place>,
        transmitting: bool,
    ) -> (r: DigiTraffic)
        requires
            self.wf(),
        ensures
            r.stations@ == dots(self.grids(), self.seen(), now_t as int, self.fade_us()),
            r.dx == dx,
            r.dx_label is None,
            r.preview == preview,
            r.transmitting == transmitting,
            r.history@ == self.hits(),
    {
        let mut history: Vec<DigiHit> = Vec::new();
        history.extend_from_slice(self.history.as_slice());
        assert(history@ =~= self.hits());
        DigiTraffic {
            stations: self.stations(now_t),
            dx,
            dx_label: None,
            preview,
            transmitting,
            history,
        }
    }

    /// The history holds one entry per station and slot: for every slot, as
    /// many entries as there are recorded stations.
    pub proof fn law_one_hit_per_station_and_slot(&self, slot: int)
        requires
            self.wf(),
        ensures
            self.keys().filter(|k: (Seq<char>, int)| k.1 == slot).finite(),
            hits_at(self.hits(), slot) == self.keys().filter(
                |k: (Seq<char>, int)| k.1 == slot,
            ).len(),
    {
        assert(hits_at(self.history@, slot) == keys_at(self.recorded@, slot));
        lemma_keys_at_counts(self.recorded@, slot);
    }
}

proof fn lemma_keys_at_counts(v: Seq<(String, i64)>, slot: int)
    requires
        recorded_once(v),
    ensures
        keys_of(v).filter(|k: (Seq<char>, int)| k.1 == slot).finite(),
        keys_at(v, slot) == keys_of(v).filter(|k: (Seq<char>, int)| k.1 == slot).len(),
    decreases v.len(),
{
    let at = |k: (Seq<char>, int)| k.1 == slot;
    if v.len() == 0 {
        assert(keys_of(v).filter(at) =~= Set::empty());
    } else {
        let w = v.drop_last();
        let last = key_of(v.last());
        lemma_keys_at_counts(w, slot);
        assert(!keys_of(w).contains(last)) by {
            if keys_of(w).contains(last) {
                let i = choose|i: int| 0 <= i < w.len() && key_of(#[trigger] w[i]) == last;
                assert(key_of(v[i]) == key_of(v[v.len() - 1]));
            }
        }
        assert forall|x: (Seq<char>, int)| keys_of(v).contains(x) == (keys_of(w).contains(x) || x
            == last) by {
            if keys_of(w).contains(x) {
                let i = choose|i: int| 0 <= i < w.len() && key_of(#[trigger] w[i]) == x;
                assert(key_of(v[i]) == x);
            }
            if keys_of(v).contains(x) && x != last {
                let i = choose|i: int| 0 <= i < v.len() && key_of(#[trigger] v[i]) == x;
                assert(key_of(w[i]) == x);
            }
            assert(key_of(v[v.len() - 1]) == last);
        }
        if last.1 == slot {
            assert(keys_of(v).filter(at) =~= keys_of(w).filter(at).insert(last));
        } else {
            assert(keys_of(v).filter(at) =~= keys_of(w).filter(at));
        }
    }
}

/// Whether every decode of a list that has a grid is already heard, in its slot
/// or a later one.
pub open spec fn all_heard(m: Map<Seq<char>, Hearing>, ds: Seq<Heard>) -> bool {
    forall|i: int|
        0 <= i < ds.len() ==> match (#[trigger] ds[i]).grid {
            Some(g) => m.contains_key(g@) && ds[i].slot_utc <= m[g@].slot,
            None => true,
        }
}

proof fn lemma_hear_all_heard(m: Map<Seq<char>, Hearing>, ds: Seq<Heard>, now: int)
    ensures
        all_heard(hear_all(m, ds, now), ds),
    decreases ds.len(),
{
    if ds.len() > 0 {
        let t = ds.drop_last();
        lemma_hear_all_heard(m, t, now);
        let before = hear_all(m, t, now);
        let after = hear_all(m, ds, now);
        assert forall|i: int| 0 <= i < ds.len() implies match (#[trigger] ds[i]).grid {
            Some(g) => after.contains_key(g@) && ds[i].slot_utc <= after[g@].slot,
            None => true,
        } by {
            if i < t.len() {
                assert(ds[i] == t[i]);
            }
        }
    }
}

proof fn lemma_heard_adds_nothing(m: Map<Seq<char>, Hearing>, ds: Seq<Heard>, now: int)
    requires
        all_heard(m, ds),
    ensures
        hear_all(m, ds, now) == m,
    decreases ds.len(),
{
    if ds.len() > 0 {
        let t = ds.drop_last();
        assert forall|i: int| 0 <= i < t.len() implies match (#[trigger] t[i]).grid {
            Some(g) => m.contains_key(g@) && t[i].slot_utc <= m[g@].slot,
            None => true,
        } by {
            assert(t[i] == ds[i]);
        }
        lemma_heard_adds_nothing(m, t, now);
        assert(ds[ds.len() - 1] == ds.last());
    }
}

proof fn lemma_fading_forgets_nothing(
    m: Map<Seq<char>, Hearing>,
    ds: Seq<Heard>,
    now: int,
    fade: int,
)
    requires
        all_heard(m, ds),
    ensures
        all_heard(still_lit(m, now, fade), ds),
{
    assert forall|i: int| 0 <= i < ds.len() implies match (#[trigger] ds[i]).grid {
        Some(g) => still_lit(m, now, fade).contains_key(g@) && ds[i].slot_utc <= still_lit(
            m,
            now,
            fade,
        )[g@].slot,
        None => true,
    } by {}
}

/// The hearings after more frames with the same list of decodes.
pub open spec fn re_observed(
    m: Map<Seq<char>, Hearing>,
    ds: Seq<Heard>,
    times: Seq<int>,
    fade: int,
) -> Map<Seq<char>, Hearing>
    decreases times.len(),
{
    if times.len() == 0 {
        m
    } else {
        observed(re_observed(m, ds, times.drop_last(), fade), ds, times.last(), fade)
    }
}

/// Observing the same decodes again, at whatever later moment, does not refresh a
/// dot: all that happens is that dots go on fading.
pub proof fn law_re_observing_refreshes_nothing(
    m: Map<Seq<char>, Hearing>,
    ds: Seq<Heard>,
    first: int,
    again: int,
    fade: int,
)
    ensures
        ({
            let once = observed(m, ds, first, fade);
            observed(once, ds, again, fade) == still_lit(once, again, fade)
        }),
{
    let once = observed(m, ds, first, fade);
    lemma_hear_all_heard(m, ds, first);
    lemma_fading_forgets_nothing(hear_all(m, ds, first), ds, first, fade);
    lemma_heard_adds_nothing(once, ds, again);
}

/// A list of decodes that is observed over and over keeps no station alive: a dot
/// that is lit at the end was lit by the first frame and has been since, and one
/// that has faded stays dark.
pub proof fn law_re_observing_lights_nothing(
    m: Map<Seq<char>, Hearing>,
    ds: Seq<Heard>,
    first: int,
    times: Seq<int>,
    fade: int,
    grid: Seq<char>,
)
    ensures
        ({
            let once = observed(m, ds, first, fade);
            let later = re_observed(once, ds, times, fade);
            &&& later.contains_key(grid) == once.contains_key(grid)
            &&& later.contains_key(grid) && later[grid].lit is Some ==> later[grid] == once[grid]
        }),
    decreases times.len(),
{
    let once = observed(m, ds, first, fade);
    lemma_hear_all_heard(m, ds, first);
    lemma_fading_forgets_nothing(hear_all(m, ds, first), ds, first, fade);
    lemma_re_observed(once, ds, times, fade);
    if times.len() > 0 {
        let before = re_observed(once, ds, times.drop_last(), fade);
        law_re_observing_lights_nothing(m, ds, first, times.drop_last(), fade, grid);
        lemma_re_observed(once, ds, times.drop_last(), fade);
        lemma_heard_adds_nothing(before, ds, times.last());
    }
}

proof fn lemma_re_observed(
    m: Map<Seq<char>, Hearing>,
    ds: Seq<Heard>,
    times: Seq<int>,
    fade: int,
)
    requires
        all_heard(m, ds),
    ensures
        all_heard(re_observed(m, ds, times, fade), ds),
    decreases times.len(),
{
    if times.len() > 0 {
        let before = re_observed(m, ds, times.drop_last(), fade);
        lemma_re_observed(m, ds, times.drop_last(), fade);
        lemma_heard_adds_nothing(before, ds, times.last());
        lemma_fading_forgets_nothing(before, ds, times.last(), fade);
    }
}

/// Whether every decode of a list that could be recorded is.
pub open spec fn all_recorded(keys: Set<(Seq<char>, int)>, ds: Seq<Heard>, now_utc: int) -> bool {
    forall|i: int| 0 <= i < ds.len() ==> !is_fresh(keys, #[trigger] ds[i], now_utc)
}

proof fn lemma_record_all_recorded(keys: Set<(Seq<char>, int)>, ds: Seq<Heard>, now_utc: int)
    ensures
        all_recorded(record_all(keys, ds, now_utc).keys, ds, now_utc),
        forall|k: (Seq<char>, int)|
            keys.contains(k) ==> #[trigger] record_all(keys, ds, now_utc).keys.contains(k),
    decreases ds.len(),
{
    if ds.len() > 0 {
        let t = ds.drop_last();
        lemma_record_all_recorded(keys, t, now_utc);
        let before = record_all(keys, t, now_utc).keys;
        let after = record_all(keys, ds, now_utc).keys;
        assert forall|i: int| 0 <= i < ds.len() implies !is_fresh(after, #[trigger] ds[i], now_utc) by {
            if i < t.len() {
                assert(ds[i] == t[i]);
                assert(!is_fresh(before, t[i], now_utc));
            }
        }
    }
}

proof fn lemma_recorded_adds_nothing(keys: Set<(Seq<char>, int)>, ds: Seq<Heard>, now_utc: int)
    requires
        all_recorded(keys, ds, now_utc),
    ensures
        record_all(keys, ds, now_utc) == (Record { keys, fresh: seq![] }),
    decreases ds.len(),
{
    if ds.len() > 0 {
        let t = ds.drop_last();
        assert forall|i: int| 0 <= i < t.len() implies !is_fresh(keys, #[trigger] t[i], now_utc) by {
            assert(t[i] == ds[i]);
        }
        lemma_recorded_adds_nothing(keys, t, now_utc);
        assert(ds[ds.len() - 1] == ds.last());
    }
}

/// A decode that stays in the caller's list is recorded once: observing the
/// same list again by the same clock finds nothing new.
pub proof fn law_re_observing_records_nothing(
    keys: Set<(Seq<char>, int)>,
    ds: Seq<Heard>,
    now_utc: int,
)
    ensures
        record_all(record_all(keys, ds, now_utc).keys, ds, now_utc).fresh.len() == 0,
{
    lemma_record_all_recorded(keys, ds, now_utc);
    lemma_recorded_adds_nothing(record_all(keys, ds, now_utc).keys, ds, now_utc);
}

/// A decode without a grid, or with one that is no place, puts nothing on the
/// map and nothing in the history.
pub proof fn law_no_place_no_dot(d: Heard, m: Map<Seq<char>, Hearing>, r: Record, now: int)
    ensures
        d.grid is None ==> hear(m, d, now) == m,
        d.grid is None || d.place is None ==> record(r, d, now) == r,
        forall|h: Hearing, fade: int| h.place is None ==> #[trigger] dot(h, now, fade) is None,
{
}

/// The history stays oldest first and inside the hour, in whatever order the
/// decodes come.
pub proof fn law_history_in_order(
    h: Seq<DigiHit>,
    keys: Set<(Seq<char>, int)>,
    ds: Seq<Heard>,
    now_utc: int,
)
    requires
        in_order(h, by_slot()),
    ensures
        in_order(history_after(h, keys, ds, now_utc), by_slot()),
        forall|i: int|
            0 <= i < history_after(h, keys, ds, now_utc).len() ==> (#[trigger] history_after(
                h,
                keys,
                ds,
                now_utc,
            )[i]).slot_utc > now_utc - HISTORY_S,
{
    let fresh = record_all(keys, ds, now_utc).fresh;
    let kept = if expired(h, now_utc) {
        recent(h, now_utc)
    } else {
        h
    };
    let all = kept + fresh;
    let sorted = stable_sort(all, by_slot());
    assert(orders(by_slot()));
    law_stable_sort_in_order(all, by_slot());
    assert forall|i: int| 0 <= i < all.len() implies (#[trigger] all[i]).slot_utc > now_utc
        - HISTORY_S by {
        if i >= kept.len() {
            lemma_fresh_recent(keys, ds, now_utc, i - kept.len());
        } else if expired(h, now_utc) {
            lemma_recent_items(h, now_utc, i);
        } else if i > 0 {
            assert(!older(h[i], h[0]));
        }
    }
    assert forall|j: int| 0 <= j < sorted.len() implies (#[trigger] sorted[j]).slot_utc > now_utc
        - HISTORY_S by {
        lemma_sorted_items(all, j);
        let k = choose|k: int| 0 <= k < all.len() && all[k] == sorted[j];
        assert(all[k].slot_utc > now_utc - HISTORY_S);
    }
}

proof fn lemma_recent_items(h: Seq<DigiHit>, now_utc: int, i: int)
    requires
        0 <= i < recent(h, now_utc).len(),
    ensures
        h.contains(recent(h, now_utc)[i]),
        recent(h, now_utc)[i].slot_utc > now_utc - HISTORY_S,
    decreases h.len(),
{
    reveal(Seq::filter);
    if h.len() > 0 {
        let t = h.drop_last();
        if i < recent(t, now_utc).len() {
            lemma_recent_items(t, now_utc, i);
            let k = choose|k: int| 0 <= k < t.len() && t[k] == recent(t, now_utc)[i];
            assert(h[k] == t[k]);
        } else {
            assert(h[h.len() - 1] == recent(h, now_utc)[i]);
        }
    }
}

proof fn lemma_recent_in_order(h: Seq<DigiHit>, now_utc: int)
    requires
        in_order(h, by_slot()),
    ensures
        in_order(recent(h, now_utc), by_slot()),
    decreases h.len(),
{
    reveal(Seq::filter);
    if h.len() > 0 {
        let t = h.drop_last();
        assert forall|i: int, j: int| 0 <= i < j < t.len() implies !older(
            #[trigger] t[j],
            #[trigger] t[i],
        ) by {
            assert(!older(h[j], h[i]));
        }
        lemma_recent_in_order(t, now_utc);
        let r = recent(t, now_utc);
        assert forall|i: int, j: int| 0 <= i < j < recent(h, now_utc).len() implies !older(
            #[trigger] recent(h, now_utc)[j],
            #[trigger] recent(h, now_utc)[i],
        ) by {
            if j < r.len() {
                assert(!older(r[j], r[i]));
            } else {
                lemma_recent_items(t, now_utc, i);
                let k = choose|k: int| 0 <= k < t.len() && t[k] == r[i];
                assert(!older(h[h.len() - 1], h[k]));
            }
        }
    }
}

proof fn lemma_sorted_items(s: Seq<DigiHit>, j: int)
    requires
        0 <= j < stable_sort(s, by_slot()).len(),
    ensures
        s.contains(stable_sort(s, by_slot())[j]),
{
    broadcast use vstd::seq_lib::group_to_multiset_ensures;

    law_stable_sort_keeps_items(s, by_slot());
    let r = stable_sort(s, by_slot());
    assert(r.contains(r[j]));
    assert(s.to_multiset().count(r[j]) > 0);
}

/// Each new hit lies inside the hour.
proof fn lemma_fresh_recent(keys: Set<(Seq<char>, int)>, ds: Seq<Heard>, now_utc: int, k: int)
    requires
        0 <= k < record_all(keys, ds, now_utc).fresh.len(),
    ensures
        record_all(keys, ds, now_utc).fresh[k].slot_utc > now_utc - HISTORY_S,
    decreases ds.len(),
{
    if ds.len() > 0 {
        let t = ds.drop_last();
        if k < record_all(keys, t, now_utc).fresh.len() {
            lemma_fresh_recent(keys, t, now_utc, k);
        }
    }
}

/// A grid square that is heard in a newer slot than before, or for the first time,
/// lights up, whatever was shown there; the same slot or an older one changes
/// nothing, and neither do other squares.
pub proof fn law_newer_slots_light_up(
    m: Map<Seq<char>, Hearing>,
    ds: Seq<Heard>,
    d: Heard,
    now: int,
    grid: Seq<char>,
)
    ensures
        ({
            let before = hear_all(m, ds, now);
            let after = hear_all(m, ds.push(d), now);
            let newer = d.grid is Some && d.grid->0@ == grid && (!before.contains_key(grid)
                || before[grid].slot < d.slot_utc);
            &&& hear_all(m, Seq::empty(), now) == m
            &&& newer ==> after.contains_key(grid) && after[grid].slot == d.slot_utc
                && after[grid].lit == Some(now) && after[grid].place == d.place
            &&& !newer ==> after.contains_key(grid) == before.contains_key(grid)
            &&& !newer && before.contains_key(grid) ==> after[grid] == before[grid]
        }),
{
    assert(ds.push(d).drop_last() == ds);
}

/// A dot loses its light evenly from when it was lit until its time is over, and is
/// then gone for good; one that was lit ahead of the clock is as bright as a new one.
pub proof fn law_dots_lose_their_light(h: Hearing, at: int, now: int, fade: int)
    requires
        h.lit == Some(at),
        h.place is Some,
        0 < fade <= i64::MAX,
    ensures
        now < at + fade ==> (dot(h, now, fade) matches Some(l) && l.place == h.place->0 && l.fade
            == fade && l.left == if now > at {
            at + fade - now
        } else {
            fade
        }),
        now >= at + fade ==> dot(h, now, fade) is None && dimmed(h, now, fade).lit is None,
        now < at + fade ==> dimmed(h, now, fade) == h,
        dimmed(h, now, fade).slot == h.slot,
{
}

/// The map shows the lit squares, each once and no others: one more square adds its
/// dot behind the rest, or nothing.
pub proof fn law_dots_are_those_of_the_squares(
    grids: Seq<Seq<char>>,
    grid: Seq<char>,
    m: Map<Seq<char>, Hearing>,
    now: int,
    fade: int,
)
    ensures
        dots(Seq::empty(), m, now, fade) == Seq::<Lit>::empty(),
        dots(grids.push(grid), m, now, fade) == dots(grids, m, now, fade) + match dot(
            m[grid],
            now,
            fade,
        ) {
            Some(l) => seq![l],
            None => Seq::<Lit>::empty(),
        },
{
    assert(grids.push(grid).drop_last() == grids);
}

/// What goes on record is what has a place and comes from the last hour, or from a
/// slot up to five minutes ahead of the clock, and is not there for its square and
/// slot yet.
pub proof fn law_record_takes_the_last_hour(
    keys: Set<(Seq<char>, int)>,
    ds: Seq<Heard>,
    d: Heard,
    now_utc: int,
)
    ensures
        ({
            let before = record_all(keys, ds, now_utc);
            let after = record_all(keys, ds.push(d), now_utc);
            let new = d.grid is Some && d.place is Some && now_utc < d.slot_utc + 3600 && d.slot_utc
                <= now_utc + 300 && !before.keys.contains((d.grid->0@, d.slot_utc as int));
            &&& record_all(keys, Seq::empty(), now_utc) == Record { keys, fresh: Seq::empty() }
            &&& new ==> after.fresh == before.fresh.push(
                DigiHit { place: d.place->0, slot_utc: d.slot_utc },
            ) && after.keys == before.keys.insert((d.grid->0@, d.slot_utc as int))
            &&& !new ==> after == before
        }),
{
    assert(ds.push(d).drop_last() == ds);
}

/// The history keeps every hit of the last hour and what is new, and drops what is
/// older.
pub proof fn law_history_keeps_the_hour(
    h: Seq<DigiHit>,
    keys: Set<(Seq<char>, int)>,
    ds: Seq<Heard>,
    now_utc: int,
    hit: DigiHit,
)
    requires
        in_order(h, by_slot()),
    ensures
        history_after(h, keys, ds, now_utc).to_multiset().count(hit) == (if hit.slot_utc > now_utc
            - 3600 {
            h.to_multiset().count(hit)
        } else {
            0
        }) + record_all(keys, ds, now_utc).fresh.to_multiset().count(hit),
{
    broadcast use vstd::seq_lib::group_to_multiset_ensures;

    let fresh = record_all(keys, ds, now_utc).fresh;
    let kept = if expired(h, now_utc) {
        recent(h, now_utc)
    } else {
        h
    };
    law_stable_sort_keeps_items(kept + fresh, by_slot());
    vstd::seq_lib::lemma_multiset_commutative(kept, fresh);
    lemma_recent_count(h, now_utc, hit);
    if !expired(h, now_utc) {
        lemma_unexpired(h, now_utc);
        if hit.slot_utc <= now_utc - 3600 && h.to_multiset().count(hit) > 0 {
            assert(h.contains(hit));
        }
    }
}

/// What is left of a history by the hour, counted.
proof fn lemma_recent_count(h: Seq<DigiHit>, now_utc: int, hit: DigiHit)
    ensures
        recent(h, now_utc).to_multiset().count(hit) == if hit.slot_utc > now_utc - 3600 {
            h.to_multiset().count(hit)
        } else {
            0
        },
    decreases h.len(),
{
    broadcast use vstd::seq_lib::group_to_multiset_ensures;

    reveal(Seq::filter);
    if h.len() > 0 {
        let t = h.drop_last();
        lemma_recent_count(t, now_utc, hit);
        assert(h == t.push(h.last()));
        if h.last().slot_utc > now_utc - HISTORY_S {
            assert(recent(h, now_utc) == recent(t, now_utc).push(h.last()));
        } else {
            assert(recent(h, now_utc) == recent(t, now_utc));
        }
    } else {
        assert(recent(h, now_utc) == h);
    }
}

/// A history in order whose first entry is inside the hour lies inside it.
proof fn lemma_unexpired(h: Seq<DigiHit>, now_utc: int)
    requires
        in_order(h, by_slot()),
        !expired(h, now_utc),
    ensures
        forall|i: int| 0 <= i < h.len() ==> (#[trigger] h[i]).slot_utc > now_utc - HISTORY_S,
{
    assert forall|i: int| 0 <= i < h.len() implies (#[trigger] h[i]).slot_utc > now_utc - HISTORY_S by {
        if i > 0 {
            assert(!by_slot()(h[i], h[0]));
        }
    }
}

/// A station stays lit as long as is set, and never less than a second.
pub proof fn law_stations_stay_lit_a_second(micros: int)
    ensures
        micros >= 1_000_000 ==> fade_for(micros) == micros,
        micros <= 1_000_000 ==> fade_for(micros) == 1_000_000,
{
}

/// What is on record is forgotten once it is an hour old, along with its hit, so that
/// neither list grows on.
pub proof fn law_record_forgets_after_an_hour(
    h: Seq<DigiHit>,
    keys: Set<(Seq<char>, int)>,
    ds: Seq<Heard>,
    now_utc: int,
    key: (Seq<char>, int),
)
    ensures
        h.len() > 0 && h[0].slot_utc + 3600 <= now_utc ==> (keys_after(h, keys, ds, now_utc).contains(
            key,
        ) <==> record_all(keys, ds, now_utc).keys.contains(key) && now_utc < key.1 + 3600),
        h.len() == 0 || h[0].slot_utc + 3600 > now_utc ==> keys_after(h, keys, ds, now_utc)
            == record_all(keys, ds, now_utc).keys,
{
}

} // verus!
