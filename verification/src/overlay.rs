//! The callsign boxes on the waterfall: FT8/FT4 stations and skimmed signals,
//! and how long each stays.
use crate::decodes::Decode;
use crate::sort::lemma_filtered;
use core::hash::{Hash, Hasher};
use std::collections::hash_map::DefaultHasher;
use vstd::prelude::*;
use vstd::std_specs::hash::DefaultHasherAdditionalSpecFns;

verus! {

/// Boxes of decodes stop being drawn once the newest decode is this old, so
/// that a stalled decoder doesn't leave labels on the waterfall for good.
pub const FT8_LABEL_MAX_AGE_S: i64 = 45;

/// How far behind the newest slot a decode still gets a box, in seconds.
pub const FT8_LABEL_SPAN_S: i64 = 30;

/// A skimmer box fades to nothing over this many microseconds after its signal
/// stops keying.
pub const SKIMMER_FADE_US: i64 = 5_000_000;

/// A box with no more than this much of its fade left is not drawn: a fiftieth.
pub const SKIMMER_DROP_US: i64 = 100_000;

/// What hashing a string writes to a hasher.
pub uninterp spec fn str_writes(s: Seq<char>) -> Seq<Seq<u8>>;

/// `<str as Hash>::hash`: feeds a string to a hasher. What it writes depends on
/// the string alone.
#[verifier::external_body]
fn hash_str(s: &str, h: &mut DefaultHasher)
    ensures
        final(h)@ == old(h)@ + str_writes(s@),
{
    s.hash(h);
}

/// The id of a callsign's box.
pub open spec fn call_id(s: Seq<char>) -> u64 {
    DefaultHasher::spec_finish(str_writes(s))
}

/// Stable per-callsign id for the overlay boxes (keeps a station's box in place
/// across slots).
pub fn hash_call(s: &str) -> (r: u64)
    ensures
        r == call_id(s@),
{
    let mut h = DefaultHasher::new();
    hash_str(s, &mut h);
    assert(h@ =~= str_writes(s@));
    h.finish()
}

/// The box of a decoded station.
#[derive(Clone, Copy, Debug, PartialEq, Eq, Structural)]
pub struct StationBox {
    /// The decode, by its place in the list.
    pub decode: usize,
    pub id: u64,
    /// Whether it is of the newest slot; the slots before are dimmed.
    pub newest: bool,
}

/// Whether a decode is recent enough for a box.
pub open spec fn in_span(ds: Seq<Decode>, i: int) -> bool {
    ds[0].slot_utc - ds[i].slot_utc <= FT8_LABEL_SPAN_S
}

/// Whether a decode is the first of its sender in the list.
pub open spec fn first_of_sender(ds: Seq<Decode>, i: int) -> bool {
    &&& ds[i].from is Some
    &&& forall|j: int|
        0 <= j < i && (#[trigger] ds[j]).from is Some ==> ds[j].from->0@ != ds[i].from->0@
}

/// The boxes of the first `n` decodes: the newest decode of each station.
pub open spec fn boxes(ds: Seq<Decode>, n: int) -> Seq<StationBox>
    decreases n,
{
    if n <= 0 {
        seq![]
    } else {
        let rest = boxes(ds, n - 1);
        let i = n - 1;
        if first_of_sender(ds, i) {
            rest.push(
                StationBox {
                    decode: i as usize,
                    id: call_id(ds[i].from->0@),
                    newest: ds[i].slot_utc == ds[0].slot_utc,
                },
            )
        } else {
            rest
        }
    }
}

/// How many decodes at the front of the list are recent enough for a box.
pub open spec fn span_len(ds: Seq<Decode>, n: int) -> int
    decreases n,
{
    if n <= 0 {
        0
    } else {
        let k = span_len(ds, n - 1);
        if k == n - 1 && in_span(ds, n - 1) {
            n
        } else {
            k
        }
    }
}

/// The boxes of a list of decodes, newest first, at a moment: none once the
/// newest is too old.
pub open spec fn station_boxes(ds: Seq<Decode>, now: int) -> Seq<StationBox> {
    if ds.len() == 0 || now - ds[0].slot_utc > FT8_LABEL_MAX_AGE_S {
        seq![]
    } else {
        boxes(ds, span_len(ds, ds.len() as int))
    }
}

/// Whether a call was among the senders of the first `n` decodes.
fn heard_before(ds: &Vec<Decode>, n: usize, call: &String) -> (r: bool)
    requires
        n <= ds@.len(),
    ensures
        r == exists|j: int| 0 <= j < n && (#[trigger] ds@[j]).from is Some && ds@[j].from->0@ == call@,
{
    let mut j: usize = 0;
    while j < n
        invariant
            j <= n <= ds@.len(),
            forall|k: int|
                0 <= k < j && (#[trigger] ds@[k]).from is Some ==> ds@[k].from->0@ != call@,
        decreases n - j,
    {
        if let Some(c) = &ds[j].from {
            if *c == *call {
                assert(ds@[j as int].from is Some);
                return true;
            }
        }
        j = j + 1;
    }
    false
}

/// Mark FT8/FT4 stations on the waterfall: one box per decoded callsign, of the
/// last couple of slots.
pub fn ft8_overlay(ds: &Vec<Decode>, now: i64) -> (r: Vec<StationBox>)
    ensures
        r@ == station_boxes(ds@, now as int),
{
    let mut out: Vec<StationBox> = Vec::new();
    if ds.len() == 0 {
        return out;
    }
    let latest: i64 = ds[0].slot_utc;
    if now as i128 - latest as i128 > FT8_LABEL_MAX_AGE_S as i128 {
        return out;
    }
    let mut i: usize = 0;
    while i < ds.len()
        invariant_except_break
            0 < ds@.len(),
            latest == ds@[0].slot_utc,
            i <= ds@.len(),
            span_len(ds@, i as int) == i,
            out@ == boxes(ds@, i as int),
        ensures
            out@ == boxes(ds@, span_len(ds@, ds@.len() as int)),
        decreases ds@.len() - i,
    {
        let d = &ds[i];
        if latest as i128 - d.slot_utc as i128 > FT8_LABEL_SPAN_S as i128 {
            proof {
                lemma_span_stops(ds@, i as int, ds@.len() as int);
            }
            break ;
        }
        if let Some(call) = &d.from {
            if !heard_before(ds, i, call) {
                assert(first_of_sender(ds@, i as int));
                out.push(
                    StationBox {
                        decode: i,
                        id: hash_call(call.as_str()),
                        newest: d.slot_utc == latest,
                    },
                );
            }
        }
        i = i + 1;
    }
    out
}

proof fn lemma_span_stops(ds: Seq<Decode>, k: int, n: int)
    requires
        0 <= k < n,
        span_len(ds, k) == k,
        !in_span(ds, k),
    ensures
        span_len(ds, n) == k,
    decreases n,
{
    if n > k + 1 {
        lemma_span_stops(ds, k, n - 1);
    }
}

/// Every callsign has at most one box.
pub proof fn law_one_box_per_call(ds: Seq<Decode>, n: int, i: int, j: int)
    requires
        0 <= n <= ds.len() <= usize::MAX,
        0 <= i < j < boxes(ds, n).len(),
    ensures
        0 <= boxes(ds, n)[i].decode < boxes(ds, n)[j].decode < n,
        ds[boxes(ds, n)[i].decode as int].from is Some,
        ds[boxes(ds, n)[j].decode as int].from is Some,
        ds[boxes(ds, n)[i].decode as int].from->0@ != ds[boxes(ds, n)[j].decode as int].from->0@,
    decreases n,
{
    if n > 0 {
        let rest = boxes(ds, n - 1);
        if j < rest.len() {
            law_one_box_per_call(ds, n - 1, i, j);
        } else {
            lemma_box_place(ds, n - 1, i);
            assert(first_of_sender(ds, n - 1));
        }
    }
}

proof fn lemma_box_place(ds: Seq<Decode>, n: int, i: int)
    requires
        0 <= n <= ds.len() <= usize::MAX,
        0 <= i < boxes(ds, n).len(),
    ensures
        0 <= boxes(ds, n)[i].decode < n,
        ds[boxes(ds, n)[i].decode as int].from is Some,
    decreases n,
{
    if n > 0 {
        let rest = boxes(ds, n - 1);
        if i < rest.len() {
            lemma_box_place(ds, n - 1, i);
        }
    }
}

/// A kind of skimmer.
#[derive(Clone, Copy, Debug, PartialEq, Eq, Structural)]
pub enum SkimmerKind {
    Cw,
    Psk,
    Rtty,
}

/// A skimmed signal, as far as its box depends on it.
#[derive(Clone, Copy, Debug, PartialEq, Eq, Structural)]
pub struct SkimmerSpot {
    pub id: u64,
    pub kind: SkimmerKind,
    /// Whether it is keying.
    pub active: bool,
}

/// When a signal last keyed, by its id.
#[derive(Clone, Copy, Debug, PartialEq, Eq, Structural)]
pub struct Keyed {
    pub id: u64,
    /// The frame time, in microseconds.
    pub at: i64,
}

/// The skimmed signals and when each last keyed.
pub struct Skimmer {
    pub spots: Vec<SkimmerSpot>,
    pub keyed: Vec<Keyed>,
}

/// A box of a skimmed signal: the part of its fade that is left.
#[derive(Clone, Copy, Debug, PartialEq, Eq, Structural)]
pub struct SkimmerBox {
    /// The signal, by its place in the list.
    pub spot: usize,
    /// Microseconds of light left, out of [`SKIMMER_FADE_US`].
    pub left: i64,
}

/// When each signal last keyed.
pub open spec fn keyed_map(v: Seq<Keyed>) -> Map<u64, i64>
    decreases v.len(),
{
    if v.len() == 0 {
        Map::empty()
    } else {
        keyed_map(v.drop_last()).insert(v.last().id, v.last().at)
    }
}

/// When each of the first `n` signals last keyed: now if it is keying or was
/// not known before, else when it did.
pub open spec fn rekeyed(
    spots: Seq<SkimmerSpot>,
    old: Map<u64, i64>,
    now: i64,
    n: int,
) -> Map<u64, i64>
    decreases n,
{
    if n <= 0 {
        Map::empty()
    } else {
        let rest = rekeyed(spots, old, now, n - 1);
        let s = spots[n - 1];
        if s.active {
            rest.insert(s.id, now)
        } else if rest.contains_key(s.id) {
            rest
        } else if old.contains_key(s.id) {
            rest.insert(s.id, old[s.id])
        } else {
            rest.insert(s.id, now)
        }
    }
}

proof fn lemma_keyed_has(v: Seq<Keyed>, id: u64)
    ensures
        keyed_map(v).contains_key(id) == exists|i: int| 0 <= i < v.len() && (#[trigger] v[i]).id == id,
    decreases v.len(),
{
    if v.len() > 0 {
        let t = v.drop_last();
        lemma_keyed_has(t, id);
        if keyed_map(t).contains_key(id) {
            let i = choose|i: int| 0 <= i < t.len() && (#[trigger] t[i]).id == id;
            assert(v[i].id == id);
        }
        assert(v[v.len() - 1] == v.last());
        if exists|i: int| 0 <= i < v.len() && (#[trigger] v[i]).id == id {
            let i = choose|i: int| 0 <= i < v.len() && (#[trigger] v[i]).id == id;
            if i < t.len() {
                assert(t[i].id == id);
            }
        }
    }
}

proof fn lemma_keyed_last(v: Seq<Keyed>, k: int)
    requires
        0 <= k < v.len(),
        forall|i: int| k < i < v.len() ==> (#[trigger] v[i]).id != v[k].id,
    ensures
        keyed_map(v)[v[k].id] == v[k].at,
        keyed_map(v).contains_key(v[k].id),
    decreases v.len(),
{
    if k < v.len() - 1 {
        let t = v.drop_last();
        assert forall|i: int| k < i < t.len() implies (#[trigger] t[i]).id != t[k].id by {
            assert(t[i] == v[i]);
        }
        lemma_keyed_last(t, k);
        assert(v[v.len() - 1].id != v[k].id);
    }
}

/// When a signal last keyed.
fn last_keyed(v: &Vec<Keyed>, id: u64) -> (r: Option<i64>)
    ensures
        match r {
            Some(at) => keyed_map(v@).contains_key(id) && keyed_map(v@)[id] == at,
            None => !keyed_map(v@).contains_key(id),
        },
{
    let mut i: usize = v.len();
    while i > 0
        invariant
            i <= v@.len(),
            forall|j: int| i <= j < v@.len() ==> (#[trigger] v@[j]).id != id,
        decreases i,
    {
        i = i - 1;
        if v[i].id == id {
            proof {
                lemma_keyed_last(v@, i as int);
            }
            return Some(v[i].at);
        }
    }
    proof {
        lemma_keyed_has(v@, id);
    }
    None
}

/// What is left of the fade of a signal's box.
pub open spec fn light_left(s: SkimmerSpot, keyed: Map<u64, i64>, now: int) -> int {
    let last = if keyed.contains_key(s.id) {
        keyed[s.id] as int
    } else {
        now
    };
    let left = SKIMMER_FADE_US - (now - last);
    if s.active || left > SKIMMER_FADE_US {
        SKIMMER_FADE_US as int
    } else {
        left
    }
}

/// The boxes of the first `n` signals: those with enough of their fade left.
pub open spec fn lit_boxes(
    spots: Seq<SkimmerSpot>,
    keyed: Map<u64, i64>,
    now: int,
    n: int,
) -> Seq<SkimmerBox>
    decreases n,
{
    if n <= 0 {
        seq![]
    } else {
        let rest = lit_boxes(spots, keyed, now, n - 1);
        let left = light_left(spots[n - 1], keyed, now);
        if left > SKIMMER_DROP_US {
            rest.push(SkimmerBox { spot: (n - 1) as usize, left: left as i64 })
        } else {
            rest
        }
    }
}

/// The signals of the kinds that are switched on.
pub open spec fn enabled_spots(
    spots: Seq<SkimmerSpot>,
    cw: bool,
    psk: bool,
    rtty: bool,
) -> Seq<SkimmerSpot> {
    spots.filter(kinds_on(cw, psk, rtty))
}

/// Whether a signal is of a kind that is switched on.
pub open spec fn kinds_on(cw: bool, psk: bool, rtty: bool) -> spec_fn(SkimmerSpot) -> bool {
    |s: SkimmerSpot|
        match s.kind {
            SkimmerKind::Cw => cw,
            SkimmerKind::Psk => psk,
            SkimmerKind::Rtty => rtty,
        }
}

impl Skimmer {
    /// Take in the current set of signals. Each box keeps its place by its id;
    /// when a signal was last keying is remembered, and forgotten once the
    /// signal is no longer reported.
    pub fn on_spots(&mut self, spots: Vec<SkimmerSpot>, now: i64)
        ensures
            final(self).spots@ == spots@,
            keyed_map(final(self).keyed@) == rekeyed(
                spots@,
                keyed_map(old(self).keyed@),
                now,
                spots@.len() as int,
            ),
    {
        let mut fresh: Vec<Keyed> = Vec::new();
        let ghost old_map = keyed_map(self.keyed@);
        let mut i: usize = 0;
        while i < spots.len()
            invariant
                i <= spots@.len(),
                old_map == keyed_map(self.keyed@),
                keyed_map(fresh@) == rekeyed(spots@, old_map, now, i as int),
            decreases spots@.len() - i,
        {
            let s = spots[i];
            let ghost before = fresh@;
            if s.active {
                fresh.push(Keyed { id: s.id, at: now });
                assert(fresh@.drop_last() =~= before);
            } else if last_keyed(&fresh, s.id).is_none() {
                let at: i64 = match last_keyed(&self.keyed, s.id) {
                    Some(at) => at,
                    None => now,
                };
                fresh.push(Keyed { id: s.id, at });
                assert(fresh@.drop_last() =~= before);
            }
            i = i + 1;
        }
        self.keyed = fresh;
        self.spots = spots;
    }

    /// Drop the signals of skimmers that are switched off: those stop
    /// reporting, so their last boxes would stay otherwise.
    pub fn drop_disabled(&mut self, cw: bool, psk: bool, rtty: bool)
        ensures
            final(self).spots@ == enabled_spots(old(self).spots@, cw, psk, rtty),
            final(self).keyed == old(self).keyed,
    {
        let mut kept: Vec<SkimmerSpot> = Vec::new();
        let mut i: usize = 0;
        proof {
            reveal(Seq::filter);
            assert(self.spots@.take(0) =~= Seq::<SkimmerSpot>::empty());
        }
        while i < self.spots.len()
            invariant
                i <= self.spots@.len(),
                *self == *old(self),
                kept@ == enabled_spots(self.spots@.take(i as int), cw, psk, rtty),
            decreases self.spots@.len() - i,
        {
            proof {
                reveal(Seq::filter);
                assert(self.spots@.take(i + 1).drop_last() =~= self.spots@.take(i as int));
            }
            let s = self.spots[i];
            let on = match s.kind {
                SkimmerKind::Cw => cw,
                SkimmerKind::Psk => psk,
                SkimmerKind::Rtty => rtty,
            };
            if on {
                kept.push(s);
            }
            i = i + 1;
        }
        assert(self.spots@.take(i as int) =~= self.spots@);
        self.spots = kept;
    }

    /// The boxes to draw: a box fades out once its signal stops keying, and is
    /// dropped when it has all but gone, so that it frees its lane.
    pub fn cw_overlay(&self, now: i64) -> (r: Vec<SkimmerBox>)
        ensures
            r@ == lit_boxes(
                self.spots@,
                keyed_map(self.keyed@),
                now as int,
                self.spots@.len() as int,
            ),
    {
        let mut out: Vec<SkimmerBox> = Vec::new();
        let mut i: usize = 0;
        while i < self.spots.len()
            invariant
                i <= self.spots@.len(),
                out@ == lit_boxes(self.spots@, keyed_map(self.keyed@), now as int, i as int),
            decreases self.spots@.len() - i,
        {
            let s = self.spots[i];
            let last: i64 = match last_keyed(&self.keyed, s.id) {
                Some(at) => at,
                None => now,
            };
            let left: i128 = SKIMMER_FADE_US as i128 - (now as i128 - last as i128);
            let left: i128 = if s.active || left > SKIMMER_FADE_US as i128 {
                SKIMMER_FADE_US as i128
            } else {
                left
            };
            if left > SKIMMER_DROP_US as i128 {
                out.push(SkimmerBox { spot: i, left: left as i64 });
            }
            i = i + 1;
        }
        out
    }
}

/// A place is among the boxes of the first decodes just where a decode is the first
/// of its sender, and says of it what it should.
proof fn lemma_boxes(ds: Seq<Decode>, n: int, i: int)
    requires
        0 <= i < n <= ds.len() <= usize::MAX,
        first_of_sender(ds, i),
    ensures
        exists|k: int|
            0 <= k < boxes(ds, n).len() && (#[trigger] boxes(ds, n)[k]).decode == i,
    decreases n,
{
    if i == n - 1 {
        assert(boxes(ds, n)[boxes(ds, n).len() - 1].decode == i);
    } else {
        lemma_boxes(ds, n - 1, i);
        let k = choose|k: int|
            0 <= k < boxes(ds, n - 1).len() && (#[trigger] boxes(ds, n - 1)[k]).decode == i;
        assert(boxes(ds, n)[k] == boxes(ds, n - 1)[k]);
    }
}

/// What each box says.
proof fn lemma_box_says(ds: Seq<Decode>, n: int, k: int)
    requires
        0 <= n <= ds.len() <= usize::MAX,
        0 <= k < boxes(ds, n).len(),
    ensures
        ({
            let b = boxes(ds, n)[k];
            let i = b.decode as int;
            &&& 0 <= i < n
            &&& first_of_sender(ds, i)
            &&& b.id == call_id(ds[i].from->0@)
            &&& b.newest == (ds[i].slot_utc == ds[0].slot_utc)
        }),
    decreases n,
{
    if n > 0 {
        if k < boxes(ds, n - 1).len() {
            lemma_box_says(ds, n - 1, k);
            assert(boxes(ds, n)[k] == boxes(ds, n - 1)[k]);
        }
    }
}

/// The front of the list that is recent enough: every decode in it is, and the next
/// one is not.
proof fn lemma_span_len(ds: Seq<Decode>, n: int, i: int)
    requires
        0 <= i < n <= ds.len(),
    ensures
        0 <= span_len(ds, n) <= n,
        i < span_len(ds, n) ==> in_span(ds, i),
        (forall|k: int| 0 <= k <= i ==> in_span(ds, k)) ==> i < span_len(ds, n),
    decreases n,
{
    assert(span_len(ds, 0) == 0);
    if i < n - 1 {
        lemma_span_len(ds, n - 1, i);
    } else if n > 1 {
        lemma_span_len(ds, n - 1, n - 2);
    }
}

/// Every station that was decoded in the last half minute has a box, while the
/// newest decode is no older than 45 seconds: at its newest decode, which is the
/// first that the list, newest first, has of it.
pub proof fn law_recent_stations_have_a_box(ds: Seq<Decode>, now: int, i: int)
    requires
        0 <= i < ds.len() <= usize::MAX,
        ds[i].from is Some,
        now <= ds[0].slot_utc + 45,
        forall|k: int| 0 <= k <= i ==> ds[0].slot_utc <= (#[trigger] ds[k]).slot_utc + 30,
    ensures
        exists|k: int|
            0 <= k < station_boxes(ds, now).len() && (#[trigger] station_boxes(ds, now)[k]).decode
                <= i && ds[station_boxes(ds, now)[k].decode as int].from is Some
                && ds[station_boxes(ds, now)[k].decode as int].from->0@ == ds[i].from->0@,
    decreases i,
{
    if exists|j: int|
        0 <= j < i && (#[trigger] ds[j]).from is Some && ds[j].from->0@ == ds[i].from->0@ {
        let j = choose|j: int|
            0 <= j < i && (#[trigger] ds[j]).from is Some && ds[j].from->0@ == ds[i].from->0@;
        law_recent_stations_have_a_box(ds, now, j);
    } else {
        let n = ds.len() as int;
        assert forall|k: int| 0 <= k <= i implies in_span(ds, k) by {
            assert(ds[0].slot_utc <= ds[k].slot_utc + 30);
        }
        lemma_span_len(ds, n, i);
        lemma_boxes(ds, span_len(ds, n), i);
    }
}

/// Only those have one: a box stands for a decode of the last half minute before
/// the newest one, whose sender has not been decoded since, and none is shown once
/// the newest is older than 45 seconds. Those of the newest slot are told apart.
pub proof fn law_boxes_are_of_recent_stations(ds: Seq<Decode>, now: int, k: int)
    requires
        ds.len() <= usize::MAX,
        0 <= k < station_boxes(ds, now).len(),
    ensures
        ({
            let b = station_boxes(ds, now)[k];
            let i = b.decode as int;
            &&& 0 <= i < ds.len() && ds[i].from is Some
            &&& now <= ds[0].slot_utc + 45
            &&& ds[0].slot_utc <= ds[i].slot_utc + 30
            &&& b.newest <==> ds[i].slot_utc == ds[0].slot_utc
            &&& b.id == call_id(ds[i].from->0@)
            &&& forall|j: int|
                0 <= j < i && (#[trigger] ds[j]).from is Some ==> ds[j].from->0@ != ds[i].from->0@
        }),
{
    let n = ds.len() as int;
    lemma_span_len(ds, n, 0);
    lemma_box_says(ds, span_len(ds, n), k);
    lemma_span_len(ds, n, station_boxes(ds, now)[k].decode as int);
}

/// When a signal last keyed is known of just those that are reported: it is now for
/// one that keys or is new, and for another it stays when it was.
pub proof fn law_keying_is_remembered(
    spots: Seq<SkimmerSpot>,
    old: Map<u64, i64>,
    now: i64,
    n: int,
    id: u64,
)
    requires
        0 <= n <= spots.len(),
    ensures
        ({
            let m = rekeyed(spots, old, now, n);
            let reported = exists|i: int| 0 <= i < n && (#[trigger] spots[i]).id == id;
            let keys = exists|i: int|
                0 <= i < n && (#[trigger] spots[i]).id == id && spots[i].active;
            &&& m.contains_key(id) <==> reported
            &&& reported ==> m[id] == if !keys && old.contains_key(id) {
                old[id]
            } else {
                now
            }
        }),
    decreases n,
{
    if n > 0 {
        law_keying_is_remembered(spots, old, now, n - 1, id);
        let m = rekeyed(spots, old, now, n - 1);
        let s = spots[n - 1];
        if s.id != id {
            assert forall|i: int| 0 <= i < n && (#[trigger] spots[i]).id == id implies i < n - 1 by {}
        }
    }
}

/// A signal that keys has its box in full light. After it stopped the light goes
/// down evenly over five seconds, and in the last tenth of a second the box is gone.
pub proof fn law_boxes_fade_after_keying(
    spots: Seq<SkimmerSpot>,
    keyed: Map<u64, i64>,
    now: int,
    n: int,
    i: int,
)
    requires
        0 <= i < n <= spots.len() <= usize::MAX,
        keyed.contains_key(spots[i].id),
    ensures
        ({
            let since = now - keyed[spots[i].id];
            let shown = |left: int|
                exists|k: int|
                    0 <= k < lit_boxes(spots, keyed, now, n).len() && (#[trigger] lit_boxes(
                        spots,
                        keyed,
                        now,
                        n,
                    )[k]).spot == i && lit_boxes(spots, keyed, now, n)[k].left == left;
            &&& spots[i].active || since <= 0 ==> shown(5_000_000)
            &&& !spots[i].active && 0 <= since < 4_900_000 ==> shown(5_000_000 - since)
            &&& !spots[i].active && since >= 4_900_000 ==> forall|k: int|
                0 <= k < lit_boxes(spots, keyed, now, n).len() ==> (#[trigger] lit_boxes(
                    spots,
                    keyed,
                    now,
                    n,
                )[k]).spot != i
        }),
    decreases n,
{
    let all = lit_boxes(spots, keyed, now, n);
    let rest = lit_boxes(spots, keyed, now, n - 1);
    let left = light_left(spots[i], keyed, now);
    lemma_lit_in_front(spots, keyed, now, n - 1);
    if i < n - 1 {
        law_boxes_fade_after_keying(spots, keyed, now, n - 1, i);
        if left > SKIMMER_DROP_US {
            let k = choose|k: int|
                0 <= k < rest.len() && (#[trigger] rest[k]).spot == i && rest[k].left == left;
            assert(all[k] == rest[k]);
        } else {
            assert forall|k: int| 0 <= k < all.len() implies (#[trigger] all[k]).spot != i by {
                if k < rest.len() {
                    assert(all[k] == rest[k]);
                }
            }
        }
    } else if left > SKIMMER_DROP_US {
        assert(all[all.len() - 1].spot == i);
    }
}

/// The boxes of the first signals are of those.
proof fn lemma_lit_in_front(spots: Seq<SkimmerSpot>, keyed: Map<u64, i64>, now: int, n: int)
    requires
        n <= spots.len() <= usize::MAX,
    ensures
        forall|k: int|
            0 <= k < lit_boxes(spots, keyed, now, n).len() ==> (#[trigger] lit_boxes(
                spots,
                keyed,
                now,
                n,
            )[k]).spot < n,
    decreases n,
{
    if n > 0 {
        lemma_lit_in_front(spots, keyed, now, n - 1);
        assert forall|k: int| 0 <= k < lit_boxes(spots, keyed, now, n).len() implies (
        #[trigger] lit_boxes(spots, keyed, now, n)[k]).spot < n by {
            if k < lit_boxes(spots, keyed, now, n - 1).len() {
                assert(lit_boxes(spots, keyed, now, n)[k] == lit_boxes(spots, keyed, now, n - 1)[k]);
            }
        }
    }
}

/// A skimmer that is switched off has no signals left, and those of the others stay.
pub proof fn law_disabled_skimmers_go(
    spots: Seq<SkimmerSpot>,
    cw: bool,
    psk: bool,
    rtty: bool,
    s: SkimmerSpot,
)
    ensures
        enabled_spots(spots, cw, psk, rtty).contains(s) <==> spots.contains(s) && !(s.kind
            == SkimmerKind::Cw && !cw) && !(s.kind == SkimmerKind::Psk && !psk) && !(s.kind
            == SkimmerKind::Rtty && !rtty),
{
    lemma_filtered(spots, kinds_on(cw, psk, rtty), s);
}

} // verus!
