//! The list of FT8/FT4 decodes: which are shown, in which order, how each row
//! looks, and what a click on it does.
use crate::carried::{Place, Single};
use crate::command::Command;
use crate::qso::copy_text;
use crate::sort::{inserted, law_stable_sort_in_order, law_stable_sort_keeps_items, orders};
use crate::sort::{sort, stable_sort};
use crate::text::{decimal_int, fmt_i64, fmt_padded, same, zero_padded};
use crate::utc::rem_floor;
use vstd::prelude::*;

verus! {

/// Decodes kept in the rolling list.
pub const DECODES_MAX: usize = 200;

/// One decoded message.
#[derive(Debug)]
pub struct Decode {
    /// Unix seconds at the start of the slot it was decoded in.
    pub slot_utc: i64,
    pub snr_db: i16,
    pub audio_hz: Single,
    pub message: String,
    /// The station it is addressed to.
    pub to: Option<String>,
    /// The station that sent it.
    pub from: Option<String>,
    pub grid: Option<String>,
    /// Where that grid square is, if it is one.
    pub place: Option<Place>,
    pub is_cq: bool,
    pub free_text: bool,
}

/// What a station would be worth working.
#[derive(Clone, Copy, Debug, PartialEq, Eq, Structural)]
pub enum Highlight {
    NewDxcc,
    NewDxccBand,
    NewGrid,
    NewCall,
    Dupe,
}

/// What the log and the operator's station say of a decode.
#[derive(Clone, Copy, Debug, PartialEq, Eq, Structural)]
pub struct Facts {
    /// Whether it is a CQ that this station may answer.
    pub cq: bool,
    /// Whether the station would put something new in the log.
    pub new: bool,
    /// Whether it is in the log already for this band.
    pub dupe: bool,
    pub highlight: Option<Highlight>,
    /// A number that grows with the distance, if both places are known.
    pub dist: Option<u64>,
}

/// How the list orders the stations within each turn.
#[derive(Clone, Copy, Debug, PartialEq, Eq, Structural)]
pub enum DecodeSort {
    /// No reordering.
    AsReceived,
    /// By signal strength.
    Signal,
    /// By distance.
    Distance,
}

/// The filters and the order of the list.
#[derive(Clone, Copy, Debug, PartialEq, Eq, Structural)]
pub struct ListView {
    pub sort: DecodeSort,
    /// Strongest or farthest first.
    pub desc: bool,
    pub cq_only: bool,
    pub new_only: bool,
}

/// The decodes of one slot, in the order shown.
#[derive(Debug)]
pub struct Turn {
    pub slot: i64,
    /// The decodes, by their place in the list of decodes.
    pub rows: Vec<usize>,
}

impl Default for ListView {
    fn default() -> (r: ListView)
        ensures
            r == (ListView {
                sort: DecodeSort::AsReceived,
                desc: true,
                cq_only: false,
                new_only: false,
            }),
    {
        ListView { sort: DecodeSort::AsReceived, desc: true, cq_only: false, new_only: false }
    }
}

impl ListView {
    /// The view after a press on a sort button.
    pub open spec fn sorted_by(&self, m: DecodeSort) -> ListView {
        if self.sort == m && m != DecodeSort::AsReceived {
            ListView { desc: !self.desc, ..*self }
        } else {
            ListView { sort: m, desc: true, ..*self }
        }
    }

    /// A press on one of the sort buttons: the active one turns its direction
    /// round, another one becomes active with the strongest or farthest first.
    pub fn press_sort(&mut self, m: DecodeSort)
        ensures
            *final(self) == old(self).sorted_by(m),
    {
        if self.sort == m && m != DecodeSort::AsReceived {
            self.desc = !self.desc;
        } else {
            self.sort = m;
            self.desc = true;
        }
    }

    /// Whether a sort button shows an arrow, and if so whether it points down.
    pub fn arrow(&self, m: DecodeSort) -> (r: Option<bool>)
        ensures
            r == if self.sort == m && m != DecodeSort::AsReceived {
                Some(self.desc)
            } else {
                None::<bool>
            },
    {
        if self.sort == m && m != DecodeSort::AsReceived {
            Some(self.desc)
        } else {
            None
        }
    }

    /// The label of a sort button, with the arrow that it shows.
    pub fn sort_label(&self, m: DecodeSort) -> (r: &'static str)
        ensures
            r@ == match (m, self.sort == m, self.desc) {
                (DecodeSort::AsReceived, _, _) => "None"@,
                (DecodeSort::Signal, false, _) => "SNR"@,
                (DecodeSort::Signal, true, true) => "SNR ↓"@,
                (DecodeSort::Signal, true, false) => "SNR ↑"@,
                (DecodeSort::Distance, false, _) => "Dist"@,
                (DecodeSort::Distance, true, true) => "Dist ↓"@,
                (DecodeSort::Distance, true, false) => "Dist ↑"@,
            },
    {
        match (m, self.arrow(m)) {
            (DecodeSort::AsReceived, _) => "None",
            (DecodeSort::Signal, None) => "SNR",
            (DecodeSort::Signal, Some(true)) => "SNR ↓",
            (DecodeSort::Signal, Some(false)) => "SNR ↑",
            (DecodeSort::Distance, None) => "Dist",
            (DecodeSort::Distance, Some(true)) => "Dist ↓",
            (DecodeSort::Distance, Some(false)) => "Dist ↑",
        }
    }

    /// Whether a decode is shown.
    pub open spec fn admits(&self, f: Facts) -> bool {
        (self.cq_only ==> f.cq) && (self.new_only ==> f.new)
    }
}

/// The decodes that are shown, of the first `n`.
pub open spec fn shown(view: ListView, facts: Seq<Facts>, n: int) -> Seq<usize>
    decreases n,
{
    if n <= 0 {
        seq![]
    } else if view.admits(facts[n - 1]) {
        shown(view, facts, n - 1).push((n - 1) as usize)
    } else {
        shown(view, facts, n - 1)
    }
}

/// The runs of decodes of one slot, in the order in which they stand.
pub open spec fn runs(ds: Seq<Decode>, s: Seq<usize>) -> Seq<Seq<usize>>
    decreases s.len(),
{
    if s.len() == 0 {
        seq![]
    } else {
        let r = runs(ds, s.drop_last());
        let slot = ds[s.last() as int].slot_utc;
        if r.len() > 0 && ds[s[s.len() - 2] as int].slot_utc == slot {
            r.update(r.len() - 1, r.last().push(s.last()))
        } else {
            r.push(seq![s.last()])
        }
    }
}

/// Whether decode `a` stands before decode `b` within a turn. A decode without
/// a distance stands last, whatever the direction.
pub open spec fn row_before(
    view: ListView,
    ds: Seq<Decode>,
    facts: Seq<Facts>,
    a: usize,
    b: usize,
) -> bool {
    match view.sort {
        DecodeSort::AsReceived => false,
        DecodeSort::Signal => if view.desc {
            ds[a as int].snr_db > ds[b as int].snr_db
        } else {
            ds[a as int].snr_db < ds[b as int].snr_db
        },
        DecodeSort::Distance => match (facts[a as int].dist, facts[b as int].dist) {
            (Some(x), Some(y)) => if view.desc {
                x > y
            } else {
                x < y
            },
            (Some(x), None) => true,
            (None, _) => false,
        },
    }
}

/// The order of the rows of a turn.
pub open spec fn row_order(view: ListView, ds: Seq<Decode>, facts: Seq<Facts>) -> spec_fn(
    usize,
    usize,
) -> bool {
    |a: usize, b: usize| row_before(view, ds, facts, a, b)
}

/// Whether `a` comes before `b`, for places that may be outside the list.
spec fn guarded(view: ListView, ds: Seq<Decode>, facts: Seq<Facts>) -> spec_fn(
    usize,
    usize,
) -> bool {
    |a: usize, b: usize|
        a < ds.len() && b < ds.len() && row_before(view, ds, facts, a, b)
}

fn goes_before(
    view: &ListView,
    ds: &Vec<Decode>,
    facts: &Vec<Facts>,
    a: usize,
    b: usize,
) -> (r: bool)
    requires
        ds@.len() == facts@.len(),
    ensures
        r == (a < ds@.len() && b < ds@.len() && row_before(*view, ds@, facts@, a, b)),
{
    if a >= ds.len() || b >= ds.len() {
        return false;
    }
    match view.sort {
        DecodeSort::AsReceived => false,
        DecodeSort::Signal => if view.desc {
            ds[a].snr_db > ds[b].snr_db
        } else {
            ds[a].snr_db < ds[b].snr_db
        },
        DecodeSort::Distance => match (facts[a].dist, facts[b].dist) {
            (Some(x), Some(y)) => if view.desc {
                x > y
            } else {
                x < y
            },
            (Some(x), None) => true,
            (None, y) => false,
        },
    }
}

/// Whether every place is one of the list.
pub open spec fn in_list(s: Seq<usize>, n: nat) -> bool {
    forall|i: int| 0 <= i < s.len() ==> (#[trigger] s[i]) < n
}

proof fn lemma_guarded_inserted(
    view: ListView,
    ds: Seq<Decode>,
    facts: Seq<Facts>,
    s: Seq<usize>,
    x: usize,
)
    requires
        in_list(s, ds.len()),
        x < ds.len(),
    ensures
        inserted(s, x, guarded(view, ds, facts)) == inserted(s, x, row_order(view, ds, facts)),
        in_list(inserted(s, x, guarded(view, ds, facts)), ds.len()),
    decreases s.len(),
{
    if s.len() > 0 {
        let t = s.drop_last();
        assert(s[s.len() - 1] < ds.len());
        assert forall|i: int| 0 <= i < t.len() implies (#[trigger] t[i]) < ds.len() by {
            assert(t[i] == s[i]);
        }
        lemma_guarded_inserted(view, ds, facts, t, x);
    }
}

proof fn lemma_guarded_sort(view: ListView, ds: Seq<Decode>, facts: Seq<Facts>, s: Seq<usize>)
    requires
        in_list(s, ds.len()),
    ensures
        stable_sort(s, guarded(view, ds, facts)) == stable_sort(s, row_order(view, ds, facts)),
        in_list(stable_sort(s, guarded(view, ds, facts)), ds.len()),
    decreases s.len(),
{
    if s.len() > 0 {
        let t = s.drop_last();
        assert(s[s.len() - 1] < ds.len());
        assert forall|i: int| 0 <= i < t.len() implies (#[trigger] t[i]) < ds.len() by {
            assert(t[i] == s[i]);
        }
        lemma_guarded_sort(view, ds, facts, t);
        lemma_guarded_inserted(
            view,
            ds,
            facts,
            stable_sort(t, guarded(view, ds, facts)),
            s.last(),
        );
    }
}

proof fn lemma_shown_in_list(view: ListView, facts: Seq<Facts>, n: int)
    requires
        0 <= n <= facts.len() <= usize::MAX,
    ensures
        in_list(shown(view, facts, n), n as nat),
    decreases n,
{
    if n > 0 {
        lemma_shown_in_list(view, facts, n - 1);
    }
}

/// The decodes that the filters let through.
fn shown_rows(view: &ListView, facts: &Vec<Facts>) -> (r: Vec<usize>)
    ensures
        r@ == shown(*view, facts@, facts@.len() as int),
        in_list(r@, facts@.len()),
{
    let mut out: Vec<usize> = Vec::new();
    let mut i: usize = 0;
    while i < facts.len()
        invariant
            i <= facts@.len(),
            out@ == shown(*view, facts@, i as int),
            in_list(out@, i as nat),
        decreases facts@.len() - i,
    {
        let f = &facts[i];
        if (!view.cq_only || f.cq) && (!view.new_only || f.new) {
            out.push(i);
        }
        i = i + 1;
    }
    out
}

/// Whether a turn shows a run of decodes in the chosen order.
pub open spec fn is_turn(
    t: Turn,
    group: Seq<usize>,
    view: ListView,
    ds: Seq<Decode>,
    facts: Seq<Facts>,
) -> bool {
    &&& t.rows@ == stable_sort(group, row_order(view, ds, facts))
    &&& group.len() > 0
    &&& t.slot == ds[group[0] as int].slot_utc
}

/// Whether a turn holds a run of decodes as they stand.
spec fn holds_run(t: Turn, group: Seq<usize>, ds: Seq<Decode>) -> bool {
    &&& t.rows@ == group
    &&& group.len() > 0
    &&& in_list(group, ds.len())
    &&& t.slot == ds[group[0] as int].slot_utc
}

/// Whether some turns hold some runs.
spec fn hold_runs(v: Seq<Turn>, groups: Seq<Seq<usize>>, ds: Seq<Decode>) -> bool {
    &&& v.len() == groups.len()
    &&& forall|k: int| 0 <= k < v.len() ==> holds_run(#[trigger] v[k], groups[k], ds)
}

/// The runs of decodes of one slot.
fn group_rows(ds: &Vec<Decode>, items: &Vec<usize>) -> (r: Vec<Turn>)
    requires
        in_list(items@, ds@.len()),
    ensures
        hold_runs(r@, runs(ds@, items@), ds@),
{
    let mut out: Vec<Turn> = Vec::new();
    let mut i: usize = 0;
    assert(items@.take(0) =~= Seq::<usize>::empty());
    while i < items.len()
        invariant
            i <= items@.len(),
            in_list(items@, ds@.len()),
            hold_runs(out@, runs(ds@, items@.take(i as int)), ds@),
            i > 0 ==> out@.len() > 0 && out@.last().slot == ds@[items@[i - 1] as int].slot_utc,
        decreases items@.len() - i,
    {
        let x: usize = items[i];
        let slot: i64 = ds[x].slot_utc;
        let ghost was = out@;
        let ghost before = runs(ds@, items@.take(i as int));
        let ghost after = runs(ds@, items@.take(i + 1));
        proof {
            assert(items@.take(i + 1).drop_last() =~= items@.take(i as int));
            assert(items@.take(i + 1).last() == x);
            if i > 0 {
                assert(items@.take(i + 1)[items@.take(i + 1).len() - 2] == items@[i - 1]);
            }
        }
        let n: usize = out.len();
        if n > 0 && out[n - 1].slot == slot {
            let ghost group = before.last();
            assert(holds_run(was[n - 1], group, ds@));
            let mut last = Turn { slot, rows: Vec::new() };
            if let Some(t) = out.pop() {
                last = t;
            }
            last.rows.push(x);
            assert(last.rows@ == group.push(x));
            assert(holds_run(last, group.push(x), ds@));
            out.push(last);
            assert(after == before.update(n - 1, group.push(x)));
            assert forall|k: int| 0 <= k < out@.len() implies holds_run(
                #[trigger] out@[k],
                after[k],
                ds@,
            ) by {
                if k < n - 1 {
                    assert(out@[k] == was[k]);
                }
            }
        } else {
            let mut rows: Vec<usize> = Vec::new();
            rows.push(x);
            assert(rows@ =~= seq![x]);
            let t = Turn { slot, rows };
            assert(holds_run(t, seq![x], ds@));
            out.push(t);
            assert(after == before.push(seq![x]));
            assert forall|k: int| 0 <= k < out@.len() implies holds_run(
                #[trigger] out@[k],
                after[k],
                ds@,
            ) by {
                if k < n {
                    assert(out@[k] == was[k]);
                }
            }
        }
        i = i + 1;
    }
    assert(items@.take(i as int) =~= items@);
    out
}

/// The list as it is shown: the decodes that the filters let through, turn by
/// turn, each turn in the chosen order.
pub fn turns(view: &ListView, ds: &Vec<Decode>, facts: &Vec<Facts>) -> (r: Vec<Turn>)
    requires
        ds@.len() == facts@.len(),
    ensures
        ({
            let groups = runs(ds@, shown(*view, facts@, facts@.len() as int));
            &&& r@.len() == groups.len()
            &&& forall|k: int|
                0 <= k < r@.len() ==> is_turn(#[trigger] r@[k], groups[k], *view, ds@, facts@)
        }),
{
    let items = shown_rows(view, facts);
    let mut out = group_rows(ds, &items);
    let ghost groups = runs(ds@, items@);
    let mut done: Vec<Turn> = Vec::new();
    let n: usize = out.len();
    let mut k: usize = n;
    assert(groups.take(k as int) =~= groups);
    // Taken from the back, so that each turn can be moved out of the list.
    while k > 0
        invariant
            ds@.len() == facts@.len(),
            k <= n,
            n == groups.len(),
            hold_runs(out@, groups.take(k as int), ds@),
            done@.len() == n - k,
            forall|j: int|
                0 <= j < done@.len() ==> is_turn(
                    #[trigger] done@[j],
                    groups[k + j],
                    *view,
                    ds@,
                    facts@,
                ),
        decreases k,
    {
        let ghost was = done@;
        let ghost left = out@;
        assert(holds_run(left[k - 1], groups.take(k as int)[k - 1], ds@));
        let mut t = out.remove(k - 1);
        let first = |a: &usize, b: &usize| -> (r: bool)
            ensures
                r == (*a < ds@.len() && *b < ds@.len() && row_before(*view, ds@, facts@, *a, *b)),
        { goes_before(view, ds, facts, *a, *b) };
        sort(&mut t.rows, first, Ghost(guarded(*view, ds@, facts@)));
        proof {
            lemma_guarded_sort(*view, ds@, facts@, groups[k - 1]);
        }
        assert(is_turn(t, groups[k - 1], *view, ds@, facts@));
        done.insert(0, t);
        k = k - 1;
        proof {
            assert forall|j: int| 0 <= j < out@.len() implies holds_run(
                #[trigger] out@[j],
                groups.take(k as int)[j],
                ds@,
            ) by {
                assert(out@[j] == left[j]);
                assert(holds_run(left[j], groups.take(k + 1)[j], ds@));
            }
            assert forall|j: int| 0 <= j < done@.len() implies is_turn(
                #[trigger] done@[j],
                groups[k + j],
                *view,
                ds@,
                facts@,
            ) by {
                if j > 0 {
                    assert(done@[j] == was[j - 1]);
                }
            }
        }
    }
    done
}

/// All the rows of some runs, one after the other.
pub open spec fn joined(v: Seq<Seq<usize>>) -> Seq<usize>
    decreases v.len(),
{
    if v.len() == 0 {
        seq![]
    } else {
        joined(v.drop_last()) + v.last()
    }
}

/// The runs hold every decode that is shown, in the order in which they stand.
pub proof fn law_runs_hold_every_row(ds: Seq<Decode>, s: Seq<usize>)
    ensures
        joined(runs(ds, s)) == s,
        s.len() > 0 ==> runs(ds, s).len() > 0,
        forall|k: int| 0 <= k < runs(ds, s).len() ==> (#[trigger] runs(ds, s)[k]).len() > 0,
    decreases s.len(),
{
    if s.len() > 0 {
        let t = s.drop_last();
        law_runs_hold_every_row(ds, t);
        let r = runs(ds, t);
        let after = runs(ds, s);
        assert(s =~= t.push(s.last()));
        if r.len() > 0 && ds[s[s.len() - 2] as int].slot_utc == ds[s.last() as int].slot_utc {
            assert(after.drop_last() =~= r.drop_last());
            assert(joined(after) =~= joined(r.drop_last()) + r.last().push(s.last()));
            assert(joined(after) =~= s);
        } else {
            assert(after.drop_last() =~= r);
            assert(joined(after) =~= s);
        }
    }
}

/// Within a turn the rows stand in the chosen order: strongest or farthest
/// first, or the other way round, and those without a distance last.
pub proof fn law_turn_in_order(
    view: ListView,
    ds: Seq<Decode>,
    facts: Seq<Facts>,
    group: Seq<usize>,
    i: int,
    j: int,
)
    requires
        0 <= i < j < group.len(),
    ensures
        ({
            let rows = stable_sort(group, row_order(view, ds, facts));
            let (a, b) = (rows[i] as int, rows[j] as int);
            &&& rows.len() == group.len()
            &&& rows.to_multiset() == group.to_multiset()
            &&& view.sort == DecodeSort::Signal && view.desc ==> ds[a].snr_db >= ds[b].snr_db
            &&& view.sort == DecodeSort::Signal && !view.desc ==> ds[a].snr_db <= ds[b].snr_db
            &&& view.sort == DecodeSort::Distance && facts[b].dist is Some ==> {
                &&& facts[a].dist is Some
                &&& view.desc ==> facts[a].dist->0 >= facts[b].dist->0
                &&& !view.desc ==> facts[a].dist->0 <= facts[b].dist->0
            }
        }),
{
    let lt = row_order(view, ds, facts);
    let rows = stable_sort(group, lt);
    law_stable_sort_keeps_items(group, lt);
    assert(orders(lt));
    law_stable_sort_in_order(group, lt);
    assert(!row_before(view, ds, facts, rows[j], rows[i]));
}

/// Put newly decoded messages in front of the list and drop the oldest past
/// its limit.
pub fn prepend_decodes(list: &mut Vec<Decode>, new: Vec<Decode>)
    ensures
        ({
            let all = new@ + old(list)@;
            final(list)@ == all.take(
                if all.len() < DECODES_MAX {
                    all.len() as int
                } else {
                    DECODES_MAX as int
                },
            )
        }),
{
    let mut all = new;
    all.append(list);
    let ghost whole = all@;
    if all.len() > DECODES_MAX {
        all.truncate(DECODES_MAX);
    }
    assert(all@ =~= whole.take(all@.len() as int));
    *list = all;
}

/// Whether a slot is an even turn: its number, counted in turns of fifteen
/// seconds, or of seven and a half in FT4, and rounded, is even.
pub open spec fn even_turn(slot: int, ft4: bool) -> bool {
    if ft4 {
        ((4 * slot + 15) / 30) % 2 == 0
    } else {
        ((2 * slot + 15) / 30) % 2 == 0
    }
}

proof fn lemma_whole_minutes(m: int, rest: int)
    ensures
        ((120 * m + rest) / 30) % 2 == (rest / 30) % 2,
{
    let q = rest / 30;
    let r = rest % 30;
    assert(rest == 30 * q + r && 0 <= r < 30);
    assert((30 * (4 * m + q) + r) / 30 == 4 * m + q);
}

/// Whether a slot is an even turn.
pub fn is_even_turn(slot: i64, ft4: bool) -> (r: bool)
    ensures
        r == even_turn(slot as int, ft4),
{
    // Whole minutes hold an even number of turns, so only the rest counts.
    let s: i64 = rem_floor(slot, 60);
    proof {
        let m = slot as int / 60;
        assert(slot == 60 * m + s);
        lemma_whole_minutes(m, 2 * s + 15);
        lemma_whole_minutes(2 * m, 4 * s + 15);
    }
    if ft4 {
        ((4 * s + 15) / 30) % 2 == 0
    } else {
        ((2 * s + 15) / 30) % 2 == 0
    }
}

/// `"HH:MM:SS"` of a slot.
pub open spec fn slot_text(slot: int) -> Seq<char> {
    let s = slot % 86400;
    zero_padded(s / 3600, 2) + seq![':'] + zero_padded(s % 3600 / 60, 2) + seq![':']
        + zero_padded(s % 60, 2)
}

/// `"HH:MM:SS"` of a slot.
pub fn slot_time(slot: i64) -> (r: String)
    ensures
        r@ == slot_text(slot as int),
{
    let s: i64 = rem_floor(slot, 86400);
    let mut t = fmt_padded(s / 3600, 2);
    t.push(':');
    t.append(fmt_padded(s % 3600 / 60, 2).as_str());
    t.push(':');
    t.append(fmt_padded(s % 60, 2).as_str());
    assert(t@ =~= slot_text(slot as int));
    t
}

/// A signal report with its sign.
pub fn snr_text(snr_db: i16) -> (r: String)
    ensures
        r@ == if snr_db >= 0 {
            "+"@ + decimal_int(snr_db as int)
        } else {
            decimal_int(snr_db as int)
        },
{
    if snr_db >= 0 {
        let mut t = "+".to_owned();
        t.append(fmt_i64(snr_db as i64).as_str());
        t
    } else {
        fmt_i64(snr_db as i64)
    }
}

/// How a signal report is coloured.
#[derive(Clone, Copy, Debug, PartialEq, Eq, Structural)]
pub enum SnrTone {
    Strong,
    Middle,
    Weak,
}

/// How a signal report is coloured.
pub open spec fn snr_tone(snr_db: int) -> SnrTone {
    if snr_db >= 0 {
        SnrTone::Strong
    } else if snr_db >= -12 {
        SnrTone::Middle
    } else {
        SnrTone::Weak
    }
}

/// Strong from 0 dB up, weak below -12 dB.
pub fn snr_color(snr_db: i16) -> (r: SnrTone)
    ensures
        r == snr_tone(snr_db as int),
{
    if snr_db >= 0 {
        SnrTone::Strong
    } else if snr_db >= -12 {
        SnrTone::Middle
    } else {
        SnrTone::Weak
    }
}

/// What a row's ground, accent bar and reply button say.
#[derive(Clone, Copy, Debug, PartialEq, Eq, Structural)]
pub enum Emphasis {
    /// The message is addressed to this station.
    ToMe,
    /// It is a CQ that this station may answer.
    Cq,
    Plain,
}

/// How the callsign of a row is drawn.
#[derive(Clone, Copy, Debug, PartialEq, Eq, Structural)]
pub enum NameTone {
    ToMe,
    /// No sender is known, or the station is in the log already.
    Faded,
    Cq,
    Plain,
}

/// The line round a row.
#[derive(Clone, Copy, Debug, PartialEq, Eq, Structural)]
pub enum Outline {
    /// The row whose place is marked on the map.
    Preview,
    ToMe,
    Hovered,
    Nothing,
}

/// Whether a message is addressed to a station.
pub open spec fn addressed(d: Decode, my_call: Seq<char>) -> bool {
    my_call.len() > 0 && d.to is Some && d.to->0@ == my_call
}

/// Who a message is from, as the list says it. Free text names no sender, and
/// neither does a hashed callsign that nobody has heard yet.
pub open spec fn sender_text(d: Decode) -> Seq<char> {
    match d.from {
        Some(c) => c@,
        None => if d.free_text {
            "TEXT"@
        } else {
            "?"@
        },
    }
}

/// The badge of what a station would be worth working.
pub open spec fn badge_text(h: Option<Highlight>) -> Seq<char> {
    match h {
        Some(Highlight::NewDxcc) => "DXCC"@,
        Some(Highlight::NewDxccBand) => "BAND"@,
        Some(Highlight::NewGrid) => "GRID"@,
        Some(Highlight::NewCall) => "NEW"@,
        Some(Highlight::Dupe) => "DUPE"@,
        None => ""@,
    }
}

/// The badge of what a station would be worth working.
pub fn badge(h: Option<Highlight>) -> (r: &'static str)
    ensures
        r@ == badge_text(h),
{
    match h {
        Some(Highlight::NewDxcc) => "DXCC",
        Some(Highlight::NewDxccBand) => "BAND",
        Some(Highlight::NewGrid) => "GRID",
        Some(Highlight::NewCall) => "NEW",
        Some(Highlight::Dupe) => "DUPE",
        None => "",
    }
}

impl Decode {
    /// Whether the message is addressed to a station.
    pub fn is_to(&self, my_call: &str) -> (r: bool)
        ensures
            r == addressed(*self, my_call@),
    {
        if my_call.is_empty() {
            return false;
        }
        match &self.to {
            Some(t) => same(t.as_str(), my_call),
            None => false,
        }
    }

    /// Who the message is from, as the list says it.
    pub fn sender(&self) -> (r: String)
        ensures
            r@ == sender_text(*self),
    {
        match &self.from {
            Some(c) => c.clone(),
            None => if self.free_text {
                "TEXT".to_owned()
            } else {
                "?".to_owned()
            },
        }
    }

    /// What a row's ground, accent bar and reply button say.
    pub fn emphasis(&self, f: &Facts, my_call: &str) -> (r: Emphasis)
        ensures
            r == if addressed(*self, my_call@) {
                Emphasis::ToMe
            } else if f.cq {
                Emphasis::Cq
            } else {
                Emphasis::Plain
            },
    {
        if self.is_to(my_call) {
            Emphasis::ToMe
        } else if f.cq {
            Emphasis::Cq
        } else {
            Emphasis::Plain
        }
    }

    /// How the callsign of a row is drawn.
    pub fn name_tone(&self, f: &Facts, my_call: &str) -> (r: NameTone)
        ensures
            r == if addressed(*self, my_call@) {
                NameTone::ToMe
            } else if self.from is None || f.dupe {
                NameTone::Faded
            } else if f.cq {
                NameTone::Cq
            } else {
                NameTone::Plain
            },
    {
        if self.is_to(my_call) {
            NameTone::ToMe
        } else if self.from.is_none() || f.dupe {
            NameTone::Faded
        } else if f.cq {
            NameTone::Cq
        } else {
            NameTone::Plain
        }
    }

    /// The line round a row, given the call whose place is marked on the map.
    pub fn outline(&self, my_call: &str, preview: &Option<String>, hovered: bool) -> (r: Outline)
        ensures
            r == if self.from is Some && preview is Some && self.from->0@ == preview->0@ {
                Outline::Preview
            } else if addressed(*self, my_call@) {
                Outline::ToMe
            } else if hovered {
                Outline::Hovered
            } else {
                Outline::Nothing
            },
    {
        let marked = match (&self.from, preview) {
            (Some(a), Some(b)) => *a == *b,
            _ => false,
        };
        if marked {
            Outline::Preview
        } else if self.is_to(my_call) {
            Outline::ToMe
        } else if hovered {
            Outline::Hovered
        } else {
            Outline::Nothing
        }
    }
}

/// The station that was last clicked: its call, and its place on the map.
#[derive(Debug)]
pub struct Preview {
    pub station: Option<(String, Place)>,
}

/// The request that a reply to a decode makes. A station that is neither
/// calling CQ nor calling this one is waited for until it does; any CQ counts.
pub open spec fn is_reply(c: Command, d: Decode, my_call: Seq<char>) -> bool {
    c matches Command::DigiStartQso { from, grid, snr, audio_hz, wait_for_cq } && {
        &&& d.from == Some(from)
        &&& grid == d.grid
        &&& snr == d.snr_db
        &&& audio_hz == d.audio_hz
        &&& wait_for_cq == (!d.is_cq && !addressed(d, my_call))
    }
}

impl Preview {
    /// The REPLY button of a row: start a contact with its sender. The station
    /// gets its own marker then, so the preview is dropped.
    pub fn reply(&mut self, d: &Decode, my_call: &str) -> (r: Option<Command>)
        ensures
            final(self).station is None,
            r is Some <==> d.from is Some,
            r matches Some(c) ==> is_reply(c, *d, my_call@),
    {
        self.station = None;
        match &d.from {
            Some(from) => {
                let wait_for_cq = !d.is_cq && !d.is_to(my_call);
                Some(
                    Command::DigiStartQso {
                        from: from.clone(),
                        grid: copy_text(&d.grid),
                        snr: d.snr_db,
                        audio_hz: d.audio_hz,
                        wait_for_cq,
                    },
                )
            },
            None => None,
        }
    }

    /// A click on the body of a row: move the transmit audio to that signal,
    /// and mark the station's place if it sent one.
    pub fn click(&mut self, d: &Decode) -> (r: Command)
        ensures
            r == Command::SetDigiAudioFreq(d.audio_hz),
            match d.place {
                Some(p) => {
                    &&& final(self).station matches Some(st)
                    &&& st.0@ == sender_text(*d)
                    &&& st.1 == p
                },
                None => final(self).station is None,
            },
    {
        self.station = match d.place {
            Some(p) => Some((d.sender(), p)),
            None => None,
        };
        Command::SetDigiAudioFreq(d.audio_hz)
    }
}

/// A reply never barges in: unless the station calls CQ or calls this one, the
/// request waits for its CQ.
pub proof fn law_reply_waits_for_cq(c: Command, d: Decode, my_call: Seq<char>)
    requires
        is_reply(c, d, my_call),
    ensures
        c matches Command::DigiStartQso { from, grid, snr, audio_hz, wait_for_cq } && (wait_for_cq
            || d.is_cq || addressed(d, my_call)),
{
}

/// The list shows a decode just where each filter that is on lets it through, and
/// in the order in which they stand.
pub proof fn law_filters_choose_the_rows(view: ListView, facts: Seq<Facts>, n: int)
    requires
        0 <= n <= facts.len() <= usize::MAX,
    ensures
        ({
            let r = shown(view, facts, n);
            &&& forall|k: int| 0 <= k < r.len() ==> 0 <= (#[trigger] r[k]) < n
            &&& forall|k: int, l: int| 0 <= k < l < r.len() ==> (#[trigger] r[k]) < (#[trigger] r[l])
            &&& forall|i: int|
                0 <= i < n ==> (r.contains(i as usize) <==> !(view.cq_only && !(
                #[trigger] facts[i]).cq) && !(view.new_only && !facts[i].new))
        }),
    decreases n,
{
    if n > 0 {
        law_filters_choose_the_rows(view, facts, n - 1);
        let rest = shown(view, facts, n - 1);
        let r = shown(view, facts, n);
        assert forall|i: int| 0 <= i < n implies (r.contains(i as usize) <==> !(view.cq_only && !(
        #[trigger] facts[i]).cq) && !(view.new_only && !facts[i].new)) by {
            if i < n - 1 {
                if rest.contains(i as usize) {
                    let k = choose|k: int| 0 <= k < rest.len() && rest[k] == i as usize;
                    assert(r[k] == i as usize);
                }
                if r.contains(i as usize) {
                    let k = choose|k: int| 0 <= k < r.len() && r[k] == i as usize;
                    assert(k < rest.len() && rest[k] == i as usize);
                }
            } else {
                if view.admits(facts[i]) {
                    assert(r[r.len() - 1] == i as usize);
                }
                if rest.contains(i as usize) {
                    let k = choose|k: int| 0 <= k < rest.len() && rest[k] == i as usize;
                    assert(rest[k] < n - 1);
                }
            }
        }
    }
}

/// A turn holds decodes of one slot, and the turn after it those of another: the
/// slots of the list are not torn apart.
pub proof fn law_turns_are_slots(ds: Seq<Decode>, s: Seq<usize>)
    ensures
        ({
            let r = runs(ds, s);
            &&& forall|k: int, i: int|
                0 <= k < r.len() && 0 <= i < r[k].len() ==> ds[(#[trigger] r[k][i]) as int].slot_utc
                    == ds[r[k][0] as int].slot_utc
            &&& forall|k: int, l: int|
                0 <= k && l == k + 1 && l < r.len() ==> ds[(#[trigger] r[k])[0] as int].slot_utc
                    != ds[(#[trigger] r[l])[0] as int].slot_utc
            &&& s.len() > 0 ==> r.len() > 0 && r.last().len() > 0 && r.last().last() == s.last()
        }),
    decreases s.len(),
{
    if s.len() > 0 {
        let t = s.drop_last();
        law_turns_are_slots(ds, t);
        law_runs_hold_every_row(ds, t);
        let q = runs(ds, t);
        let r = runs(ds, s);
        if q.len() > 0 {
            assert(t.len() > 0);
            assert(t.last() == s[s.len() - 2]);
            let n = q.len() - 1;
            assert(q.last().last() == q[n][q[n].len() - 1]);
            assert(ds[q[n][q[n].len() - 1] as int].slot_utc == ds[q[n][0] as int].slot_utc);
            if ds[t.last() as int].slot_utc == ds[s.last() as int].slot_utc {
                assert(r.len() == q.len());
                assert(r[n] == q[n].push(s.last()));
                assert(r[n][0] == q[n][0]);
                assert forall|k: int, i: int| 0 <= k < r.len() && 0 <= i < r[k].len() implies ds[(
                #[trigger] r[k][i]) as int].slot_utc == ds[r[k][0] as int].slot_utc by {
                    if k < n {
                        assert(r[k] == q[k]);
                    } else if i < q[n].len() {
                        assert(r[k][i] == q[k][i]);
                    }
                }
                assert forall|k: int, l: int| 0 <= k && l == k + 1 && l < r.len() implies ds[(
                #[trigger] r[k])[0] as int].slot_utc != ds[(#[trigger] r[l])[0] as int].slot_utc by {
                    assert(r[k] == q[k]);
                    assert(r[l][0] == q[l][0]);
                }
            } else {
                assert(r == q.push(seq![s.last()]));
                assert forall|k: int, i: int| 0 <= k < r.len() && 0 <= i < r[k].len() implies ds[(
                #[trigger] r[k][i]) as int].slot_utc == ds[r[k][0] as int].slot_utc by {
                    if k < q.len() {
                        assert(r[k] == q[k]);
                    }
                }
                assert forall|k: int, l: int| 0 <= k && l == k + 1 && l < r.len() implies ds[(
                #[trigger] r[k])[0] as int].slot_utc != ds[(#[trigger] r[l])[0] as int].slot_utc by {
                    assert(r[k] == q[k]);
                    if l < q.len() {
                        assert(r[l] == q[l]);
                    }
                }
            }
        } else {
            assert(r == seq![seq![s.last()]]);
        }
    }
}

/// The turns of FT8 start every fifteen seconds and are even and odd by turns, from
/// an even one on at the full minute. Those of FT4 start every seven and a half, so
/// that the second on which one starts is rounded either way.
pub proof fn law_turns_alternate(k: int)
    ensures
        even_turn(15 * k, false) <==> k % 2 == 0,
        even_turn(15 * k / 2, true) <==> k % 2 == 0,
        even_turn((15 * k + 1) / 2, true) <==> k % 2 == 0,
        even_turn(60 * k, false) && even_turn(60 * k, true),
{
}

/// A reply goes to the station that sent the message, on its frequency and with what
/// is known of it. It waits just where the message neither is a CQ nor is addressed
/// to this station; without a callsign of its own nothing is addressed to it.
pub proof fn law_reply_goes_to_the_sender(c: Command, d: Decode, my_call: Seq<char>)
    requires
        is_reply(c, d, my_call),
    ensures
        c matches Command::DigiStartQso { from, grid, snr, audio_hz, wait_for_cq } && {
            &&& d.from is Some && d.from->0@ == from@
            &&& grid == d.grid
            &&& snr == d.snr_db
            &&& audio_hz == d.audio_hz
            &&& wait_for_cq <==> !d.is_cq && !(d.to is Some && d.to->0@ == my_call && my_call.len()
                > 0)
        },
{
}

/// A signal at the noise level or above is strong and one more than twelve decibels
/// below it weak.
pub proof fn law_reports_are_coloured_by_strength(snr_db: int)
    ensures
        snr_tone(snr_db) == SnrTone::Strong <==> snr_db >= 0,
        snr_tone(snr_db) == SnrTone::Weak <==> snr_db < -12,
        snr_tone(snr_db) == SnrTone::Middle <==> -12 <= snr_db < 0,
{
}

/// A sort button sorts with the strongest or farthest first, a second press turns that
/// round and a third turns it back; the filters stay. The order of reception has no
/// direction.
pub proof fn law_sort_buttons_turn_round(v: ListView, m: DecodeSort)
    requires
        v.sort != m,
    ensures
        v.sorted_by(m).sort == m && v.sorted_by(m).desc,
        m != DecodeSort::AsReceived ==> {
            &&& v.sorted_by(m).sorted_by(m).sort == m && !v.sorted_by(m).sorted_by(m).desc
            &&& v.sorted_by(m).sorted_by(m).sorted_by(m) == v.sorted_by(m)
        },
        v.sorted_by(DecodeSort::AsReceived).sorted_by(DecodeSort::AsReceived) == v.sorted_by(
            DecodeSort::AsReceived,
        ),
        v.sorted_by(m).cq_only == v.cq_only && v.sorted_by(m).new_only == v.new_only,
{
}

} // verus!
