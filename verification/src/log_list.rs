//! The logbook window: the list of contacts in daily sessions, newest first,
//! and what its buttons do.
use crate::logbook::{
    find_id, ids_distinct, index_of_id, law_next_id_is_free, marked, sent_to, Logbook,
    LookupProvider, NetworkConfig, UploadTarget,
};
use crate::qso::{LogEditForm, QsoRecord, Typed};
use crate::sort::{law_stable_sort_in_order, law_stable_sort_keeps_items, orders, sort, stable_sort};
use crate::text::{decimal, decimal_int, fmt_i64, fmt_u64, is_blank, trim, trimmed};
use crate::utc::{
    date_of, date_str, date_text, law_same_date_same_day, law_utc_unique, time_of, time_str,
    time_text, utc_of,
    utc_ymd_hms,
};
use vstd::prelude::*;

verus! {

/// A day's contacts.
#[derive(Debug)]
pub struct Session {
    /// The date.
    pub day: String,
    /// When the newest contact started.
    pub newest: i64,
    /// When the oldest contact started.
    pub oldest: i64,
    /// The records, by their place in the log, newest first.
    pub rows: Vec<usize>,
}

/// What is known of a contact's confirmation.
#[derive(Clone, Copy, Debug, PartialEq, Eq, Structural)]
pub enum QslMark {
    /// A confirmation has come back.
    Confirmed,
    /// It was uploaded and not confirmed yet.
    Uploaded,
    /// Neither.
    Nothing,
}

/// What was asked of a row.
#[derive(Clone, Copy, Debug, PartialEq, Eq, Structural)]
pub enum RowAction {
    Nothing,
    Delete(u64),
    Edit(u64),
    Upload(u64),
}

/// Whether record `a` of a log started later than record `b`.
pub open spec fn later(log: Seq<QsoRecord>, a: usize, b: usize) -> bool {
    log[a as int].start_utc > log[b as int].start_utc
}

/// The order of the list: newest first.
pub open spec fn newest_first(log: Seq<QsoRecord>) -> spec_fn(usize, usize) -> bool {
    |a: usize, b: usize| later(log, a, b)
}

/// The places of a log, in its own order.
pub open spec fn places(n: nat) -> Seq<usize> {
    Seq::new(n, |i: int| i as usize)
}

/// The places of a log, newest contact first.
pub open spec fn list_order(log: Seq<QsoRecord>) -> Seq<usize> {
    stable_sort(places(log.len()), newest_first(log))
}

/// Whether every entry is a place of the log.
pub open spec fn in_log(order: Seq<usize>, n: nat) -> bool {
    forall|i: int| 0 <= i < order.len() ==> (#[trigger] order[i]) < n
}

/// The date of a record.
pub open spec fn day_of(log: Seq<QsoRecord>, i: usize) -> Seq<char> {
    date_text(utc_of(log[i as int].start_utc as int))
}

/// The rows of some sessions, one after the other.
pub open spec fn all_rows(v: Seq<Session>) -> Seq<usize>
    decreases v.len(),
{
    if v.len() == 0 {
        seq![]
    } else {
        all_rows(v.drop_last()) + v.last().rows@
    }
}

/// Whether a session is a run of one day of the log.
pub open spec fn is_session(s: Session, log: Seq<QsoRecord>) -> bool {
    &&& s.rows@.len() > 0
    &&& forall|i: int| 0 <= i < s.rows@.len() ==> day_of(log, #[trigger] s.rows@[i]) == s.day@
    &&& s.newest == log[s.rows@[0] as int].start_utc
    &&& s.oldest == log[s.rows@.last() as int].start_utc
}

proof fn lemma_order_in_log(log: Seq<QsoRecord>)
    requires
        log.len() <= usize::MAX,
    ensures
        list_order(log).len() == log.len(),
        in_log(list_order(log), log.len()),
{
    broadcast use vstd::seq_lib::group_to_multiset_ensures;

    let order = list_order(log);
    let all = places(log.len());
    law_stable_sort_keeps_items(all, newest_first(log));
    assert forall|i: int| 0 <= i < order.len() implies (#[trigger] order[i]) < log.len() by {
        assert(order.contains(order[i]));
        assert(all.to_multiset().count(order[i]) > 0);
        assert(all.contains(order[i]));
    }
}

/// The places of a log, newest contact first.
pub fn order_of(log: &Vec<QsoRecord>) -> (r: Vec<usize>)
    ensures
        r@ == list_order(log@),
{
    let mut order: Vec<usize> = Vec::new();
    let mut i: usize = 0;
    let n: usize = log.len();
    while i < n
        invariant
            n == log@.len(),
            i <= n,
            order@ == places(i as nat),
        decreases n - i,
    {
        order.push(i);
        assert(order@ =~= places((i + 1) as nat));
        i = i + 1;
    }
    // Sorting compares places; those past the log's end do not occur in it.
    let first = |a: &usize, b: &usize| -> (r: bool)
        ensures
            r == (*a < log@.len() && *b < log@.len() && later(log@, *a, *b)),
    { *a < log.len() && *b < log.len() && log[*a].start_utc > log[*b].start_utc };
    let ghost guarded = |a: usize, b: usize|
        a < log@.len() && b < log@.len() && later(log@, a, b);
    let ghost all = order@;
    sort(&mut order, first, Ghost(guarded));
    proof {
        lemma_guarded_sort(all, log@, guarded);
    }
    order
}

proof fn lemma_guarded_inserted(
    s: Seq<usize>,
    x: usize,
    log: Seq<QsoRecord>,
    guarded: spec_fn(usize, usize) -> bool,
)
    requires
        x < log.len(),
        in_log(s, log.len()),
        forall|a: usize, b: usize| #[trigger]
            guarded(a, b) == (a < log.len() && b < log.len() && later(log, a, b)),
    ensures
        crate::sort::inserted(s, x, guarded) == crate::sort::inserted(s, x, newest_first(log)),
        in_log(crate::sort::inserted(s, x, guarded), log.len()),
    decreases s.len(),
{
    let lt = newest_first(log);
    if s.len() > 0 {
        assert(s[s.len() - 1] < log.len());
        assert(guarded(x, s.last()) == lt(x, s.last()));
        if guarded(x, s.last()) {
            let t = s.drop_last();
            assert forall|i: int| 0 <= i < t.len() implies (#[trigger] t[i]) < log.len() by {
                assert(t[i] == s[i]);
            }
            lemma_guarded_inserted(t, x, log, guarded);
        }
    }
}

proof fn lemma_guarded_sort(
    s: Seq<usize>,
    log: Seq<QsoRecord>,
    guarded: spec_fn(usize, usize) -> bool,
)
    requires
        in_log(s, log.len()),
        forall|a: usize, b: usize| #[trigger]
            guarded(a, b) == (a < log.len() && b < log.len() && later(log, a, b)),
    ensures
        stable_sort(s, guarded) == stable_sort(s, newest_first(log)),
        in_log(stable_sort(s, guarded), log.len()),
    decreases s.len(),
{
    if s.len() > 0 {
        let t = s.drop_last();
        assert forall|i: int| 0 <= i < t.len() implies (#[trigger] t[i]) < log.len() by {
            assert(t[i] == s[i]);
        }
        lemma_guarded_sort(t, log, guarded);
        assert(s[s.len() - 1] < log.len());
        lemma_guarded_inserted(stable_sort(t, guarded), s.last(), log, guarded);
    }
}

/// Group the log into daily sessions, newest first.
pub fn sessions(log: &Vec<QsoRecord>) -> (r: Vec<Session>)
    ensures
        grouped(r@, log@),
{
    let order = order_of(log);
    let mut out: Vec<Session> = Vec::new();
    let mut i: usize = 0;
    proof {
        assert(log.len() <= usize::MAX);
        lemma_order_in_log(log@);
        assert(order@.take(0) =~= Seq::<usize>::empty());
    }
    while i < order.len()
        invariant
            i <= order@.len(),
            order@ == list_order(log@),
            in_log(order@, log@.len()),
            all_rows(out@) == order@.take(i as int),
            forall|k: int| 0 <= k < out@.len() ==> is_session(#[trigger] out@[k], log@),
            forall|k: int, l: int|
                0 <= k && l == k + 1 && l < out@.len() ==> (#[trigger] out@[k]).day@ != (
                #[trigger] out@[l]).day@,
            i > 0 ==> out@.len() > 0,
            out@.len() > 0 && i < order@.len() ==> out@.last().day@ != day_of(
                log@,
                order@[i as int],
            ),
        decreases order@.len() - i,
    {
        let newest: i64 = log[order[i]].start_utc;
        let day = date_str(newest);
        let mut rows: Vec<usize> = Vec::new();
        rows.push(order[i]);
        let mut oldest: i64 = newest;
        let mut j: usize = i + 1;
        assert(rows@ =~= order@.subrange(i as int, j as int));
        while j < order.len() && date_str(log[order[j]].start_utc) == day
            invariant
                i < j <= order@.len(),
                in_log(order@, log@.len()),
                newest == log@[order@[i as int] as int].start_utc,
                day@ == day_of(log@, order@[i as int]),
                rows@ == order@.subrange(i as int, j as int),
                forall|k: int|
                    0 <= k < rows@.len() ==> day_of(log@, #[trigger] rows@[k]) == day@,
                oldest == log@[rows@.last() as int].start_utc,
            ensures
                i < j <= order@.len(),
                rows@ == order@.subrange(i as int, j as int),
                forall|k: int|
                    0 <= k < rows@.len() ==> day_of(log@, #[trigger] rows@[k]) == day@,
                oldest == log@[rows@.last() as int].start_utc,
                j < order@.len() ==> day_of(log@, order@[j as int]) != day@,
            decreases order@.len() - j,
        {
            rows.push(order[j]);
            oldest = log[order[j]].start_utc;
            assert(rows@ =~= order@.subrange(i as int, j + 1));
            j = j + 1;
        }
        let ghost before = out@;
        let s = Session { day, newest, oldest, rows };
        proof {
            assert(is_session(s, log@));
            if before.len() > 0 {
                assert(before.last().day@ != s.day@);
            }
        }
        out.push(s);
        proof {
            assert(out@.drop_last() =~= before);
            assert(order@.take(j as int) =~= order@.take(i as int) + s.rows@);
            assert forall|k: int, l: int|
                0 <= k && l == k + 1 && l < out@.len() implies (#[trigger] out@[k]).day@ != (
            #[trigger] out@[l]).day@ by {
                if l < before.len() {
                    assert(before[k].day@ != before[l].day@);
                } else {
                    assert(out@[k] == before.last());
                }
            }
        }
        i = j;
    }
    assert(order@.take(i as int) =~= order@);
    out
}

/// The list shows every contact once, newest first: no contact stands before
/// one that started later.
pub proof fn law_list_newest_first(log: Seq<QsoRecord>, i: int, j: int)
    requires
        log.len() <= usize::MAX,
        0 <= i < j < list_order(log).len(),
    ensures
        list_order(log).len() == log.len(),
        list_order(log).to_multiset() == places(log.len()).to_multiset(),
        log[list_order(log)[i] as int].start_utc >= log[list_order(log)[j] as int].start_utc,
{
    lemma_order_in_log(log);
    law_stable_sort_keeps_items(places(log.len()), newest_first(log));
    assert(orders(newest_first(log)));
    law_stable_sort_in_order(places(log.len()), newest_first(log));
    assert(!later(log, list_order(log)[j], list_order(log)[i]));
}

/// Rows of the sessions before one.
spec fn rows_before(v: Seq<Session>, k: int) -> int {
    all_rows(v.take(k)).len() as int
}

proof fn lemma_row_position(v: Seq<Session>, k: int, i: int)
    requires
        0 <= k < v.len(),
        0 <= i < v[k].rows@.len(),
    ensures
        0 <= rows_before(v, k) + i < all_rows(v).len(),
        all_rows(v)[rows_before(v, k) + i] == v[k].rows@[i],
        rows_before(v, k + 1) == rows_before(v, k) + v[k].rows@.len(),
    decreases v.len(),
{
    assert(v.take(k + 1).drop_last() =~= v.take(k));
    if k == v.len() - 1 {
        assert(v.take(k) =~= v.drop_last());
    } else {
        let t = v.drop_last();
        lemma_row_position(t, k, i);
        assert(t.take(k) =~= v.take(k));
        assert(t[k] == v[k]);
    }
}

/// Whether a list of sessions is the log in daily sessions.
pub open spec fn grouped(v: Seq<Session>, log: Seq<QsoRecord>) -> bool {
    &&& all_rows(v) == list_order(log)
    &&& forall|k: int| 0 <= k < v.len() ==> is_session(#[trigger] v[k], log)
    &&& forall|k: int, l: int|
        0 <= k && l == k + 1 && l < v.len() ==> (#[trigger] v[k]).day@ != (#[trigger] v[l]).day@
}

/// The day on which a session's newest contact started.
spec fn day_index(v: Seq<Session>, k: int) -> int {
    v[k].newest as int / 86400
}

proof fn lemma_days_fall(v: Seq<Session>, log: Seq<QsoRecord>, k: int, l: int)
    requires
        grouped(v, log),
        log.len() <= usize::MAX,
        0 <= k < l < v.len(),
    ensures
        day_index(v, k) > day_index(v, l),
    decreases l - k,
{
    if l > k + 1 {
        lemma_days_fall(v, log, k, l - 1);
        lemma_days_fall(v, log, l - 1, l);
    } else {
        let last = v[k].rows@.len() - 1;
        assert(is_session(v[k], log) && is_session(v[l], log));
        lemma_row_position(v, k, last);
        lemma_row_position(v, l, 0);
        let p = rows_before(v, k) + last;
        lemma_order_in_log(log);
        law_list_newest_first(log, p, p + 1);
        assert(v[k].rows@[last] == list_order(log)[p]);
        assert(v[l].rows@[0] == list_order(log)[p + 1]);
        let a = v[k].oldest as int;
        let b = v[l].newest as int;
        assert(a >= b);
        assert(day_of(log, v[k].rows@[last]) == v[k].day@);
        assert(day_of(log, v[k].rows@[0]) == v[k].day@);
        assert(day_of(log, v[l].rows@[0]) == v[l].day@);
        law_same_date_same_day(a, b);
        law_same_date_same_day(a, v[k].newest as int);
        assert(v[k].day@ != v[l].day@);
    }
}

/// The log is grouped into daily sessions: no two sessions are of the same day,
/// so all contacts of a day stand together.
pub proof fn law_one_session_per_day(v: Seq<Session>, log: Seq<QsoRecord>, k: int, l: int)
    requires
        grouped(v, log),
        log.len() <= usize::MAX,
        0 <= k < l < v.len(),
    ensures
        v[k].day@ != v[l].day@,
{
    lemma_days_fall(v, log, k, l);
    assert(is_session(v[k], log) && is_session(v[l], log));
    assert(day_of(log, v[k].rows@[0]) == v[k].day@);
    assert(day_of(log, v[l].rows@[0]) == v[l].day@);
    law_same_date_same_day(v[k].newest as int, v[l].newest as int);
}

/// The head of a session: its hours and how many contacts it holds.
pub open spec fn header_text(s: Session) -> Seq<char> {
    time_text(utc_of(s.oldest as int)) + "–"@ + time_text(utc_of(s.newest as int)) + " UTC · "@
        + decimal(s.rows@.len()) + " QSO"@
}

impl Session {
    /// The head of a session: its hours and how many contacts it holds.
    pub fn header(&self) -> (r: String)
        ensures
            r@ == header_text(*self),
    {
        let mut s = time_str(self.oldest);
        s.append("–");
        s.append(time_str(self.newest).as_str());
        s.append(" UTC · ");
        s.append(fmt_u64(self.rows.len() as u64).as_str());
        s.append(" QSO");
        s
    }
}

/// A report, or a dash.
pub open spec fn report_text(n: Option<i16>) -> Seq<char> {
    match n {
        Some(v) => decimal_int(v as int),
        None => "–"@,
    }
}

fn report(n: Option<i16>) -> (r: String)
    ensures
        r@ == report_text(n),
{
    match n {
        Some(v) => fmt_i64(v as i64),
        None => "–".to_owned(),
    }
}

/// The two reports of a contact, sent and received.
pub fn rst_text(r: &QsoRecord) -> (s: String)
    ensures
        s@ == report_text(r.rst_sent) + "/"@ + report_text(r.rst_rcvd),
{
    let mut s = report(r.rst_sent);
    s.append("/");
    s.append(report(r.rst_rcvd).as_str());
    s
}

/// What is known of a contact's confirmation.
pub open spec fn mark_of(r: QsoRecord) -> QslMark {
    if r.lotw_rcvd || r.eqsl_rcvd || r.qsl_rcvd {
        QslMark::Confirmed
    } else if r.lotw_sent || r.eqsl_sent || r.qrz_sent || r.clublog_sent {
        QslMark::Uploaded
    } else {
        QslMark::Nothing
    }
}

/// What is known of a contact's confirmation.
pub fn qsl_mark(r: &QsoRecord) -> (m: QslMark)
    ensures
        m == mark_of(*r),
{
    if r.is_confirmed() {
        QslMark::Confirmed
    } else if r.lotw_sent || r.eqsl_sent || r.qrz_sent || r.clublog_sent {
        QslMark::Uploaded
    } else {
        QslMark::Nothing
    }
}

/// A list of words with one more, behind a comma unless it is the first.
pub open spec fn listed(s: Seq<char>, on: bool, word: Seq<char>) -> Seq<char> {
    if !on {
        s
    } else if s.len() == 0 {
        word
    } else {
        s + ", "@ + word
    }
}

fn list_word(s: String, on: bool, word: &str) -> (r: String)
    ensures
        r@ == listed(s@, on, word@),
{
    let mut s = s;
    if on {
        if !s.as_str().is_empty() {
            s.append(", ");
        }
        s.append(word);
    }
    s
}

/// The tip of a contact's mark: what has come back, then what was sent.
pub open spec fn tip_text(r: QsoRecord) -> Seq<char> {
    let s = listed(Seq::empty(), r.lotw_rcvd, "LoTW ✓"@);
    let s = listed(s, r.eqsl_rcvd, "eQSL ✓"@);
    let s = listed(s, r.qsl_rcvd, "card ✓"@);
    let s = listed(s, r.lotw_sent, "LoTW ↑"@);
    let s = listed(s, r.eqsl_sent, "eQSL ↑"@);
    let s = listed(s, r.qrz_sent, "QRZ ↑"@);
    listed(s, r.clublog_sent, "Club Log ↑"@)
}

/// The tip of a contact's mark.
pub fn qsl_tip(r: &QsoRecord) -> (s: String)
    ensures
        s@ == tip_text(*r),
{
    let s = list_word(String::new(), r.lotw_rcvd, "LoTW ✓");
    let s = list_word(s, r.eqsl_rcvd, "eQSL ✓");
    let s = list_word(s, r.qsl_rcvd, "card ✓");
    let s = list_word(s, r.lotw_sent, "LoTW ↑");
    let s = list_word(s, r.eqsl_sent, "eQSL ↑");
    let s = list_word(s, r.qrz_sent, "QRZ ↑");
    list_word(s, r.clublog_sent, "Club Log ↑")
}

/// Which of the buttons that were pressed counts: deleting before editing
/// before uploading.
pub fn row_action(delete: Option<u64>, edit: Option<u64>, upload: Option<u64>) -> (r: RowAction)
    ensures
        r == match (delete, edit, upload) {
            (Some(id), _, _) => RowAction::Delete(id),
            (None, Some(id), _) => RowAction::Edit(id),
            (None, None, Some(id)) => RowAction::Upload(id),
            (None, None, None) => RowAction::Nothing,
        },
{
    if let Some(id) = delete {
        RowAction::Delete(id)
    } else if let Some(id) = edit {
        RowAction::Edit(id)
    } else if let Some(id) = upload {
        RowAction::Upload(id)
    } else {
        RowAction::Nothing
    }
}

/// The records of a log but those with an id.
pub open spec fn without(log: Seq<QsoRecord>, id: u64) -> Seq<QsoRecord> {
    log.filter(|q: QsoRecord| q.id != id)
}

/// Deleting a contact leaves no record with its id, and every other record.
pub proof fn law_delete_removes_the_id(log: Seq<QsoRecord>, id: u64, q: QsoRecord)
    ensures
        without(log, id).contains(q) <==> log.contains(q) && q.id != id,
    decreases log.len(),
{
    reveal(Seq::filter);
    if log.len() > 0 {
        let t = log.drop_last();
        law_delete_removes_the_id(t, id, q);
        let kept = without(t, id);
        if log.contains(q) && !t.contains(q) {
            let i = choose|i: int| 0 <= i < log.len() && log[i] == q;
            if i < t.len() {
                assert(t[i] == q);
            }
        }
        if t.contains(q) {
            let i = choose|i: int| 0 <= i < t.len() && t[i] == q;
            assert(log[i] == q);
        }
        assert(log[log.len() - 1] == log.last());
        if log.last().id != id {
            assert(without(log, id) == kept.push(log.last()));
            if kept.contains(q) {
                let i = choose|i: int| 0 <= i < kept.len() && kept[i] == q;
                assert(kept.push(log.last())[i] == q);
            }
            assert(kept.push(log.last())[kept.len() as int] == log.last());
            if without(log, id).contains(q) && !kept.contains(q) {
                let i = choose|i: int|
                    0 <= i < without(log, id).len() && without(log, id)[i] == q;
                if i < kept.len() {
                    assert(kept[i] == q);
                }
            }
        }
    }
}

impl Logbook {
    /// Delete the records with an id. The log is to be saved afterwards.
    pub fn delete(&mut self, id: u64)
        ensures
            final(self).log@ == without(old(self).log@, id),
            final(self).net_log == old(self).net_log,
            final(self).same_rest(old(self)),
    {
        let ghost start = self.log@;
        let mut i: usize = 0;
        assert(start.skip(0) =~= start);
        proof {
            reveal(Seq::filter);
            assert(start.take(0) =~= Seq::<QsoRecord>::empty());
        }
        let ghost mut done: int = 0;
        while i < self.log.len()
            invariant
                0 <= done <= start.len(),
                i <= self.log@.len(),
                self.log@ == without(start.take(done), id) + start.skip(done),
                i == without(start.take(done), id).len(),
                self.net_log == old(self).net_log,
                self.same_rest(old(self)),
            decreases self.log@.len() - i,
        {
            proof {
                reveal(Seq::filter);
                assert(start.take(done + 1).drop_last() =~= start.take(done));
                assert(self.log@[i as int] == start[done]);
            }
            let ghost kept = without(start.take(done), id);
            if self.log[i].id == id {
                self.log.remove(i);
                assert(self.log@ =~= kept + start.skip(done + 1));
            } else {
                assert(kept + start.skip(done) =~= kept.push(start[done]) + start.skip(done + 1));
                i = i + 1;
            }
            proof {
                done = done + 1;
            }
        }
        assert(start.take(done) =~= start);
    }

    /// Open the first record with an id in the entry form, given its frequency
    /// and power as text; without such a record nothing happens.
    pub fn begin_edit(&mut self, id: u64, freq_mhz: &str, tx_pwr: &str)
        ensures
            final(self).log == old(self).log,
            final(self).show == old(self).show,
            final(self).net_log == old(self).net_log,
            final(self).pending_lookups == old(self).pending_lookups,
            final(self).pending_uploads == old(self).pending_uploads,
            ({
                let k = index_of_id(old(self).log@, id);
                if k < old(self).log@.len() {
                    &&& final(self).edit is Some
                    &&& final(self).edit->0.shows(old(self).log@[k], freq_mhz@, tx_pwr@)
                } else {
                    final(self).edit == old(self).edit
                }
            }),
    {
        let k: usize = find_id(&self.log, id);
        if k < self.log.len() {
            self.edit = Some(LogEditForm::from_record(&self.log[k], freq_mhz, tx_pwr));
        }
    }

    /// Queue the upload of the record with an id to the given targets; without
    /// such a record or without a target nothing happens.
    pub fn queue_upload(&mut self, id: u64, targets: Vec<UploadTarget>)
        ensures
            final(self).log == old(self).log,
            final(self).show == old(self).show,
            final(self).edit == old(self).edit,
            final(self).net_log == old(self).net_log,
            final(self).pending_lookups == old(self).pending_lookups,
            final(self).pending_uploads@ == if targets@.len() > 0 && index_of_id(
                old(self).log@,
                id,
            ) < old(self).log@.len() {
                old(self).pending_uploads@.push((id, targets))
            } else {
                old(self).pending_uploads@
            },
    {
        if targets.len() == 0 {
            return;
        }
        let k: usize = find_id(&self.log, id);
        if k < self.log.len() {
            self.pending_uploads.push((id, targets));
        }
    }

    /// Start a new entry on the radio's frequency and mode.
    pub fn begin_new(&mut self, now: i64, freq_mhz: &str, mode: &str)
        ensures
            final(self).log == old(self).log,
            final(self).show == old(self).show,
            final(self).net_log == old(self).net_log,
            final(self).pending_lookups == old(self).pending_lookups,
            final(self).pending_uploads == old(self).pending_uploads,
            final(self).edit is Some,
            final(self).edit->0.is_new_entry(now, freq_mhz@, mode@),
    {
        self.edit = Some(LogEditForm::new_entry(now, freq_mhz, mode));
    }

    /// Whether the form that is open is for a new entry.
    pub fn is_adding(&self) -> (r: bool)
        ensures
            r == (self.edit is Some && self.edit->0.id == 0),
    {
        match &self.edit {
            Some(f) => f.id == 0,
            None => false,
        }
    }

    /// Put the current date and time into the open form.
    pub fn set_now(&mut self, now: i64)
        ensures
            final(self).log == old(self).log,
            final(self).show == old(self).show,
            final(self).net_log == old(self).net_log,
            final(self).pending_lookups == old(self).pending_lookups,
            final(self).pending_uploads == old(self).pending_uploads,
            match old(self).edit {
                Some(f) => {
                    let g = final(self).edit->0;
                    &&& final(self).edit is Some
                    &&& g.date@ == date_text(utc_of(now as int))
                    &&& g.time@ == time_text(utc_of(now as int))
                    &&& g == LogEditForm { date: g.date, time: g.time, ..f }
                },
                None => final(self).edit is None,
            },
    {
        let u = utc_ymd_hms(now);
        proof {
            law_utc_unique(u, utc_of(now as int));
        }
        if let Some(f) = &mut self.edit {
            f.date = date_of(&u);
            f.time = time_of(&u);
        }
    }

    /// Close the form without saving.
    pub fn cancel_entry(&mut self)
        ensures
            final(self).edit is None,
            final(self).log == old(self).log,
            final(self).show == old(self).show,
            final(self).net_log == old(self).net_log,
            final(self).pending_lookups == old(self).pending_lookups,
            final(self).pending_uploads == old(self).pending_uploads,
    {
        self.edit = None;
    }

    /// Queue a lookup of the call in the open form: on the LOOKUP button, or
    /// with auto-lookup when the call field loses the focus.
    pub fn lookup_entry(&mut self, cfg: &NetworkConfig, pressed: bool, left_field: bool)
        ensures
            final(self).log == old(self).log,
            final(self).show == old(self).show,
            final(self).edit == old(self).edit,
            final(self).net_log == old(self).net_log,
            final(self).pending_uploads == old(self).pending_uploads,
            if old(self).edit is Some && cfg.lookup_provider != LookupProvider::Off && (pressed || (
            left_field && cfg.auto_lookup)) && trimmed(old(self).edit->0.call@).len() > 0 {
                &&& final(self).pending_lookups@.len() == old(self).pending_lookups@.len() + 1
                &&& final(self).pending_lookups@.drop_last() == old(self).pending_lookups@
                &&& final(self).pending_lookups@.last()@ == trimmed(old(self).edit->0.call@)
            } else {
                final(self).pending_lookups == old(self).pending_lookups
            },
    {
        if cfg.lookup_provider == LookupProvider::Off || !(pressed || (left_field
            && cfg.auto_lookup)) {
            return ;
        }
        if let Some(f) = &self.edit {
            if !is_blank(f.call.as_str()) {
                let call = trim(f.call.as_str());
                self.pending_lookups.push(call);
                assert(self.pending_lookups@.drop_last() =~= old(self).pending_lookups@);
            }
        }
    }
}

/// Saving an entry keeps the ids of the log distinct.
pub proof fn law_saving_keeps_ids_distinct(
    before: Logbook,
    after: Logbook,
    my_call: Seq<char>,
    my_grid: Seq<char>,
    typed: Typed,
    persist: bool,
)
    requires
        ids_distinct(before.log@),
        before.saved(&after, my_call, my_grid, typed, persist),
    ensures
        ids_distinct(after.log@),
{
    let log = before.log@;
    let next = after.log@;
    if next != log {
        let f = before.edit->0;
        if f.id == 0 {
            assert forall|i: int, j: int| 0 <= i < j < next.len() implies (#[trigger] next[i]).id
                != (#[trigger] next[j]).id by {
                assert(next[i] == next.drop_last()[i]);
                if j == log.len() {
                    law_next_id_is_free(log, i);
                } else {
                    assert(next[j] == next.drop_last()[j]);
                    assert(log[i].id != log[j].id);
                }
            }
        } else {
            let k = index_of_id(log, f.id);
            crate::logbook::lemma_index_has_id(log, f.id);
            assert forall|i: int, j: int| 0 <= i < j < next.len() implies (#[trigger] next[i]).id
                != (#[trigger] next[j]).id by {
                assert(log[i].id != log[j].id);
            }
        }
    }
}

/// The records of a list of sessions are in their logs' days: a session holds the
/// contacts of one day, its newest first and its oldest last, and says when those
/// started.
pub proof fn law_sessions_span_their_contacts(
    v: Seq<Session>,
    log: Seq<QsoRecord>,
    k: int,
    i: int,
)
    requires
        grouped(v, log),
        log.len() <= usize::MAX,
        0 <= k < v.len(),
        0 <= i < v[k].rows@.len(),
    ensures
        v[k].oldest <= log[v[k].rows@[i] as int].start_utc <= v[k].newest,
        date_text(utc_of(log[v[k].rows@[i] as int].start_utc as int)) == v[k].day@,
{
    let rows = v[k].rows@;
    let n = rows.len() as int;
    let at = rows_before(v, k);
    assert(is_session(v[k], log));
    assert(day_of(log, rows[i]) == v[k].day@);
    assert forall|x: int| 0 <= x < n implies list_order(log)[at + x] == rows[x] && at + x
        < list_order(log).len() by {
        lemma_row_position(v, k, x);
    }
    assert(at >= 0);
    if i > 0 {
        law_list_newest_first(log, at, at + i);
    }
    if i < n - 1 {
        law_list_newest_first(log, at + i, at + n - 1);
    }
}

/// A contact counts as confirmed once a confirmation of it that says so was taken in,
/// and as uploaded once it was sent to any service; it never counts for less than
/// before. A blank record counts for nothing.
pub proof fn law_marks_show_what_came_back(q: QsoRecord, c: QsoRecord, t: UploadTarget)
    ensures
        mark_of(marked(q, c)) == QslMark::Confirmed <==> mark_of(q) == QslMark::Confirmed || mark_of(
            c,
        ) == QslMark::Confirmed,
        mark_of(q) == QslMark::Confirmed <==> q.lotw_rcvd || q.eqsl_rcvd || q.qsl_rcvd,
        mark_of(q) == QslMark::Confirmed ==> mark_of(sent_to(q, t)) == QslMark::Confirmed,
        mark_of(q) != QslMark::Confirmed ==> mark_of(sent_to(q, t)) == QslMark::Uploaded,
        q.lotw_sent ==> mark_of(q) != QslMark::Nothing,
        q.is_empty_record() ==> mark_of(q) == QslMark::Nothing,
{
}

} // verus!
