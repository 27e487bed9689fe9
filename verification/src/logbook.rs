//! The logbook: what adds to it, what changes a record, and in which order it
//! is shown.
use crate::qso::{LogEditForm, QsoRecord, Typed};
use crate::text::{
    decimal, eq_ignore_ascii_case, fmt_u64, is_blank, same_ignoring_case, trim, trimmed,
};
use vstd::prelude::*;

verus! {

/// Lines kept of what lookups and uploads reported.
pub const NET_LOG_MAX: usize = 50;

/// Seconds within which a contact on the same band is the same contact.
pub const DUPLICATE_S: i64 = 120;

/// Seconds within which a confirmation belongs to a contact.
pub const CONFIRM_S: i64 = 86_400;

/// A service that a contact can be uploaded to.
#[derive(Clone, Copy, Debug, PartialEq, Eq, Structural)]
pub enum UploadTarget {
    Eqsl,
    QrzLogbook,
    ClubLog,
}

/// Which lookup service is configured.
#[derive(Clone, Copy, Debug, PartialEq, Eq, Structural)]
pub enum LookupProvider {
    Off,
    Service,
}

/// What the network settings say of lookups and uploads.
#[derive(Debug)]
pub struct NetworkConfig {
    pub auto_lookup: bool,
    pub lookup_provider: LookupProvider,
    pub auto_upload: bool,
    pub auto_upload_eqsl: bool,
    pub auto_upload_qrz: bool,
    pub auto_upload_clublog: bool,
    pub eqsl_user: String,
    pub qrz_logbook_key: String,
    pub clublog_user: String,
    pub clublog_api_key: String,
}

/// What a lookup found out about a callsign.
#[derive(Debug)]
pub struct CallsignInfo {
    pub call: String,
    pub name: Option<String>,
    pub qth: Option<String>,
    pub grid: Option<String>,
    pub state: Option<String>,
    pub country: Option<String>,
    pub dxcc: Option<u16>,
    pub cq_zone: Option<u8>,
    pub itu_zone: Option<u8>,
}

/// What became of an upload.
#[derive(Debug)]
pub struct UploadResult {
    pub qso_id: u64,
    pub target: UploadTarget,
    /// The name of the service, for the report.
    pub label: String,
    pub ok: bool,
    pub message: String,
}

/// The log and what is waiting around it.
pub struct Logbook {
    pub log: Vec<QsoRecord>,
    /// Whether the logbook is open.
    pub show: bool,
    /// The entry being typed in or edited, if any.
    pub edit: Option<LogEditForm>,
    /// What lookups and uploads reported, newest first.
    pub net_log: Vec<String>,
    /// Callsigns queued for lookup.
    pub pending_lookups: Vec<String>,
    /// Contacts queued for upload.
    pub pending_uploads: Vec<(u64, Vec<UploadTarget>)>,
}

/// A field after something was offered for it: filled only when it was blank
/// and something was offered.
pub open spec fn filled(dst: Seq<char>, src: Option<Seq<char>>) -> Seq<char> {
    if can_fill(dst, src) {
        trimmed(src->0)
    } else {
        dst
    }
}

/// Whether a field takes what is offered.
pub open spec fn can_fill(dst: Seq<char>, src: Option<Seq<char>>) -> bool {
    &&& trimmed(dst).len() == 0
    &&& src is Some
    &&& trimmed(src->0).len() > 0
}

/// The view of an optional string.
pub open spec fn opt_view(s: Option<String>) -> Option<Seq<char>> {
    match s {
        Some(t) => Some(t@),
        None => None,
    }
}

/// Fill `dst` from `src` only when `dst` is blank and `src` is non-empty;
/// returns whether it changed anything.
pub fn fill_blank(dst: &mut String, src: Option<&str>) -> (changed: bool)
    ensures
        final(dst)@ == filled(
            old(dst)@,
            match src {
                Some(s) => Some(s@),
                None => None,
            },
        ),
        changed == can_fill(
            old(dst)@,
            match src {
                Some(s) => Some(s@),
                None => None,
            },
        ),
        !changed ==> *final(dst) == *old(dst),
{
    if is_blank(dst.as_str()) {
        if let Some(s) = src {
            let v = trim(s);
            if !v.as_str().is_empty() {
                *dst = v;
                return true;
            }
        }
    }
    false
}

/// The same for an optional string.
fn fill_from(dst: &mut String, src: &Option<String>) -> (changed: bool)
    ensures
        final(dst)@ == filled(old(dst)@, opt_view(*src)),
        changed == can_fill(old(dst)@, opt_view(*src)),
        !changed ==> *final(dst) == *old(dst),
{
    match src {
        Some(s) => fill_blank(dst, Some(s.as_str())),
        None => fill_blank(dst, None),
    }
}

/// What was filled already stays as it is when it is offered something else:
/// only blanks are filled.
pub proof fn law_fill_is_final(dst: Seq<char>, src: Option<Seq<char>>, other: Option<Seq<char>>)
    requires
        trimmed(dst).len() > 0,
    ensures
        filled(dst, src) == dst,
        filled(filled(dst, src), other) == dst,
{
}

/// The upload targets for which a condition holds, in the order they are listed.
pub open spec fn targets_of(eqsl: bool, qrz: bool, clublog: bool) -> Seq<UploadTarget> {
    (if eqsl {
        seq![UploadTarget::Eqsl]
    } else {
        seq![]
    }) + (if qrz {
        seq![UploadTarget::QrzLogbook]
    } else {
        seq![]
    }) + (if clublog {
        seq![UploadTarget::ClubLog]
    } else {
        seq![]
    })
}

fn list_targets(eqsl: bool, qrz: bool, clublog: bool) -> (r: Vec<UploadTarget>)
    ensures
        r@ == targets_of(eqsl, qrz, clublog),
{
    let mut t: Vec<UploadTarget> = Vec::new();
    if eqsl {
        t.push(UploadTarget::Eqsl);
    }
    if qrz {
        t.push(UploadTarget::QrzLogbook);
    }
    if clublog {
        t.push(UploadTarget::ClubLog);
    }
    assert(t@ =~= targets_of(eqsl, qrz, clublog));
    t
}

impl NetworkConfig {
    /// The targets enabled for auto-upload.
    pub open spec fn auto_targets(&self) -> Seq<UploadTarget> {
        targets_of(self.auto_upload_eqsl, self.auto_upload_qrz, self.auto_upload_clublog)
    }

    /// The targets that have credentials.
    pub open spec fn configured_targets(&self) -> Seq<UploadTarget> {
        targets_of(
            trimmed(self.eqsl_user@).len() > 0,
            trimmed(self.qrz_logbook_key@).len() > 0,
            trimmed(self.clublog_user@).len() > 0 && trimmed(self.clublog_api_key@).len() > 0,
        )
    }
}

/// Which upload targets are enabled for auto-upload.
pub fn auto_upload_targets(cfg: &NetworkConfig) -> (r: Vec<UploadTarget>)
    ensures
        r@ == cfg.auto_targets(),
{
    list_targets(cfg.auto_upload_eqsl, cfg.auto_upload_qrz, cfg.auto_upload_clublog)
}

/// Upload targets that have credentials configured (for the manual per-contact
/// upload button).
pub fn configured_upload_targets(cfg: &NetworkConfig) -> (r: Vec<UploadTarget>)
    ensures
        r@ == cfg.configured_targets(),
{
    list_targets(
        !is_blank(cfg.eqsl_user.as_str()),
        !is_blank(cfg.qrz_logbook_key.as_str()),
        !is_blank(cfg.clublog_user.as_str()) && !is_blank(cfg.clublog_api_key.as_str()),
    )
}

/// Whether the rows of the log offer an upload: only where one can do something.
pub fn offers_upload(cfg: &NetworkConfig) -> (r: bool)
    ensures
        r == (cfg.configured_targets().len() > 0),
{
    configured_upload_targets(cfg).len() > 0
}

/// The id and targets for auto-upload of a freshly logged contact, or `None`
/// when auto-upload is off or no target is enabled.
pub fn auto_upload_adif(cfg: &NetworkConfig, rec: &QsoRecord) -> (r: Option<
    (u64, Vec<UploadTarget>),
>)
    ensures
        r is Some <==> cfg.auto_upload && cfg.auto_targets().len() > 0,
        r matches Some(u) ==> u.0 == rec.id && u.1@ == cfg.auto_targets(),
{
    if !cfg.auto_upload {
        return None;
    }
    let targets = auto_upload_targets(cfg);
    if targets.len() == 0 {
        return None;
    }
    Some((rec.id, targets))
}

/// The largest id in a log, zero if it is empty.
pub open spec fn max_id(log: Seq<QsoRecord>) -> nat
    decreases log.len(),
{
    if log.len() == 0 {
        0
    } else {
        let m = max_id(log.drop_last());
        if log.last().id > m {
            log.last().id as nat
        } else {
            m
        }
    }
}

/// Whether no two records have the same id.
pub open spec fn ids_distinct(log: Seq<QsoRecord>) -> bool {
    forall|i: int, j: int|
        0 <= i < j < log.len() ==> (#[trigger] log[i]).id != (#[trigger] log[j]).id
}

proof fn lemma_max_id(log: Seq<QsoRecord>)
    ensures
        forall|i: int| 0 <= i < log.len() ==> (#[trigger] log[i]).id <= max_id(log),
    decreases log.len(),
{
    if log.len() > 0 {
        lemma_max_id(log.drop_last());
        assert forall|i: int| 0 <= i < log.len() implies (#[trigger] log[i]).id <= max_id(log) by {
            if i < log.len() - 1 {
                assert(log.drop_last()[i] == log[i]);
            }
        }
    }
}

/// The next free id is larger than every id in use.
pub proof fn law_next_id_is_free(log: Seq<QsoRecord>, i: int)
    requires
        0 <= i < log.len(),
    ensures
        log[i].id < max_id(log) + 1,
{
    lemma_max_id(log);
}

/// The two moments are less than a number of seconds apart.
pub open spec fn within(a: int, b: int, secs: int) -> bool {
    -secs < a - b < secs
}

fn is_within(a: i64, b: i64, secs: i64) -> (r: bool)
    ensures
        r == within(a as int, b as int, secs as int),
{
    let d: i128 = a as i128 - b as i128;
    -(secs as i128) < d && d < secs as i128
}

/// Whether a contact is in the log already: same call and band, within two
/// minutes.
pub open spec fn same_contact(q: QsoRecord, r: QsoRecord) -> bool {
    &&& same_ignoring_case(q.call@, r.call@)
    &&& same_ignoring_case(q.band@, r.band@)
    &&& within(q.start_utc as int, r.start_utc as int, DUPLICATE_S as int)
}

/// Whether a log holds a contact already.
pub open spec fn holds(log: Seq<QsoRecord>, r: QsoRecord) -> bool {
    exists|i: int| 0 <= i < log.len() && same_contact(#[trigger] log[i], r)
}

/// Whether a log holds a contact already.
fn has_contact(log: &Vec<QsoRecord>, r: &QsoRecord) -> (found: bool)
    ensures
        found == holds(log@, *r),
{
    let mut i: usize = 0;
    while i < log.len()
        invariant
            i <= log@.len(),
            forall|j: int| 0 <= j < i ==> !same_contact(#[trigger] log@[j], *r),
        decreases log@.len() - i,
    {
        let q = &log[i];
        if eq_ignore_ascii_case(q.call.as_str(), r.call.as_str()) && eq_ignore_ascii_case(
            q.band.as_str(),
            r.band.as_str(),
        ) && is_within(q.start_utc, r.start_utc, DUPLICATE_S) {
            assert(same_contact(log@[i as int], *r));
            return true;
        }
        i = i + 1;
    }
    false
}

/// Whether a record of an imported file is added: it names a station and is not
/// in the log yet.
pub open spec fn importable(log: Seq<QsoRecord>, r: QsoRecord) -> bool {
    trimmed(r.call@).len() > 0 && !holds(log, r)
}

/// The log after one record of an imported file, under a fresh id.
pub open spec fn import_one(log: Seq<QsoRecord>, r: QsoRecord) -> Seq<QsoRecord> {
    if importable(log, r) {
        log.push(QsoRecord { id: (max_id(log) + 1) as u64, ..r })
    } else {
        log
    }
}

/// The log after an imported file.
pub open spec fn import_all(log: Seq<QsoRecord>, rs: Seq<QsoRecord>) -> Seq<QsoRecord>
    decreases rs.len(),
{
    if rs.len() == 0 {
        log
    } else {
        import_one(import_all(log, rs.drop_last()), rs.last())
    }
}

/// The records of an imported file that name a station but are in the log.
pub open spec fn skipped_in(log: Seq<QsoRecord>, rs: Seq<QsoRecord>) -> nat
    decreases rs.len(),
{
    if rs.len() == 0 {
        0
    } else {
        let before = import_all(log, rs.drop_last());
        skipped_in(log, rs.drop_last()) + if trimmed(rs.last().call@).len() > 0 && holds(
            before,
            rs.last(),
        ) {
            1nat
        } else {
            0nat
        }
    }
}

/// How many records of a file are added to a log.
pub open spec fn added_by(log: Seq<QsoRecord>, rs: Seq<QsoRecord>) -> int {
    import_all(log, rs).len() - log.len()
}

/// A longer file adds no less.
proof fn lemma_import_length(log: Seq<QsoRecord>, front: Seq<QsoRecord>, rs: Seq<QsoRecord>)
    requires
        front.len() <= rs.len(),
        front == rs.take(front.len() as int),
    ensures
        log.len() <= import_all(log, front).len() <= import_all(log, rs).len(),
    decreases rs.len(),
{
    if front.len() == rs.len() {
        assert(front =~= rs);
        if front.len() > 0 {
            let t = front.drop_last();
            assert(t =~= t.take(t.len() as int));
            lemma_import_length(log, t, t);
        }
    } else {
        let t = rs.drop_last();
        assert(front =~= t.take(front.len() as int));
        lemma_import_length(log, front, t);
    }
}

proof fn lemma_import_grows(log: Seq<QsoRecord>, rs: Seq<QsoRecord>)
    requires
        max_id(log) + added_by(log, rs) <= u64::MAX,
    ensures
        log.len() <= import_all(log, rs).len() <= log.len() + rs.len(),
        max_id(import_all(log, rs)) == max_id(log) + added_by(log, rs),
        skipped_in(log, rs) <= rs.len(),
        import_all(log, rs).take(log.len() as int) == log,
    decreases rs.len(),
{
    if rs.len() > 0 {
        lemma_import_length(log, rs.drop_last(), rs);
        lemma_import_grows(log, rs.drop_last());
        let before = import_all(log, rs.drop_last());
        let after = import_all(log, rs);
        if importable(before, rs.last()) {
            assert(after.drop_last() =~= before);
        }
        assert(after.take(log.len() as int) =~= before.take(log.len() as int));
    } else {
        assert(log.take(log.len() as int) =~= log);
    }
}

/// An import keeps the log's records in front, and adds no contact that was there
/// already, neither from the log nor from the file. What it adds names a station
/// and has an id larger than every earlier one.
pub proof fn law_import_adds_no_duplicate(log: Seq<QsoRecord>, rs: Seq<QsoRecord>)
    requires
        max_id(log) + added_by(log, rs) <= u64::MAX,
    ensures
        import_all(log, rs).take(log.len() as int) == log,
        ids_distinct(log) ==> ids_distinct(import_all(log, rs)),
        forall|i: int, j: int|
            0 <= i < j < import_all(log, rs).len() && log.len() <= j ==> !same_contact(
                #[trigger] import_all(log, rs)[i],
                #[trigger] import_all(log, rs)[j],
            ),
        forall|i: int, j: int|
            0 <= i < j < import_all(log, rs).len() && log.len() <= j ==> (#[trigger] import_all(
                log,
                rs,
            )[i]).id < (#[trigger] import_all(log, rs)[j]).id,
        forall|j: int|
            log.len() <= j < import_all(log, rs).len() ==> trimmed(
                (#[trigger] import_all(log, rs)[j]).call@,
            ).len() > 0,
    decreases rs.len(),
{
    lemma_import_grows(log, rs);
    if rs.len() > 0 {
        let t = rs.drop_last();
        lemma_import_length(log, t, rs);
        law_import_adds_no_duplicate(log, t);
        lemma_import_grows(log, t);
        let before = import_all(log, t);
        let after = import_all(log, rs);
        lemma_max_id(before);
        if importable(before, rs.last()) {
            assert forall|i: int, j: int|
                0 <= i < j < after.len() && ids_distinct(log) implies (#[trigger] after[i]).id != (
            #[trigger] after[j]).id by {
                if j == before.len() {
                    assert(before[i].id <= max_id(before));
                } else {
                    assert(before[i].id != before[j].id);
                }
            }
            assert forall|i: int, j: int|
                0 <= i < j < after.len() && log.len() <= j implies (#[trigger] after[i]).id < (
            #[trigger] after[j]).id by {
                if j == before.len() {
                    assert(before[i].id <= max_id(before));
                } else {
                    assert(before[i].id < before[j].id);
                }
            }
            assert forall|j: int| log.len() <= j < after.len() implies trimmed(
                (#[trigger] after[j]).call@,
            ).len() > 0 by {
                if j < before.len() {
                    assert(trimmed(before[j].call@).len() > 0);
                }
            }
            assert forall|i: int, j: int|
                0 <= i < j < after.len() && log.len() <= j implies !same_contact(
                #[trigger] after[i],
                #[trigger] after[j],
            ) by {
                if j == before.len() {
                    assert(!same_contact(before[i], rs.last()));
                } else {
                    assert(!same_contact(before[i], before[j]));
                }
            }
        }
    }
}

/// An import loses no contact and adds none twice: a record that names a station is
/// added, as it is and under the next free id, unless the log by then has one with the
/// same call and band that started less than 120 seconds before or after it. One that
/// names none is passed over.
pub proof fn law_import_takes_what_is_new(
    log: Seq<QsoRecord>,
    rs: Seq<QsoRecord>,
    r: QsoRecord,
)
    ensures
        ({
            let before = import_all(log, rs);
            let after = import_all(log, rs.push(r));
            let known = exists|i: int|
                0 <= i < before.len() && same_ignoring_case((#[trigger] before[i]).call@, r.call@)
                    && same_ignoring_case(before[i].band@, r.band@) && -120 < before[i].start_utc
                    - r.start_utc < 120;
            &&& import_all(log, Seq::empty()) == log
            &&& trimmed(r.call@).len() == 0 || known ==> after == before
            &&& trimmed(r.call@).len() > 0 && !known ==> {
                &&& after.len() == before.len() + 1
                &&& after.drop_last() == before
                &&& after.last() == QsoRecord { id: after.last().id, ..r }
                &&& max_id(before) < u64::MAX ==> after.last().id == max_id(before) + 1
            }
        }),
{
    let before = import_all(log, rs);
    assert(rs.push(r).drop_last() =~= rs);
    if holds(before, r) {
        let i = choose|i: int| 0 <= i < before.len() && same_contact(#[trigger] before[i], r);
        assert(same_ignoring_case(before[i].call@, r.call@));
    }
    assert forall|i: int|
        0 <= i < before.len() && same_ignoring_case((#[trigger] before[i]).call@, r.call@)
            && same_ignoring_case(before[i].band@, r.band@) && -120 < before[i].start_utc
            - r.start_utc < 120 implies holds(before, r) by {
        assert(same_contact(before[i], r));
    }
    if importable(before, r) {
        assert(import_all(log, rs.push(r)).drop_last() =~= before);
    }
}

/// After an import every record of the file that names a station is in the log: some
/// record there has its call and band and started less than 120 seconds from it.
pub proof fn law_import_loses_no_contact(log: Seq<QsoRecord>, rs: Seq<QsoRecord>, i: int)
    requires
        0 <= i < rs.len(),
        trimmed(rs[i].call@).len() > 0,
    ensures
        exists|k: int|
            0 <= k < import_all(log, rs).len() && same_ignoring_case(
                (#[trigger] import_all(log, rs)[k]).call@,
                rs[i].call@,
            ) && same_ignoring_case(import_all(log, rs)[k].band@, rs[i].band@) && -120
                < import_all(log, rs)[k].start_utc - rs[i].start_utc < 120,
{
    let after = import_all(log, rs);
    lemma_import_leaves_nothing(log, rs);
    assert(!importable(after, rs[i]));
    let k = choose|k: int| 0 <= k < after.len() && same_contact(#[trigger] after[k], rs[i]);
    assert(same_ignoring_case(after[k].call@, rs[i].call@));
}

/// The next free id is one more than the largest in use, and the first is 1.
pub proof fn law_next_id_follows_the_largest(log: Seq<QsoRecord>, k: int)
    ensures
        log.len() == 0 ==> max_id(log) == 0,
        0 <= k < log.len() && (forall|i: int|
            0 <= i < log.len() ==> (#[trigger] log[i]).id <= log[k].id) ==> max_id(log) == log[k].id,
{
    lemma_max_id(log);
    lemma_max_id_is_used(log);
}

proof fn lemma_max_id_is_used(log: Seq<QsoRecord>)
    ensures
        max_id(log) == 0 || exists|i: int| 0 <= i < log.len() && (#[trigger] log[i]).id == max_id(log),
    decreases log.len(),
{
    if log.len() > 0 {
        let t = log.drop_last();
        lemma_max_id_is_used(t);
        if log.last().id > max_id(t) {
            assert(log[log.len() - 1].id == max_id(log));
        } else if max_id(t) > 0 {
            let i = choose|i: int| 0 <= i < t.len() && (#[trigger] t[i]).id == max_id(t);
            assert(log[i].id == max_id(log));
        }
    }
}

/// Every record of a file is added, skipped as known, or passed over for want of a
/// call: the numbers that are reported make up the file.
pub proof fn law_import_counts_every_record(log: Seq<QsoRecord>, rs: Seq<QsoRecord>)
    ensures
        added_by(log, rs) + skipped_in(log, rs) + rs.filter(
            |r: QsoRecord| trimmed(r.call@).len() == 0,
        ).len() == rs.len(),
    decreases rs.len(),
{
    reveal(Seq::filter);
    if rs.len() > 0 {
        law_import_counts_every_record(log, rs.drop_last());
    }
}

/// Whether a log leaves nothing of a file to import.
pub open spec fn all_imported(log: Seq<QsoRecord>, rs: Seq<QsoRecord>) -> bool {
    forall|i: int| 0 <= i < rs.len() ==> !importable(log, #[trigger] rs[i])
}

proof fn lemma_import_leaves_nothing(log: Seq<QsoRecord>, rs: Seq<QsoRecord>)
    ensures
        all_imported(import_all(log, rs), rs),
    decreases rs.len(),
{
    if rs.len() > 0 {
        let t = rs.drop_last();
        lemma_import_leaves_nothing(log, t);
        let before = import_all(log, t);
        let after = import_all(log, rs);
        assert forall|i: int| 0 <= i < rs.len() implies !importable(after, #[trigger] rs[i]) by {
            if i < t.len() {
                assert(rs[i] == t[i]);
                assert(!importable(before, t[i]));
                if holds(before, rs[i]) {
                    let k = choose|k: int|
                        0 <= k < before.len() && same_contact(#[trigger] before[k], rs[i]);
                    assert(same_contact(after[k], rs[i]));
                }
            } else if importable(before, rs[i]) {
                assert(same_contact(after[before.len() as int], rs[i]));
            }
        }
    }
}

proof fn lemma_nothing_to_import(log: Seq<QsoRecord>, rs: Seq<QsoRecord>)
    requires
        all_imported(log, rs),
    ensures
        import_all(log, rs) == log,
    decreases rs.len(),
{
    if rs.len() > 0 {
        let t = rs.drop_last();
        assert forall|i: int| 0 <= i < t.len() implies !importable(log, #[trigger] t[i]) by {
            assert(t[i] == rs[i]);
        }
        lemma_nothing_to_import(log, t);
        assert(!importable(log, rs[rs.len() - 1]));
    }
}

/// Importing the same file again changes nothing, and needs no ids.
pub proof fn law_importing_again_changes_nothing(log: Seq<QsoRecord>, rs: Seq<QsoRecord>)
    ensures
        import_all(import_all(log, rs), rs) == import_all(log, rs),
        max_id(import_all(log, rs)) + added_by(import_all(log, rs), rs) <= u64::MAX,
{
    lemma_import_leaves_nothing(log, rs);
    lemma_nothing_to_import(import_all(log, rs), rs);
    lemma_max_id_is_an_id(import_all(log, rs));
}

proof fn lemma_max_id_is_an_id(log: Seq<QsoRecord>)
    ensures
        max_id(log) <= u64::MAX,
    decreases log.len(),
{
    if log.len() > 0 {
        lemma_max_id_is_an_id(log.drop_last());
    }
}

/// Whether a downloaded confirmation is for a record: same call and band, the
/// same mode where both have one, within a day.
pub open spec fn confirms(c: QsoRecord, q: QsoRecord) -> bool {
    &&& same_ignoring_case(q.call@, c.call@)
    &&& same_ignoring_case(q.band@, c.band@)
    &&& c.mode@.len() == 0 || q.mode@.len() == 0 || same_ignoring_case(q.mode@, c.mode@)
    &&& within(q.start_utc as int, c.start_utc as int, CONFIRM_S as int)
}

/// The first record that a confirmation is for, or the length of the log.
pub open spec fn confirmed_index(log: Seq<QsoRecord>, c: QsoRecord) -> int
    decreases log.len(),
{
    if log.len() == 0 {
        0
    } else {
        let k = confirmed_index(log.drop_last(), c);
        if k < log.len() - 1 {
            k
        } else if confirms(c, log.last()) {
            log.len() - 1
        } else {
            log.len() as int
        }
    }
}

/// A record with a confirmation's marks added to its own.
pub open spec fn marked(q: QsoRecord, c: QsoRecord) -> QsoRecord {
    QsoRecord {
        lotw_rcvd: q.lotw_rcvd || c.lotw_rcvd,
        eqsl_rcvd: q.eqsl_rcvd || c.eqsl_rcvd,
        qsl_rcvd: q.qsl_rcvd || c.qsl_rcvd,
        ..q
    }
}

/// Whether a confirmation says anything new.
pub open spec fn newly_confirms(log: Seq<QsoRecord>, c: QsoRecord) -> bool {
    let k = confirmed_index(log, c);
    trimmed(c.call@).len() > 0 && k < log.len() && marked(log[k], c) != log[k]
}

/// The log after one confirmation.
pub open spec fn confirm_one(log: Seq<QsoRecord>, c: QsoRecord) -> Seq<QsoRecord> {
    let k = confirmed_index(log, c);
    if trimmed(c.call@).len() > 0 && k < log.len() {
        log.update(k, marked(log[k], c))
    } else {
        log
    }
}

/// The log after a list of confirmations.
pub open spec fn confirm_all(log: Seq<QsoRecord>, cs: Seq<QsoRecord>) -> Seq<QsoRecord>
    decreases cs.len(),
{
    if cs.len() == 0 {
        log
    } else {
        confirm_one(confirm_all(log, cs.drop_last()), cs.last())
    }
}

/// How many of a list of confirmations said anything new.
pub open spec fn newly_confirmed(log: Seq<QsoRecord>, cs: Seq<QsoRecord>) -> nat
    decreases cs.len(),
{
    if cs.len() == 0 {
        0
    } else {
        newly_confirmed(log, cs.drop_last()) + if newly_confirms(
            confirm_all(log, cs.drop_last()),
            cs.last(),
        ) {
            1nat
        } else {
            0nat
        }
    }
}

proof fn lemma_confirmed_index(log: Seq<QsoRecord>, c: QsoRecord, k: int)
    requires
        0 <= k <= log.len(),
        forall|j: int| 0 <= j < k ==> !confirms(c, #[trigger] log[j]),
        k < log.len() ==> confirms(c, log[k]),
    ensures
        confirmed_index(log, c) == k,
    decreases log.len(),
{
    if log.len() > 0 {
        let t = log.drop_last();
        if k < log.len() {
            if k < t.len() {
                assert(t[k] == log[k]);
                assert forall|j: int| 0 <= j < k implies !confirms(c, #[trigger] t[j]) by {
                    assert(t[j] == log[j]);
                }
                lemma_confirmed_index(t, c, k);
            } else {
                assert forall|j: int| 0 <= j < t.len() implies !confirms(c, #[trigger] t[j]) by {
                    assert(t[j] == log[j]);
                }
                lemma_confirmed_index(t, c, t.len() as int);
            }
        } else {
            assert forall|j: int| 0 <= j < t.len() implies !confirms(c, #[trigger] t[j]) by {
                assert(t[j] == log[j]);
            }
            lemma_confirmed_index(t, c, t.len() as int);
            assert(!confirms(c, log[log.len() - 1]));
        }
    }
}

/// Confirmations only ever add marks: every record stays where it is and as it
/// is, apart from marks of receipt that it may have gained.
pub proof fn law_confirmations_only_add_marks(log: Seq<QsoRecord>, cs: Seq<QsoRecord>, i: int)
    requires
        0 <= i < log.len(),
    ensures
        confirm_all(log, cs).len() == log.len(),
        ({
            let after = confirm_all(log, cs)[i];
            &&& after == QsoRecord {
                lotw_rcvd: after.lotw_rcvd,
                eqsl_rcvd: after.eqsl_rcvd,
                qsl_rcvd: after.qsl_rcvd,
                ..log[i]
            }
            &&& log[i].lotw_rcvd ==> after.lotw_rcvd
            &&& log[i].eqsl_rcvd ==> after.eqsl_rcvd
            &&& log[i].qsl_rcvd ==> after.qsl_rcvd
        }),
    decreases cs.len(),
{
    if cs.len() > 0 {
        law_confirmations_only_add_marks(log, cs.drop_last(), i);
        lemma_index_bound(confirm_all(log, cs.drop_last()), cs.last());
    }
}

/// A confirmation goes to the first contact that it is for: the one with its call and
/// band, with its mode where both have one, that started less than 86400 seconds before
/// or after it. There its marks are added; nothing else changes. `k` is the place of that
/// contact, or the log's length where there is none.
pub proof fn law_confirmation_goes_to_its_contact(
    log: Seq<QsoRecord>,
    cs: Seq<QsoRecord>,
    c: QsoRecord,
    k: int,
)
    requires
        0 <= k <= log.len(),
        forall|i: int|
            0 <= i < k ==> !(same_ignoring_case((#[trigger] log[i]).call@, c.call@)
                && same_ignoring_case(log[i].band@, c.band@) && (c.mode@.len() == 0
                || log[i].mode@.len() == 0 || same_ignoring_case(log[i].mode@, c.mode@))
                && -86_400 < log[i].start_utc - c.start_utc < 86_400),
        k < log.len() ==> same_ignoring_case(log[k].call@, c.call@) && same_ignoring_case(
            log[k].band@,
            c.band@,
        ) && (c.mode@.len() == 0 || log[k].mode@.len() == 0 || same_ignoring_case(
            log[k].mode@,
            c.mode@,
        )) && -86_400 < log[k].start_utc - c.start_utc < 86_400,
    ensures
        ({
            let before = confirm_all(log, cs);
            let after = confirm_all(log, cs.push(c));
            &&& confirm_all(log, Seq::empty()) == log
            &&& k == log.len() || trimmed(c.call@).len() == 0 ==> after == before
            &&& k < log.len() && trimmed(c.call@).len() > 0 ==> after == before.update(
                k,
                QsoRecord {
                    lotw_rcvd: before[k].lotw_rcvd || c.lotw_rcvd,
                    eqsl_rcvd: before[k].eqsl_rcvd || c.eqsl_rcvd,
                    qsl_rcvd: before[k].qsl_rcvd || c.qsl_rcvd,
                    ..before[k]
                },
            )
        }),
{
    let before = confirm_all(log, cs);
    assert(cs.push(c).drop_last() =~= cs);
    lemma_confirm_keeps_length(log, cs);
    assert forall|i: int| 0 <= i < log.len() implies confirms(c, #[trigger] before[i]) == confirms(
        c,
        log[i],
    ) by {
        law_confirmations_only_add_marks(log, cs, i);
    }
    lemma_confirmed_index(before, c, k);
}

/// A contact gains a mark of receipt only from a confirmation in the list that has the
/// mark and is for that contact: same call and band, a mode that is not another, and a
/// start less than 86400 seconds away.
pub proof fn law_marks_come_from_confirmations(log: Seq<QsoRecord>, cs: Seq<QsoRecord>, i: int)
    requires
        0 <= i < log.len(),
        confirm_all(log, cs)[i] != log[i],
    ensures
        ({
            let after = confirm_all(log, cs)[i];
            exists|j: int|
                0 <= j < cs.len() && same_ignoring_case(
                    log[i].call@,
                    (#[trigger] cs[j]).call@,
                ) && same_ignoring_case(log[i].band@, cs[j].band@) && (cs[j].mode@.len() == 0
                    || log[i].mode@.len() == 0 || same_ignoring_case(log[i].mode@, cs[j].mode@))
                    && -86_400 < log[i].start_utc - cs[j].start_utc < 86_400 && {
                    ||| cs[j].lotw_rcvd && after.lotw_rcvd && !log[i].lotw_rcvd
                    ||| cs[j].eqsl_rcvd && after.eqsl_rcvd && !log[i].eqsl_rcvd
                    ||| cs[j].qsl_rcvd && after.qsl_rcvd && !log[i].qsl_rcvd
                }
        }),
    decreases cs.len(),
{
    law_confirmations_only_add_marks(log, cs, i);
    let t = cs.drop_last();
    let c = cs.last();
    let before = confirm_all(log, t);
    law_confirmations_only_add_marks(log, t, i);
    if before[i] != log[i] {
        law_marks_come_from_confirmations(log, t, i);
        let b = before[i];
        let j = choose|j: int|
            0 <= j < t.len() && same_ignoring_case(log[i].call@, (#[trigger] t[j]).call@)
                && same_ignoring_case(log[i].band@, t[j].band@) && (t[j].mode@.len() == 0
                || log[i].mode@.len() == 0 || same_ignoring_case(log[i].mode@, t[j].mode@))
                && -86_400 < log[i].start_utc - t[j].start_utc < 86_400 && {
                ||| t[j].lotw_rcvd && b.lotw_rcvd && !log[i].lotw_rcvd
                ||| t[j].eqsl_rcvd && b.eqsl_rcvd && !log[i].eqsl_rcvd
                ||| t[j].qsl_rcvd && b.qsl_rcvd && !log[i].qsl_rcvd
            };
        assert(cs[j] == t[j]);
        lemma_index_bound(before, c);
    } else {
        lemma_confirmed_index_confirms(before, c);
        assert(cs[cs.len() - 1] == c);
    }
}

proof fn lemma_confirmed_index_confirms(log: Seq<QsoRecord>, c: QsoRecord)
    ensures
        0 <= confirmed_index(log, c) <= log.len(),
        confirmed_index(log, c) < log.len() ==> confirms(c, log[confirmed_index(log, c)]),
    decreases log.len(),
{
    if log.len() > 0 {
        lemma_confirmed_index_confirms(log.drop_last(), c);
    }
}

/// Confirmations neither add records nor drop any.
pub proof fn lemma_confirm_keeps_length(log: Seq<QsoRecord>, cs: Seq<QsoRecord>)
    ensures
        confirm_all(log, cs).len() == log.len(),
    decreases cs.len(),
{
    if cs.len() > 0 {
        lemma_confirm_keeps_length(log, cs.drop_last());
        lemma_index_bound(confirm_all(log, cs.drop_last()), cs.last());
    }
}

proof fn lemma_index_bound(log: Seq<QsoRecord>, c: QsoRecord)
    ensures
        0 <= confirmed_index(log, c) <= log.len(),
    decreases log.len(),
{
    if log.len() > 0 {
        lemma_index_bound(log.drop_last(), c);
    }
}

/// The most recent record of a call, the last one of those that started
/// together, or -1.
pub open spec fn latest(log: Seq<QsoRecord>, call: Seq<char>) -> int
    decreases log.len(),
{
    if log.len() == 0 {
        -1
    } else {
        let k = latest(log.drop_last(), call);
        if same_ignoring_case(log.last().call@, call) && (k < 0 || log.last().start_utc
            >= log[k].start_utc) {
            log.len() - 1
        } else {
            k
        }
    }
}

pub proof fn lemma_latest_bound(log: Seq<QsoRecord>, call: Seq<char>)
    ensures
        -1 <= latest(log, call) < log.len(),
    decreases log.len(),
{
    if log.len() > 0 {
        lemma_latest_bound(log.drop_last(), call);
    }
}

/// The record that a lookup enriches is one of that call, and none of that call
/// is more recent; there is one if the call is in the log at all.
pub proof fn law_latest_is_most_recent(log: Seq<QsoRecord>, call: Seq<char>, i: int)
    requires
        0 <= i < log.len(),
        same_ignoring_case(log[i].call@, call),
    ensures
        0 <= latest(log, call) < log.len(),
        same_ignoring_case(log[latest(log, call)].call@, call),
        log[i].start_utc <= log[latest(log, call)].start_utc,
    decreases log.len(),
{
    let t = log.drop_last();
    lemma_latest_bound(t, call);
    if i < t.len() {
        assert(t[i] == log[i]);
        law_latest_is_most_recent(t, call, i);
    } else if latest(t, call) >= 0 {
        let k = latest(t, call);
        lemma_latest_matches(t, call);
        assert(t[k] == log[k]);
    }
}

proof fn lemma_latest_matches(log: Seq<QsoRecord>, call: Seq<char>)
    ensures
        latest(log, call) >= 0 ==> latest(log, call) < log.len() && same_ignoring_case(
            log[latest(log, call)].call@,
            call,
        ),
    decreases log.len(),
{
    if log.len() > 0 {
        lemma_latest_matches(log.drop_last(), call);
    }
}

/// The most recent record of a call.
fn find_latest(log: &Vec<QsoRecord>, call: &str) -> (r: Option<usize>)
    ensures
        match r {
            Some(k) => latest(log@, call@) == k && k < log@.len(),
            None => latest(log@, call@) == -1,
        },
{
    let mut best: Option<usize> = None;
    let mut i: usize = 0;
    assert(log@.take(0) =~= Seq::<QsoRecord>::empty());
    while i < log.len()
        invariant
            i <= log@.len(),
            match best {
                Some(k) => latest(log@.take(i as int), call@) == k && k < i,
                None => latest(log@.take(i as int), call@) == -1,
            },
        decreases log@.len() - i,
    {
        assert(log@.take(i + 1).drop_last() =~= log@.take(i as int));
        if eq_ignore_ascii_case(log[i].call.as_str(), call) {
            match best {
                Some(k) => {
                    if log[i].start_utc >= log[k].start_utc {
                        best = Some(i);
                    }
                },
                None => {
                    best = Some(i);
                },
            }
        }
        i = i + 1;
    }
    assert(log@.take(i as int) =~= log@);
    best
}

/// Whether a record was enriched with what a lookup found: blank fields filled,
/// everything else as it was.
pub open spec fn enriched(a: QsoRecord, b: QsoRecord, info: CallsignInfo) -> bool {
    &&& b.name@ == filled(a.name@, opt_view(info.name))
    &&& b.qth@ == filled(a.qth@, opt_view(info.qth))
    &&& b.state@ == filled(a.state@, opt_view(info.state))
    &&& b.country@ == filled(a.country@, opt_view(info.country))
    &&& opt_view(b.grid) == if grid_blank(a) && info.grid is Some {
        opt_view(info.grid)
    } else {
        opt_view(a.grid)
    }
    &&& b.dxcc == if a.dxcc is None {
        info.dxcc
    } else {
        a.dxcc
    }
    &&& b.cq_zone == if a.cq_zone is None {
        info.cq_zone
    } else {
        a.cq_zone
    }
    &&& b.itu_zone == if a.itu_zone is None {
        info.itu_zone
    } else {
        a.itu_zone
    }
    &&& b == QsoRecord {
        name: b.name,
        qth: b.qth,
        state: b.state,
        country: b.country,
        grid: b.grid,
        dxcc: b.dxcc,
        cq_zone: b.cq_zone,
        itu_zone: b.itu_zone,
        ..a
    }
}

/// Whether a record has no grid.
pub open spec fn grid_blank(a: QsoRecord) -> bool {
    match a.grid {
        Some(g) => g@.len() == 0,
        None => true,
    }
}

/// Whether a lookup has anything for a record.
pub open spec fn enriches(a: QsoRecord, info: CallsignInfo) -> bool {
    ||| can_fill(a.name@, opt_view(info.name))
    ||| can_fill(a.qth@, opt_view(info.qth))
    ||| can_fill(a.state@, opt_view(info.state))
    ||| can_fill(a.country@, opt_view(info.country))
    ||| grid_blank(a) && info.grid is Some
    ||| a.dxcc is None && info.dxcc is Some
    ||| a.cq_zone is None && info.cq_zone is Some
    ||| a.itu_zone is None && info.itu_zone is Some
}

/// Fill a record's blank text fields with what a lookup found.
fn enrich_texts(rec: &mut QsoRecord, info: &CallsignInfo) -> (changed: bool)
    ensures
        ({
            let (a, b) = (*old(rec), *final(rec));
            &&& b.name@ == filled(a.name@, opt_view(info.name))
            &&& b.qth@ == filled(a.qth@, opt_view(info.qth))
            &&& b.state@ == filled(a.state@, opt_view(info.state))
            &&& b.country@ == filled(a.country@, opt_view(info.country))
            &&& b == QsoRecord {
                name: b.name,
                qth: b.qth,
                state: b.state,
                country: b.country,
                ..a
            }
            &&& changed == {
                ||| can_fill(a.name@, opt_view(info.name))
                ||| can_fill(a.qth@, opt_view(info.qth))
                ||| can_fill(a.state@, opt_view(info.state))
                ||| can_fill(a.country@, opt_view(info.country))
            }
            &&& !changed ==> b == a
        }),
{
    let name = fill_from(&mut rec.name, &info.name);
    let qth = fill_from(&mut rec.qth, &info.qth);
    let state = fill_from(&mut rec.state, &info.state);
    let country = fill_from(&mut rec.country, &info.country);
    name || qth || state || country
}

/// Fill a record's blank entity and zones with what a lookup found.
fn enrich_zones(rec: &mut QsoRecord, info: &CallsignInfo) -> (changed: bool)
    ensures
        ({
            let (a, b) = (*old(rec), *final(rec));
            &&& b == QsoRecord {
                dxcc: if a.dxcc is None {
                    info.dxcc
                } else {
                    a.dxcc
                },
                cq_zone: if a.cq_zone is None {
                    info.cq_zone
                } else {
                    a.cq_zone
                },
                itu_zone: if a.itu_zone is None {
                    info.itu_zone
                } else {
                    a.itu_zone
                },
                ..a
            }
            &&& changed == {
                ||| a.dxcc is None && info.dxcc is Some
                ||| a.cq_zone is None && info.cq_zone is Some
                ||| a.itu_zone is None && info.itu_zone is Some
            }
            &&& !changed ==> b == a
        }),
{
    let mut changed = false;
    if rec.dxcc.is_none() && info.dxcc.is_some() {
        rec.dxcc = info.dxcc;
        changed = true;
    }
    if rec.cq_zone.is_none() && info.cq_zone.is_some() {
        rec.cq_zone = info.cq_zone;
        changed = true;
    }
    if rec.itu_zone.is_none() && info.itu_zone.is_some() {
        rec.itu_zone = info.itu_zone;
        changed = true;
    }
    changed
}

/// Fill a record's blanks with what a lookup found.
fn enrich(rec: &mut QsoRecord, info: &CallsignInfo) -> (changed: bool)
    ensures
        enriched(*old(rec), *final(rec), *info),
        changed == enriches(*old(rec), *info),
        !changed ==> *final(rec) == *old(rec),
{
    let texts = enrich_texts(rec, info);
    let blank = match &rec.grid {
        Some(g) => g.as_str().is_empty(),
        None => true,
    };
    let mut grid = false;
    if blank {
        if let Some(g) = &info.grid {
            rec.grid = Some(g.clone());
            grid = true;
        }
    }
    let zones = enrich_zones(rec, info);
    texts || grid || zones
}

/// Whether a form was filled with what a lookup found: blank fields only.
pub open spec fn form_enriched(a: LogEditForm, b: LogEditForm, info: CallsignInfo) -> bool {
    &&& b.name@ == filled(a.name@, opt_view(info.name))
    &&& b.qth@ == filled(a.qth@, opt_view(info.qth))
    &&& b.grid@ == filled(a.grid@, opt_view(info.grid))
    &&& b.state@ == filled(a.state@, opt_view(info.state))
    &&& b.country@ == filled(a.country@, opt_view(info.country))
    &&& b == LogEditForm {
        name: b.name,
        qth: b.qth,
        grid: b.grid,
        state: b.state,
        country: b.country,
        ..a
    }
}

fn enrich_form(f: &mut LogEditForm, info: &CallsignInfo)
    ensures
        form_enriched(*old(f), *final(f), *info),
{
    fill_from(&mut f.name, &info.name);
    fill_from(&mut f.qth, &info.qth);
    fill_from(&mut f.grid, &info.grid);
    fill_from(&mut f.state, &info.state);
    fill_from(&mut f.country, &info.country);
}

/// The report of a lookup: the call, and what is known of the station.
pub open spec fn lookup_text(info: CallsignInfo) -> Seq<char> {
    info.call@ + (match info.name {
        Some(n) => " — "@ + n@,
        None => Seq::empty(),
    }) + (match info.qth {
        Some(q) => ", "@ + q@,
        None => Seq::empty(),
    }) + (match info.country {
        Some(c) => " ("@ + c@ + ")"@,
        None => Seq::empty(),
    })
}

fn lookup_report(info: &CallsignInfo) -> (r: String)
    ensures
        r@ == lookup_text(*info),
{
    let mut s = info.call.clone();
    if let Some(n) = &info.name {
        s.append(" — ");
        s.append(n.as_str());
    }
    if let Some(q) = &info.qth {
        s.append(", ");
        s.append(q.as_str());
    }
    if let Some(c) = &info.country {
        s.append(" (");
        s.append(c.as_str());
        s.append(")");
    }
    assert(s@ =~= lookup_text(*info));
    s
}

/// The report of an upload.
pub open spec fn upload_text(r: UploadResult) -> Seq<char> {
    r.label@ + " → "@ + (if r.ok {
        "OK"@
    } else {
        "FAIL"@
    }) + ": "@ + r.message@
}

/// The report of an import.
pub open spec fn import_text(added: nat, skipped: nat) -> Seq<char> {
    "ADIF import: "@ + decimal(added) + " added, "@ + decimal(skipped) + " duplicates skipped"@
}

/// The report of a download of confirmations.
pub open spec fn confirm_text(downloaded: nat, matched: nat) -> Seq<char> {
    "Confirmations: "@ + decimal(downloaded) + " downloaded, "@ + decimal(matched)
        + " newly confirmed"@
}

/// The report lines with one more in front, the oldest past the limit dropped.
pub open spec fn logged(after: Seq<String>, before: Seq<String>, line: Seq<char>) -> bool {
    let n = if before.len() < NET_LOG_MAX {
        before.len() + 1
    } else {
        NET_LOG_MAX as nat
    };
    &&& after.len() == n
    &&& after[0]@ == line
    &&& after.skip(1) == before.take(n - 1)
}

/// A record with the mark that it was sent to a service.
pub open spec fn sent_to(q: QsoRecord, t: UploadTarget) -> QsoRecord {
    match t {
        UploadTarget::Eqsl => QsoRecord { eqsl_sent: true, ..q },
        UploadTarget::QrzLogbook => QsoRecord { qrz_sent: true, ..q },
        UploadTarget::ClubLog => QsoRecord { clublog_sent: true, ..q },
    }
}

/// The first record with an id, or the length of the log.
pub open spec fn index_of_id(log: Seq<QsoRecord>, id: u64) -> int
    decreases log.len(),
{
    if log.len() == 0 {
        0
    } else {
        let k = index_of_id(log.drop_last(), id);
        if k < log.len() - 1 {
            k
        } else if log.last().id == id {
            log.len() - 1
        } else {
            log.len() as int
        }
    }
}

proof fn lemma_index_of_id(log: Seq<QsoRecord>, id: u64, k: int)
    requires
        0 <= k <= log.len(),
        forall|j: int| 0 <= j < k ==> (#[trigger] log[j]).id != id,
        k < log.len() ==> log[k].id == id,
    ensures
        index_of_id(log, id) == k,
    decreases log.len(),
{
    if log.len() > 0 {
        let t = log.drop_last();
        let n = if k < t.len() {
            k
        } else {
            t.len() as int
        };
        assert forall|j: int| 0 <= j < n implies (#[trigger] t[j]).id != id by {
            assert(t[j] == log[j]);
        }
        if n < t.len() {
            assert(t[n] == log[n]);
        }
        lemma_index_of_id(t, id, n);
        if k == log.len() {
            assert(log[log.len() - 1].id != id);
        }
    }
}

/// The record found by an id has it.
pub proof fn lemma_index_has_id(log: Seq<QsoRecord>, id: u64)
    ensures
        0 <= index_of_id(log, id) <= log.len(),
        index_of_id(log, id) < log.len() ==> log[index_of_id(log, id)].id == id,
    decreases log.len(),
{
    if log.len() > 0 {
        lemma_index_has_id(log.drop_last(), id);
    }
}

/// The first record with an id, or the length of the log.
pub fn find_id(log: &Vec<QsoRecord>, id: u64) -> (k: usize)
    ensures
        k == index_of_id(log@, id),
        k <= log@.len(),
        k < log@.len() ==> log@[k as int].id == id,
{
    let mut i: usize = 0;
    while i < log.len()
        invariant
            i <= log@.len(),
            forall|j: int| 0 <= j < i ==> (#[trigger] log@[j]).id != id,
        decreases log@.len() - i,
    {
        if log[i].id == id {
            proof {
                lemma_index_of_id(log@, id, i as int);
            }
            return i;
        }
        i = i + 1;
    }
    proof {
        lemma_index_of_id(log@, id, i as int);
    }
    i
}

/// Whether a station was worked before on a band, in another record than the
/// one being edited.
pub open spec fn was_worked(
    log: Seq<QsoRecord>,
    call: Seq<char>,
    band: Seq<char>,
    except: u64,
) -> bool {
    exists|i: int|
        0 <= i < log.len() && (#[trigger] log[i]).id != except && same_ignoring_case(
            log[i].call@,
            call,
        ) && same_ignoring_case(log[i].band@, band)
}

/// Whether a station was worked before on a band, in another record than the
/// one being edited.
pub fn worked_before(log: &Vec<QsoRecord>, call: &str, band: &str, except: u64) -> (r: bool)
    ensures
        r == was_worked(log@, call@, band@, except),
{
    let mut i: usize = 0;
    while i < log.len()
        invariant
            i <= log@.len(),
            forall|j: int|
                0 <= j < i ==> !((#[trigger] log@[j]).id != except && same_ignoring_case(
                    log@[j].call@,
                    call@,
                ) && same_ignoring_case(log@[j].band@, band@)),
        decreases log@.len() - i,
    {
        if log[i].id != except && eq_ignore_ascii_case(log[i].call.as_str(), call)
            && eq_ignore_ascii_case(log[i].band.as_str(), band) {
            assert(log@[i as int].id != except);
            return true;
        }
        i = i + 1;
    }
    false
}

/// The badge of the entry form: whether the station that it names was worked
/// before on the band that it names.
pub fn worked_before_badge(log: &Vec<QsoRecord>, form: &LogEditForm, band: &str) -> (r: bool)
    ensures
        r == (band@.len() > 0 && trimmed(form.call@).len() > 0 && was_worked(
            log@,
            trimmed(form.call@),
            band@,
            form.id,
        )),
{
    let call = trim(form.call.as_str());
    !band.is_empty() && !call.as_str().is_empty() && worked_before(
        log,
        call.as_str(),
        band,
        form.id,
    )
}

impl Logbook {
    /// Everything but the log and the report lines.
    pub open spec fn same_rest(&self, o: &Logbook) -> bool {
        &&& self.show == o.show
        &&& self.edit == o.edit
        &&& self.pending_lookups == o.pending_lookups
        &&& self.pending_uploads == o.pending_uploads
    }

    /// Next free logbook id.
    pub fn next_log_id(&self) -> (id: u64)
        requires
            max_id(self.log@) < u64::MAX,
        ensures
            id == max_id(self.log@) + 1,
    {
        let mut max: u64 = 0;
        let mut i: usize = 0;
        assert(self.log@.take(0) =~= Seq::<QsoRecord>::empty());
        while i < self.log.len()
            invariant
                i <= self.log@.len(),
                max == max_id(self.log@.take(i as int)),
            decreases self.log@.len() - i,
        {
            assert(self.log@.take(i + 1).drop_last() =~= self.log@.take(i as int));
            if self.log[i].id > max {
                max = self.log[i].id;
            }
            i = i + 1;
        }
        assert(self.log@.take(i as int) =~= self.log@);
        max + 1
    }

    /// Put a line in front of the report lines.
    pub fn push_net_log(&mut self, line: String)
        ensures
            logged(final(self).net_log@, old(self).net_log@, line@),
            final(self).log == old(self).log,
            final(self).same_rest(old(self)),
    {
        self.net_log.insert(0, line);
        assert(self.net_log@.skip(1) =~= old(self).net_log@);
        self.net_log.truncate(NET_LOG_MAX);
        assert(self.net_log@.skip(1) =~= old(self).net_log@.take(self.net_log@.len() - 1));
    }

    /// Whether a call was queued for a lookup where that is wanted, and nothing
    /// else happened.
    pub open spec fn looks_up(
        &self,
        next: &Logbook,
        cfg: NetworkConfig,
        call: Seq<char>,
    ) -> bool {
        &&& next.log == self.log
        &&& next.show == self.show
        &&& next.edit == self.edit
        &&& next.net_log == self.net_log
        &&& next.pending_uploads == self.pending_uploads
        &&& if wants_lookup(cfg, call) {
            &&& next.pending_lookups@.len() == self.pending_lookups@.len() + 1
            &&& next.pending_lookups@.drop_last() == self.pending_lookups@
            &&& next.pending_lookups@.last()@ == trimmed(call)
        } else {
            next.pending_lookups == self.pending_lookups
        }
    }

    /// Queue a lookup if a provider and auto-lookup are configured.
    pub fn queue_lookup(&mut self, cfg: &NetworkConfig, call: &str)
        ensures
            old(self).looks_up(final(self), *cfg, call@),
    {
        let call = trim(call);
        if call.as_str().is_empty() || !cfg.auto_lookup || cfg.lookup_provider
            == LookupProvider::Off {
            return ;
        }
        self.pending_lookups.push(call);
        assert(self.pending_lookups@.drop_last() =~= old(self).pending_lookups@);
    }

    /// What a lookup's result does: the open entry takes it if it is for that
    /// call, else the most recent record of the call does.
    pub open spec fn looked_up(&self, next: &Logbook, info: CallsignInfo, persist: bool) -> bool {
        &&& logged(next.net_log@, self.net_log@, lookup_text(info))
        &&& next.show == self.show
        &&& next.pending_lookups == self.pending_lookups
        &&& next.pending_uploads == self.pending_uploads
        &&& if self.edit is Some && same_ignoring_case(
            trimmed(self.edit->0.call@),
            info.call@,
        ) {
            &&& next.log == self.log
            &&& next.edit is Some
            &&& form_enriched(self.edit->0, next.edit->0, info)
            &&& !persist
        } else {
            let k = latest(self.log@, info.call@);
            &&& next.edit == self.edit
            &&& k < 0 ==> next.log == self.log && !persist
            &&& k >= 0 ==> {
                &&& next.log@ == self.log@.update(k, next.log@[k])
                &&& enriched(self.log@[k], next.log@[k], info)
                &&& persist == enriches(self.log@[k], info)
            }
        }
    }

    /// Merge a callsign-lookup result into the open log entry and, if that is
    /// not for this call, into the most recent logged contact with it, filling
    /// only blank fields. Returns whether the log is to be saved.
    pub fn apply_callsign(&mut self, info: CallsignInfo) -> (persist: bool)
        ensures
            old(self).looked_up(final(self), info, persist),
    {
        let report = lookup_report(&info);
        self.push_net_log(report);
        if let Some(f) = &self.edit {
            let call = trim(f.call.as_str());
            if eq_ignore_ascii_case(call.as_str(), info.call.as_str()) {
                if let Some(f) = &mut self.edit {
                    enrich_form(f, &info);
                }
                return false;
            }
        }
        match find_latest(&self.log, info.call.as_str()) {
            Some(k) => {
                let ghost before = self.log@;
                let mut rec = self.log[k].copy();
                let changed = enrich(&mut rec, &info);
                self.log.set(k, rec);
                assert(self.log@ =~= before.update(k as int, rec));
                changed
            },
            None => false,
        }
    }

    /// What an upload's result does: it is reported, and a success marks the
    /// contact.
    pub open spec fn uploaded(&self, next: &Logbook, r: UploadResult, persist: bool) -> bool {
        let k = index_of_id(self.log@, r.qso_id);
        &&& logged(next.net_log@, self.net_log@, upload_text(r))
        &&& next.same_rest(self)
        &&& persist == (r.ok && k < self.log@.len())
        &&& persist ==> next.log@ == self.log@.update(k, sent_to(self.log@[k], r.target))
        &&& !persist ==> next.log == self.log
    }

    /// Record an upload result and mark the contact as sent on success. Returns
    /// whether the log is to be saved.
    pub fn on_upload_result(&mut self, r: UploadResult) -> (persist: bool)
        ensures
            old(self).uploaded(final(self), r, persist),
    {
        let mut line = r.label.clone();
        line.append(" → ");
        if r.ok {
            line.append("OK");
        } else {
            line.append("FAIL");
        }
        line.append(": ");
        line.append(r.message.as_str());
        self.push_net_log(line);
        if !r.ok {
            return false;
        }
        let k: usize = find_id(&self.log, r.qso_id);
        if k >= self.log.len() {
            return false;
        }
        let mut rec = self.log[k].copy();
        match r.target {
            UploadTarget::Eqsl => {
                rec.eqsl_sent = true;
            },
            UploadTarget::QrzLogbook => {
                rec.qrz_sent = true;
            },
            UploadTarget::ClubLog => {
                rec.clublog_sent = true;
            },
        }
        self.log.set(k, rec);
        true
    }

    /// What downloaded confirmations do: their marks are added, and it is
    /// reported how many said anything new.
    pub open spec fn confirmed_from(
        &self,
        next: &Logbook,
        recs: Seq<QsoRecord>,
        persist: bool,
    ) -> bool {
        &&& next.log@ == confirm_all(self.log@, recs)
        &&& logged(
            next.net_log@,
            self.net_log@,
            confirm_text(recs.len(), newly_confirmed(self.log@, recs)),
        )
        &&& next.same_rest(self)
        &&& persist == (newly_confirmed(self.log@, recs) > 0)
    }

    /// Match downloaded confirmations against the log and add their marks to
    /// the records that they are for. Returns whether the log is to be saved.
    pub fn apply_confirmations(&mut self, recs: &Vec<QsoRecord>) -> (persist: bool)
        ensures
            old(self).confirmed_from(final(self), recs@, persist),
    {
        let mut matched: usize = 0;
        let mut i: usize = 0;
        assert(recs@.take(0) =~= Seq::<QsoRecord>::empty());
        while i < recs.len()
            invariant
                i <= recs@.len(),
                self.log@ == confirm_all(old(self).log@, recs@.take(i as int)),
                matched == newly_confirmed(old(self).log@, recs@.take(i as int)),
                matched <= i,
                self.net_log == old(self).net_log,
                self.same_rest(old(self)),
            decreases recs@.len() - i,
        {
            assert(recs@.take(i + 1).drop_last() =~= recs@.take(i as int));
            if self.confirm(&recs[i]) {
                matched = matched + 1;
            }
            i = i + 1;
        }
        assert(recs@.take(i as int) =~= recs@);
        let mut line = "Confirmations: ".to_owned();
        line.append(fmt_u64(recs.len() as u64).as_str());
        line.append(" downloaded, ");
        line.append(fmt_u64(matched as u64).as_str());
        line.append(" newly confirmed");
        self.push_net_log(line);
        matched > 0
    }

    /// Take in one confirmation; returns whether it said anything new.
    fn confirm(&mut self, c: &QsoRecord) -> (new: bool)
        ensures
            final(self).log@ == confirm_one(old(self).log@, *c),
            new == newly_confirms(old(self).log@, *c),
            final(self).net_log == old(self).net_log,
            final(self).same_rest(old(self)),
    {
        if is_blank(c.call.as_str()) {
            return false;
        }
        let mut k: usize = 0;
        while k < self.log.len() && !is_confirmed_by(&self.log[k], c)
            invariant
                k <= self.log@.len(),
                *self == *old(self),
                forall|j: int| 0 <= j < k ==> !confirms(*c, #[trigger] self.log@[j]),
            decreases self.log@.len() - k,
        {
            k = k + 1;
        }
        proof {
            lemma_confirmed_index(self.log@, *c, k as int);
        }
        if k >= self.log.len() {
            return false;
        }
        let q = &self.log[k];
        let new = (c.lotw_rcvd && !q.lotw_rcvd) || (c.eqsl_rcvd && !q.eqsl_rcvd) || (c.qsl_rcvd
            && !q.qsl_rcvd);
        let mut rec = q.copy();
        rec.lotw_rcvd = rec.lotw_rcvd || c.lotw_rcvd;
        rec.eqsl_rcvd = rec.eqsl_rcvd || c.eqsl_rcvd;
        rec.qsl_rcvd = rec.qsl_rcvd || c.qsl_rcvd;
        self.log.set(k, rec);
        new
    }

    /// Add the records of an ADIF file that are not in the log yet, with fresh
    /// ids. Returns whether the log is to be saved.
    pub fn import_records(&mut self, records: &Vec<QsoRecord>) -> (persist: bool)
        requires
            max_id(old(self).log@) + added_by(old(self).log@, records@) <= u64::MAX,
        ensures
            final(self).log@ == import_all(old(self).log@, records@),
            logged(
                final(self).net_log@,
                old(self).net_log@,
                import_text(
                    (final(self).log@.len() - old(self).log@.len()) as nat,
                    skipped_in(old(self).log@, records@),
                ),
            ),
            final(self).same_rest(old(self)),
            persist == (final(self).log@.len() > old(self).log@.len()),
    {
        let mut added: usize = 0;
        let mut skipped: usize = 0;
        let mut i: usize = 0;
        assert(records@.take(0) =~= Seq::<QsoRecord>::empty());
        while i < records.len()
            invariant
                i <= records@.len(),
                max_id(old(self).log@) + added_by(old(self).log@, records@) <= u64::MAX,
                self.log@ == import_all(old(self).log@, records@.take(i as int)),
                self.log@.len() == old(self).log@.len() + added,
                skipped == skipped_in(old(self).log@, records@.take(i as int)),
                added + skipped <= i,
                self.net_log == old(self).net_log,
                self.same_rest(old(self)),
            decreases records@.len() - i,
        {
            proof {
                assert(records@.take(i + 1).drop_last() =~= records@.take(i as int));
                lemma_import_length(old(self).log@, records@.take(i as int), records@);
                lemma_import_length(old(self).log@, records@.take(i + 1), records@);
                lemma_import_grows(old(self).log@, records@.take(i as int));
            }
            let r = &records[i];
            if !is_blank(r.call.as_str()) {
                if has_contact(&self.log, r) {
                    skipped = skipped + 1;
                } else {
                    let mut rec = r.copy();
                    rec.id = self.next_log_id();
                    self.log.push(rec);
                    added = added + 1;
                }
            }
            i = i + 1;
        }
        assert(records@.take(i as int) =~= records@);
        let mut line = "ADIF import: ".to_owned();
        line.append(fmt_u64(added as u64).as_str());
        line.append(" added, ");
        line.append(fmt_u64(skipped as u64).as_str());
        line.append(" duplicates skipped");
        self.push_net_log(line);
        added > 0
    }

    /// What saving the open entry does.
    pub open spec fn saved(
        &self,
        next: &Logbook,
        my_call: Seq<char>,
        my_grid: Seq<char>,
        typed: Typed,
        persist: bool,
    ) -> bool {
        &&& next.show == self.show
        &&& next.net_log == self.net_log
        &&& next.pending_lookups == self.pending_lookups
        &&& next.pending_uploads == self.pending_uploads
        &&& match self.edit {
            Some(f) => if trimmed(f.call@).len() == 0 {
                &&& next.edit == self.edit
                &&& next.log == self.log
                &&& !persist
            } else if f.id == 0 {
                &&& next.edit is None
                &&& next.log@.len() == self.log@.len() + 1
                &&& next.log@.drop_last() == self.log@
                &&& next.log@.last().id == max_id(self.log@) + 1
                &&& f.makes(QsoRecord { id: 0, ..next.log@.last() }, my_call, my_grid, typed)
                &&& persist
            } else {
                let k = index_of_id(self.log@, f.id);
                &&& next.edit is None
                &&& persist
                &&& k < self.log@.len() ==> {
                    &&& next.log@ == self.log@.update(k, next.log@[k])
                    &&& f.makes(next.log@[k], my_call, my_grid, typed)
                }
                &&& k >= self.log@.len() ==> next.log == self.log
            },
            None => next.edit is None && next.log == self.log && !persist,
        }
    }

    /// Save the open entry: a new one under a fresh id, an edited one in its
    /// place. Without a callsign the form stays open for correction. Returns
    /// whether the log is to be saved.
    pub fn save_entry(&mut self, my_call: &str, my_grid: &str, typed: Typed) -> (persist: bool)
        requires
            old(self).edit matches Some(f) ==> f.id == 0 && trimmed(f.call@).len() > 0 ==> max_id(
                old(self).log@,
            ) < u64::MAX,
        ensures
            old(self).saved(final(self), my_call@, my_grid@, typed, persist),
    {
        let f = match self.edit.take() {
            Some(f) => f,
            None => {
                return false;
            },
        };
        match f.to_record(my_call, my_grid, typed) {
            Some(rec) => {
                let mut rec = rec;
                if rec.id == 0 {
                    let ghost made = rec;
                    rec.id = self.next_log_id();
                    self.log.push(rec);
                    assert(self.log@.drop_last() =~= old(self).log@);
                    assert(QsoRecord { id: 0, ..self.log@.last() } == made);
                } else {
                    let k: usize = find_id(&self.log, rec.id);
                    if k < self.log.len() {
                        self.log.set(k, rec);
                        assert(self.log@ =~= old(self).log@.update(k as int, rec));
                    }
                }
                true
            },
            None => {
                self.edit = Some(f);
                false
            },
        }
    }
}

/// Whether a callsign is to be looked up without being asked.
pub open spec fn wants_lookup(cfg: NetworkConfig, call: Seq<char>) -> bool {
    &&& trimmed(call).len() > 0
    &&& cfg.auto_lookup
    &&& cfg.lookup_provider != LookupProvider::Off
}

fn is_confirmed_by(q: &QsoRecord, c: &QsoRecord) -> (r: bool)
    ensures
        r == confirms(*c, *q),
{
    eq_ignore_ascii_case(q.call.as_str(), c.call.as_str()) && eq_ignore_ascii_case(
        q.band.as_str(),
        c.band.as_str(),
    ) && (c.mode.as_str().is_empty() || q.mode.as_str().is_empty() || eq_ignore_ascii_case(
        q.mode.as_str(),
        c.mode.as_str(),
    )) && is_within(q.start_utc, c.start_utc, CONFIRM_S)
}

/// A lookup fills blanks and nothing else: a text that was there stays, one that was
/// blank takes what was found without the blanks around it, and entity, zones and
/// grid are taken where there were none. Call, times, reports, band, mode and marks
/// stay as they are.
pub proof fn law_lookup_fills_blanks_only(a: QsoRecord, b: QsoRecord, info: CallsignInfo)
    requires
        enriched(a, b, info),
    ensures
        trimmed(a.name@).len() > 0 || info.name is None ==> b.name@ == a.name@,
        trimmed(a.qth@).len() > 0 || info.qth is None ==> b.qth@ == a.qth@,
        trimmed(a.state@).len() > 0 || info.state is None ==> b.state@ == a.state@,
        trimmed(a.country@).len() > 0 || info.country is None ==> b.country@ == a.country@,
        trimmed(a.name@).len() == 0 && (info.name matches Some(t) && trimmed(t@).len() > 0)
            ==> b.name@ == trimmed(info.name->0@),
        trimmed(a.qth@).len() == 0 && (info.qth matches Some(t) && trimmed(t@).len() > 0) ==> b.qth@
            == trimmed(info.qth->0@),
        trimmed(a.state@).len() == 0 && (info.state matches Some(t) && trimmed(t@).len() > 0)
            ==> b.state@ == trimmed(info.state->0@),
        trimmed(a.country@).len() == 0 && (info.country matches Some(t) && trimmed(t@).len() > 0)
            ==> b.country@ == trimmed(info.country->0@),
        (a.grid matches Some(g) && g@.len() > 0) || info.grid is None ==> opt_view(b.grid)
            == opt_view(a.grid),
        (a.grid is None || a.grid->0@.len() == 0) && info.grid is Some ==> b.grid is Some
            && b.grid->0@ == info.grid->0@,
        a.dxcc is Some ==> b.dxcc == a.dxcc,
        a.dxcc is None ==> b.dxcc == info.dxcc,
        a.cq_zone is Some ==> b.cq_zone == a.cq_zone,
        a.cq_zone is None ==> b.cq_zone == info.cq_zone,
        a.itu_zone is Some ==> b.itu_zone == a.itu_zone,
        a.itu_zone is None ==> b.itu_zone == info.itu_zone,
        b.id == a.id && b.call == a.call && b.mode == a.mode && b.band == a.band,
        b.start_utc == a.start_utc && b.end_utc == a.end_utc && b.freq_hz == a.freq_hz,
        b.rst_sent == a.rst_sent && b.rst_rcvd == a.rst_rcvd && b.comment == a.comment,
        b.my_call == a.my_call && b.my_grid == a.my_grid,
        b.lotw_rcvd == a.lotw_rcvd && b.eqsl_rcvd == a.eqsl_rcvd && b.qsl_rcvd == a.qsl_rcvd,
        b.lotw_sent == a.lotw_sent && b.eqsl_sent == a.eqsl_sent && b.qrz_sent == a.qrz_sent
            && b.clublog_sent == a.clublog_sent,
{
}

/// A lookup touches no more than one contact, which is one of the call that was
/// looked up and of those the latest; and none while an entry for that call is open,
/// which takes the result instead.
pub proof fn law_lookup_touches_the_latest_contact(
    before: Logbook,
    after: Logbook,
    info: CallsignInfo,
    persist: bool,
    i: int,
)
    requires
        before.looked_up(&after, info, persist),
        0 <= i < before.log@.len(),
    ensures
        after.log@.len() == before.log@.len(),
        after.log@[i] != before.log@[i] ==> same_ignoring_case(before.log@[i].call@, info.call@),
        after.log@[i] != before.log@[i] ==> forall|j: int|
            0 <= j < before.log@.len() && same_ignoring_case(
                (#[trigger] before.log@[j]).call@,
                info.call@,
            ) ==> before.log@[j].start_utc <= before.log@[i].start_utc,
        (before.edit matches Some(f) && same_ignoring_case(trimmed(f.call@), info.call@))
            ==> after.log == before.log && !persist,
        !(before.edit matches Some(f) && same_ignoring_case(trimmed(f.call@), info.call@))
            ==> after.edit == before.edit,
{
    lemma_latest_bound(before.log@, info.call@);
    let k = latest(before.log@, info.call@);
    if after.log@[i] != before.log@[i] {
        assert(k == i);
        lemma_latest_is_of_call(before.log@, info.call@);
        assert forall|j: int|
            0 <= j < before.log@.len() && same_ignoring_case(
                (#[trigger] before.log@[j]).call@,
                info.call@,
            ) implies before.log@[j].start_utc <= before.log@[i].start_utc by {
            law_latest_is_most_recent(before.log@, info.call@, j);
        }
    }
}

/// The latest contact of a call is one of that call.
proof fn lemma_latest_is_of_call(log: Seq<QsoRecord>, call: Seq<char>)
    requires
        latest(log, call) >= 0,
    ensures
        latest(log, call) < log.len(),
        same_ignoring_case(log[latest(log, call)].call@, call),
    decreases log.len(),
{
    if log.len() > 0 {
        lemma_latest_bound(log.drop_last(), call);
        if latest(log, call) != log.len() - 1 {
            lemma_latest_is_of_call(log.drop_last(), call);
        }
    }
}

/// A successful upload marks the contact as sent to that service, and changes no
/// other mark and no other contact; one that failed changes none.
pub proof fn law_upload_marks_its_contact(
    before: Logbook,
    after: Logbook,
    r: UploadResult,
    persist: bool,
    i: int,
)
    requires
        before.uploaded(&after, r, persist),
        0 <= i < before.log@.len(),
        ids_distinct(before.log@),
    ensures
        ({
            let (a, b) = (before.log@[i], after.log@[i]);
            let sent = r.ok && a.id == r.qso_id;
            &&& after.log@.len() == before.log@.len()
            &&& b.eqsl_sent == (a.eqsl_sent || (sent && r.target == UploadTarget::Eqsl))
            &&& b.qrz_sent == (a.qrz_sent || (sent && r.target == UploadTarget::QrzLogbook))
            &&& b.clublog_sent == (a.clublog_sent || (sent && r.target == UploadTarget::ClubLog))
            &&& b == QsoRecord {
                eqsl_sent: b.eqsl_sent,
                qrz_sent: b.qrz_sent,
                clublog_sent: b.clublog_sent,
                ..a
            }
            &&& sent ==> persist
            &&& !r.ok ==> !persist && after.log == before.log
        }),
{
    law_first_record_with_an_id_is_found(before.log@, r.qso_id, i);
}

/// A record is found by its id: the first that has it, wherever it stands.
pub proof fn law_first_record_with_an_id_is_found(log: Seq<QsoRecord>, id: u64, i: int)
    requires
        0 <= i < log.len(),
    ensures
        0 <= index_of_id(log, id) <= log.len(),
        log[i].id == id ==> index_of_id(log, id) <= i,
        index_of_id(log, id) < log.len() ==> log[index_of_id(log, id)].id == id,
    decreases log.len(),
{
    let t = log.drop_last();
    assert(log[log.len() - 1] == log.last());
    if t.len() > 0 {
        law_first_record_with_an_id_is_found(t, id, if i < t.len() { i } else { 0 });
        assert(forall|k: int| 0 <= k < t.len() ==> t[k] == log[k]);
    } else {
        assert(index_of_id(t, id) == 0);
    }
}

/// A contact goes to the services that are switched on, each once; the manual button
/// offers those whose credentials are there, which for Club Log are two.
pub proof fn law_uploads_go_where_they_are_configured(cfg: NetworkConfig)
    ensures
        cfg.auto_targets().contains(UploadTarget::Eqsl) <==> cfg.auto_upload_eqsl,
        cfg.auto_targets().contains(UploadTarget::QrzLogbook) <==> cfg.auto_upload_qrz,
        cfg.auto_targets().contains(UploadTarget::ClubLog) <==> cfg.auto_upload_clublog,
        cfg.auto_targets().no_duplicates(),
        cfg.configured_targets().contains(UploadTarget::Eqsl) <==> trimmed(cfg.eqsl_user@).len()
            > 0,
        cfg.configured_targets().contains(UploadTarget::QrzLogbook) <==> trimmed(
            cfg.qrz_logbook_key@,
        ).len() > 0,
        cfg.configured_targets().contains(UploadTarget::ClubLog) <==> trimmed(
            cfg.clublog_user@,
        ).len() > 0 && trimmed(cfg.clublog_api_key@).len() > 0,
        cfg.configured_targets().no_duplicates(),
{
    lemma_targets(cfg.auto_upload_eqsl, cfg.auto_upload_qrz, cfg.auto_upload_clublog);
    lemma_targets(
        trimmed(cfg.eqsl_user@).len() > 0,
        trimmed(cfg.qrz_logbook_key@).len() > 0,
        trimmed(cfg.clublog_user@).len() > 0 && trimmed(cfg.clublog_api_key@).len() > 0,
    );
}

/// A list of targets holds those for which its condition holds.
proof fn lemma_targets(eqsl: bool, qrz: bool, clublog: bool)
    ensures
        targets_of(eqsl, qrz, clublog).contains(UploadTarget::Eqsl) <==> eqsl,
        targets_of(eqsl, qrz, clublog).contains(UploadTarget::QrzLogbook) <==> qrz,
        targets_of(eqsl, qrz, clublog).contains(UploadTarget::ClubLog) <==> clublog,
        targets_of(eqsl, qrz, clublog).no_duplicates(),
{
    let r = targets_of(eqsl, qrz, clublog);
    if eqsl {
        assert(r[0] == UploadTarget::Eqsl);
    }
    if qrz {
        let k: int = if eqsl { 1 } else { 0 };
        assert(r[k] == UploadTarget::QrzLogbook);
    }
    if clublog {
        assert(r[r.len() - 1] == UploadTarget::ClubLog);
    }
}

/// The newest report stands first and fifty are kept: what is dropped is the oldest.
pub proof fn law_fifty_reports_are_kept(after: Seq<String>, before: Seq<String>, line: Seq<char>)
    requires
        logged(after, before, line),
    ensures
        after[0]@ == line,
        before.len() < 50 ==> after.len() == before.len() + 1,
        before.len() >= 50 ==> after.len() == 50,
        forall|i: int| 0 < i < after.len() ==> #[trigger] after[i] == before[i - 1],
{
    assert forall|i: int| 0 < i < after.len() implies #[trigger] after[i] == before[i - 1] by {
        assert(after.skip(1)[i - 1] == after[i]);
        assert(before.take(after.len() - 1)[i - 1] == before[i - 1]);
    }
}

/// A station counts as worked on a band once another contact with its call and that
/// band is in the log, and not by the contact that is being edited.
pub proof fn law_worked_before_counts_other_contacts(
    log: Seq<QsoRecord>,
    q: QsoRecord,
    call: Seq<char>,
    band: Seq<char>,
    except: u64,
)
    ensures
        !was_worked(Seq::empty(), call, band, except),
        was_worked(log.push(q), call, band, except) <==> was_worked(log, call, band, except) || (
        q.id != except && same_ignoring_case(q.call@, call) && same_ignoring_case(q.band@, band)),
{
    let all = log.push(q);
    if was_worked(log, call, band, except) {
        let i = choose|i: int|
            0 <= i < log.len() && (#[trigger] log[i]).id != except && same_ignoring_case(
                log[i].call@,
                call,
            ) && same_ignoring_case(log[i].band@, band);
        assert(all[i] == log[i]);
    }
    assert(all[log.len() as int] == q);
    if was_worked(all, call, band, except) {
        let i = choose|i: int|
            0 <= i < all.len() && (#[trigger] all[i]).id != except && same_ignoring_case(
                all[i].call@,
                call,
            ) && same_ignoring_case(all[i].band@, band);
        if i < log.len() {
            assert(log[i] == all[i]);
        }
    }
}

/// The log is saved after a download just where that changed a contact.
pub proof fn law_new_marks_are_saved(log: Seq<QsoRecord>, cs: Seq<QsoRecord>)
    ensures
        newly_confirmed(log, cs) == 0 ==> confirm_all(log, cs) == log,
        newly_confirmed(log, cs) > 0 ==> confirm_all(log, cs) != log,
        newly_confirmed(log, cs) <= cs.len(),
    decreases cs.len(),
{
    if cs.len() > 0 {
        let t = cs.drop_last();
        let c = cs.last();
        law_new_marks_are_saved(log, t);
        let mid = confirm_all(log, t);
        let k = confirmed_index(mid, c);
        lemma_confirm_keeps_length(log, t);
        lemma_confirm_keeps_length(log, cs);
        lemma_confirmed_index_bound(mid, c);
        if newly_confirms(mid, c) {
            law_confirmations_only_add_marks(log, t, k);
            assert(confirm_all(log, cs)[k] == marked(mid[k], c));
            assert(confirm_all(log, cs)[k] != log[k]);
        } else if newly_confirmed(log, t) > 0 {
            assert(confirm_all(log, cs) == mid) by {
                if trimmed(c.call@).len() > 0 && k < mid.len() {
                    assert(mid.update(k, mid[k]) == mid);
                }
            }
        } else if trimmed(c.call@).len() > 0 && k < mid.len() {
            assert(mid.update(k, mid[k]) == mid);
        }
    }
}

/// The place that a confirmation goes to is one of the log, or its length.
proof fn lemma_confirmed_index_bound(log: Seq<QsoRecord>, c: QsoRecord)
    ensures
        0 <= confirmed_index(log, c) <= log.len(),
    decreases log.len(),
{
    if log.len() > 0 {
        lemma_confirmed_index_bound(log.drop_last(), c);
    }
}

/// Saving an entry changes no other contact: a new one is added behind the rest, and
/// an edited one takes the place of the one with its id.
pub proof fn law_saving_changes_one_contact(
    before: Logbook,
    after: Logbook,
    my_call: Seq<char>,
    my_grid: Seq<char>,
    typed: Typed,
    persist: bool,
    i: int,
)
    requires
        before.saved(&after, my_call, my_grid, typed, persist),
        0 <= i < before.log@.len(),
    ensures
        before.edit is None ==> after.log == before.log,
        before.edit matches Some(f) ==> before.log@[i].id != f.id ==> after.log@[i]
            == before.log@[i],
        before.edit matches Some(f) ==> f.id == 0 && trimmed(f.call@).len() > 0 ==> after.log@.len()
            == before.log@.len() + 1 && after.log@[i] == before.log@[i] && after.log@[i].id
            != after.log@.last().id,
        before.edit matches Some(f) ==> f.id != 0 ==> after.log@.len() == before.log@.len(),
        before.edit matches Some(f) ==> trimmed(f.call@).len() == 0 ==> after.log == before.log
            && after.edit == before.edit && !persist,
{
    if before.edit is Some {
        let f = before.edit->0;
        law_first_record_with_an_id_is_found(before.log@, f.id, i);
        law_next_id_is_free(before.log@, i);
        if f.id == 0 && trimmed(f.call@).len() > 0 {
            assert(after.log@.drop_last()[i] == before.log@[i]);
        }
    }
}

/// Queueing a lookup changes nothing but the queue: a call is put behind the others,
/// without the blanks around it, where lookups are made unasked.
pub proof fn law_queueing_a_lookup_only_queues(
    before: Logbook,
    after: Logbook,
    cfg: NetworkConfig,
    call: Seq<char>,
)
    requires
        before.looks_up(&after, cfg, call),
    ensures
        ({
            let wanted = cfg.auto_lookup && cfg.lookup_provider != LookupProvider::Off && trimmed(
                call,
            ).len() > 0;
            &&& after.log == before.log && after.edit == before.edit && after.show == before.show
            &&& after.net_log == before.net_log && after.pending_uploads == before.pending_uploads
            &&& wanted ==> after.pending_lookups@.len() == before.pending_lookups@.len() + 1
                && after.pending_lookups@.drop_last() == before.pending_lookups@
                && after.pending_lookups@.last()@ == trimmed(call)
            &&& !wanted ==> after.pending_lookups == before.pending_lookups
        }),
{
}

/// A download of confirmations is reported, and the log is saved just where the
/// download changed it.
pub proof fn law_downloads_are_reported(
    before: Logbook,
    after: Logbook,
    recs: Seq<QsoRecord>,
    persist: bool,
)
    requires
        before.confirmed_from(&after, recs, persist),
    ensures
        persist <==> after.log@ != before.log@,
        after.net_log@[0]@ == "Confirmations: "@ + decimal(recs.len()) + " downloaded, "@ + decimal(
            newly_confirmed(before.log@, recs),
        ) + " newly confirmed"@,
        after.edit == before.edit && after.pending_lookups == before.pending_lookups
            && after.pending_uploads == before.pending_uploads,
{
    law_new_marks_are_saved(before.log@, recs);
}

} // verus!
