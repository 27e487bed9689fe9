//! Logged contacts, and the form in which one is typed in or edited.
use crate::carried::{Double, Single};
use crate::text::{
    decimal_int, is_white, law_parse_undoes_decimal, lemma_decimal_number, lemma_trimmed_same,
    parsed, trimmed, upper_of,
};
use crate::text::{fmt_i64, is_blank, parse_int, trim, upper};
use crate::utc::{date_of, parse_utc, time_of, utc_ymd_hms};
use crate::utc::{date_text, law_utc_unique, rolled, time_text, typed_utc, unix_of, utc_of};
use crate::utc::{law_parse_undoes_text, law_text_keeps_the_minute, lemma_utc_exists};
use vstd::prelude::*;

verus! {

/// A logged contact.
#[derive(Debug)]
pub struct QsoRecord {
    pub id: u64,
    pub call: String,
    pub grid: Option<String>,
    pub rst_sent: Option<i16>,
    pub rst_rcvd: Option<i16>,
    pub freq_hz: Double,
    pub mode: String,
    pub band: String,
    pub start_utc: i64,
    pub end_utc: i64,
    pub my_call: String,
    pub my_grid: String,
    pub name: String,
    pub qth: String,
    pub state: String,
    pub country: String,
    pub tx_pwr: Option<Single>,
    pub contest_id: String,
    pub srx: Option<u32>,
    pub stx: Option<u32>,
    pub comment: String,
    pub dxcc: Option<u16>,
    pub cq_zone: Option<u8>,
    pub itu_zone: Option<u8>,
    /// References of the awards for islands, parks and summits.
    pub iota: String,
    pub pota_ref: String,
    pub sota_ref: String,
    pub lotw_sent: bool,
    pub eqsl_sent: bool,
    pub qrz_sent: bool,
    pub clublog_sent: bool,
    pub lotw_rcvd: bool,
    pub eqsl_rcvd: bool,
    pub qsl_rcvd: bool,
}

/// A copy of an optional string.
pub fn copy_text(s: &Option<String>) -> (r: Option<String>)
    ensures
        r == *s,
{
    match s {
        Some(t) => Some(t.clone()),
        None => None,
    }
}

impl QsoRecord {
    /// A record with nothing in it.
    pub open spec fn is_empty_record(&self) -> bool {
        &&& self.id == 0
        &&& self.call@.len() == 0
        &&& self.grid is None
        &&& self.rst_sent is None
        &&& self.rst_rcvd is None
        &&& self.freq_hz == Double(0)
        &&& self.mode@.len() == 0
        &&& self.band@.len() == 0
        &&& self.start_utc == 0
        &&& self.end_utc == 0
        &&& self.my_call@.len() == 0
        &&& self.my_grid@.len() == 0
        &&& self.name@.len() == 0
        &&& self.qth@.len() == 0
        &&& self.state@.len() == 0
        &&& self.country@.len() == 0
        &&& self.tx_pwr is None
        &&& self.contest_id@.len() == 0
        &&& self.srx is None
        &&& self.stx is None
        &&& self.comment@.len() == 0
        &&& self.dxcc is None
        &&& self.cq_zone is None
        &&& self.itu_zone is None
        &&& self.iota@.len() == 0
        &&& self.pota_ref@.len() == 0
        &&& self.sota_ref@.len() == 0
        &&& !self.lotw_sent && !self.eqsl_sent && !self.qrz_sent && !self.clublog_sent
        &&& !self.lotw_rcvd && !self.eqsl_rcvd && !self.qsl_rcvd
    }

    /// A copy of the record.
    pub fn copy(&self) -> (r: QsoRecord)
        ensures
            r == *self,
    {
        QsoRecord {
            id: self.id,
            call: self.call.clone(),
            grid: copy_text(&self.grid),
            rst_sent: self.rst_sent,
            rst_rcvd: self.rst_rcvd,
            freq_hz: self.freq_hz,
            mode: self.mode.clone(),
            band: self.band.clone(),
            start_utc: self.start_utc,
            end_utc: self.end_utc,
            my_call: self.my_call.clone(),
            my_grid: self.my_grid.clone(),
            name: self.name.clone(),
            qth: self.qth.clone(),
            state: self.state.clone(),
            country: self.country.clone(),
            tx_pwr: self.tx_pwr,
            contest_id: self.contest_id.clone(),
            srx: self.srx,
            stx: self.stx,
            comment: self.comment.clone(),
            dxcc: self.dxcc,
            cq_zone: self.cq_zone,
            itu_zone: self.itu_zone,
            iota: self.iota.clone(),
            pota_ref: self.pota_ref.clone(),
            sota_ref: self.sota_ref.clone(),
            lotw_sent: self.lotw_sent,
            eqsl_sent: self.eqsl_sent,
            qrz_sent: self.qrz_sent,
            clublog_sent: self.clublog_sent,
            lotw_rcvd: self.lotw_rcvd,
            eqsl_rcvd: self.eqsl_rcvd,
            qsl_rcvd: self.qsl_rcvd,
        }
    }

    /// Whether any confirmation has come back.
    pub fn is_confirmed(&self) -> (r: bool)
        ensures
            r == (self.lotw_rcvd || self.eqsl_rcvd || self.qsl_rcvd),
    {
        self.lotw_rcvd || self.eqsl_rcvd || self.qsl_rcvd
    }
}

impl Default for QsoRecord {
    fn default() -> (r: QsoRecord)
        ensures
            r.is_empty_record(),
    {
        QsoRecord {
            id: 0,
            call: String::new(),
            grid: None,
            rst_sent: None,
            rst_rcvd: None,
            freq_hz: Double(0),
            mode: String::new(),
            band: String::new(),
            start_utc: 0,
            end_utc: 0,
            my_call: String::new(),
            my_grid: String::new(),
            name: String::new(),
            qth: String::new(),
            state: String::new(),
            country: String::new(),
            tx_pwr: None,
            contest_id: String::new(),
            srx: None,
            stx: None,
            comment: String::new(),
            dxcc: None,
            cq_zone: None,
            itu_zone: None,
            iota: String::new(),
            pota_ref: String::new(),
            sota_ref: String::new(),
            lotw_sent: false,
            eqsl_sent: false,
            qrz_sent: false,
            clublog_sent: false,
            lotw_rcvd: false,
            eqsl_rcvd: false,
            qsl_rcvd: false,
        }
    }
}

/// Editable text fields for a manual logbook entry. Kept as strings so partial
/// input doesn't fight the operator; parsed on save. `base` holds the record
/// being edited, so that what the form does not show survives a save.
#[derive(Debug)]
pub struct LogEditForm {
    /// 0 = new entry; otherwise the id of the record being edited.
    pub id: u64,
    /// Timestamp fallback if the date/time fields don't parse.
    pub seed_utc: i64,
    /// Original record (edit) or an empty one (new).
    pub base: QsoRecord,
    pub call: String,
    pub grid: String,
    pub freq_mhz: String,
    pub mode: String,
    pub rst_sent: String,
    pub rst_rcvd: String,
    pub date: String,
    pub time: String,
    pub name: String,
    pub qth: String,
    pub state: String,
    pub country: String,
    pub tx_pwr: String,
    pub contest_id: String,
    pub srx: String,
    pub stx: String,
    pub comment: String,
}

/// What the fractional numbers of a form come to.
#[derive(Debug)]
pub struct Typed {
    /// The frequency, zero where the field is no number.
    pub freq_hz: Double,
    /// The band of that frequency, empty without one.
    pub band: String,
    pub tx_pwr: Option<Single>,
}

/// An optional whole number as the form shows it.
pub open spec fn shown(n: Option<int>) -> Seq<char> {
    match n {
        Some(v) => decimal_int(v),
        None => Seq::empty(),
    }
}

/// An optional signed number.
pub open spec fn int_of(n: Option<i16>) -> Option<int> {
    match n {
        Some(v) => Some(v as int),
        None => None,
    }
}

/// An optional unsigned number.
pub open spec fn nat_of(n: Option<u32>) -> Option<int> {
    match n {
        Some(v) => Some(v as int),
        None => None,
    }
}

fn show_i16(n: Option<i16>) -> (r: String)
    ensures
        r@ == shown(int_of(n)),
{
    match n {
        Some(v) => fmt_i64(v as i64),
        None => String::new(),
    }
}

fn show_u32(n: Option<u32>) -> (r: String)
    ensures
        r@ == shown(nat_of(n)),
{
    match n {
        Some(v) => fmt_i64(v as i64),
        None => String::new(),
    }
}

fn read_i16(s: &str) -> (r: Option<i16>)
    ensures
        int_of(r) == parsed(trimmed(s@), i16::MIN as int, i16::MAX as int),
{
    match parse_int(trim(s).as_str(), i16::MIN as i64, i16::MAX as i64) {
        Some(v) => Some(v as i16),
        None => None,
    }
}

fn read_u32(s: &str) -> (r: Option<u32>)
    ensures
        nat_of(r) == parsed(trimmed(s@), 0, u32::MAX as int),
{
    match parse_int(trim(s).as_str(), 0, u32::MAX as i64) {
        Some(v) => Some(v as u32),
        None => None,
    }
}

impl LogEditForm {
    /// Whether the form is a blank new entry, seeded with a time, a frequency and
    /// a mode.
    pub open spec fn is_new_entry(&self, now: i64, freq_mhz: Seq<char>, mode: Seq<char>) -> bool {
        &&& self.is_seeded(now, freq_mhz, mode)
        &&& self.call@.len() == 0
        &&& self.grid@.len() == 0
        &&& self.comment@.len() == 0
    }

    /// Whether the form is a new entry, seeded with a time, a frequency and a
    /// mode, with nothing else in it but perhaps a call, a grid and a comment.
    pub open spec fn is_seeded(&self, now: i64, freq_mhz: Seq<char>, mode: Seq<char>) -> bool {
        &&& self.id == 0
        &&& self.seed_utc == now
        &&& self.base.is_empty_record()
        &&& self.freq_mhz@ == freq_mhz
        &&& self.mode@ == mode
        &&& self.date@ == date_text(utc_of(now as int))
        &&& self.time@ == time_text(utc_of(now as int))
        &&& self.rst_sent@.len() == 0
        &&& self.rst_rcvd@.len() == 0
        &&& self.name@.len() == 0
        &&& self.qth@.len() == 0
        &&& self.state@.len() == 0
        &&& self.country@.len() == 0
        &&& self.tx_pwr@.len() == 0
        &&& self.contest_id@.len() == 0
        &&& self.srx@.len() == 0
        &&& self.stx@.len() == 0
    }

    /// A blank new entry seeded with the current time, and with the frequency
    /// and mode that the radio is on.
    pub fn new_entry(now: i64, freq_mhz: &str, mode: &str) -> (r: LogEditForm)
        ensures
            r.is_new_entry(now, freq_mhz@, mode@),
    {
        let u = utc_ymd_hms(now);
        proof {
            law_utc_unique(u, utc_of(now as int));
        }
        LogEditForm {
            id: 0,
            seed_utc: now,
            base: QsoRecord::default(),
            call: String::new(),
            grid: String::new(),
            freq_mhz: freq_mhz.to_owned(),
            mode: mode.to_owned(),
            rst_sent: String::new(),
            rst_rcvd: String::new(),
            date: date_of(&u),
            time: time_of(&u),
            name: String::new(),
            qth: String::new(),
            state: String::new(),
            country: String::new(),
            tx_pwr: String::new(),
            contest_id: String::new(),
            srx: String::new(),
            stx: String::new(),
            comment: String::new(),
        }
    }

    /// Whether the form shows a record, given its frequency and power as text.
    pub open spec fn shows(&self, r: QsoRecord, freq_mhz: Seq<char>, tx_pwr: Seq<char>) -> bool {
        &&& self.id == r.id
        &&& self.seed_utc == r.start_utc
        &&& self.base == r
        &&& self.call == r.call
        &&& self.grid@ == match r.grid {
            Some(g) => g@,
            None => Seq::<char>::empty(),
        }
        &&& self.freq_mhz@ == freq_mhz
        &&& self.mode == r.mode
        &&& self.rst_sent@ == shown(int_of(r.rst_sent))
        &&& self.rst_rcvd@ == shown(int_of(r.rst_rcvd))
        &&& self.date@ == date_text(utc_of(r.start_utc as int))
        &&& self.time@ == time_text(utc_of(r.start_utc as int))
        &&& self.name == r.name
        &&& self.qth == r.qth
        &&& self.state == r.state
        &&& self.country == r.country
        &&& self.tx_pwr@ == tx_pwr
        &&& self.contest_id == r.contest_id
        &&& self.srx@ == shown(nat_of(r.srx))
        &&& self.stx@ == shown(nat_of(r.stx))
        &&& self.comment == r.comment
    }

    /// The form for editing a record, given its frequency and power as text.
    pub fn from_record(r: &QsoRecord, freq_mhz: &str, tx_pwr: &str) -> (f: LogEditForm)
        ensures
            f.shows(*r, freq_mhz@, tx_pwr@),
    {
        let u = utc_ymd_hms(r.start_utc);
        proof {
            law_utc_unique(u, utc_of(r.start_utc as int));
        }
        LogEditForm {
            id: r.id,
            seed_utc: r.start_utc,
            base: r.copy(),
            call: r.call.clone(),
            grid: match &r.grid {
                Some(g) => g.clone(),
                None => String::new(),
            },
            freq_mhz: freq_mhz.to_owned(),
            mode: r.mode.clone(),
            rst_sent: show_i16(r.rst_sent),
            rst_rcvd: show_i16(r.rst_rcvd),
            date: date_of(&u),
            time: time_of(&u),
            name: r.name.clone(),
            qth: r.qth.clone(),
            state: r.state.clone(),
            country: r.country.clone(),
            tx_pwr: tx_pwr.to_owned(),
            contest_id: r.contest_id.clone(),
            srx: show_u32(r.srx),
            stx: show_u32(r.stx),
            comment: r.comment.clone(),
        }
    }

    /// The moment that the date and time fields spell out, or the one that the
    /// form was opened with.
    pub open spec fn start(&self) -> int {
        match typed_utc(self.date@, self.time@) {
            Some(u) => unix_of(rolled(u)),
            None => self.seed_utc as int,
        }
    }

    /// Whether a record is what the form comes to.
    pub open spec fn makes(
        &self,
        rec: QsoRecord,
        my_call: Seq<char>,
        my_grid: Seq<char>,
        typed: Typed,
    ) -> bool {
        &&& rec.id == self.id
        &&& rec.call@ == upper_of(trimmed(self.call@))
        &&& match rec.grid {
            Some(g) => trimmed(self.grid@).len() > 0 && g@ == upper_of(trimmed(self.grid@)),
            None => trimmed(self.grid@).len() == 0,
        }
        &&& int_of(rec.rst_sent) == parsed(
            trimmed(self.rst_sent@),
            i16::MIN as int,
            i16::MAX as int,
        )
        &&& int_of(rec.rst_rcvd) == parsed(
            trimmed(self.rst_rcvd@),
            i16::MIN as int,
            i16::MAX as int,
        )
        &&& rec.freq_hz == typed.freq_hz
        &&& rec.band == typed.band
        &&& rec.tx_pwr == typed.tx_pwr
        &&& rec.mode@ == if trimmed(self.mode@).len() == 0 {
            "SSB"@
        } else {
            upper_of(trimmed(self.mode@))
        }
        &&& rec.start_utc == self.start()
        &&& rec.end_utc == if self.base.end_utc > self.start() {
            self.base.end_utc as int
        } else {
            self.start()
        }
        &&& rec.my_call@ == my_call
        &&& rec.my_grid@ == my_grid
        &&& rec.name@ == trimmed(self.name@)
        &&& rec.qth@ == trimmed(self.qth@)
        &&& rec.state@ == upper_of(trimmed(self.state@))
        &&& rec.country@ == trimmed(self.country@)
        &&& rec.contest_id@ == upper_of(trimmed(self.contest_id@))
        &&& nat_of(rec.srx) == parsed(trimmed(self.srx@), 0, u32::MAX as int)
        &&& nat_of(rec.stx) == parsed(trimmed(self.stx@), 0, u32::MAX as int)
        &&& rec.comment@ == trimmed(self.comment@)
        &&& rec.same_unshown(&self.base)
    }

    /// Parse into a record, or `None` if the callsign is empty. Starts from
    /// `base`, so what the form does not show is preserved across an edit; the
    /// own call and grid are the given ones.
    pub fn to_record(&self, my_call: &str, my_grid: &str, typed: Typed) -> (r: Option<QsoRecord>)
        ensures
            r is None <==> trimmed(self.call@).len() == 0,
            r matches Some(rec) ==> self.makes(rec, my_call@, my_grid@, typed),
    {
        let call = upper(trim(self.call.as_str()).as_str());
        if call.as_str().is_empty() {
            return None;
        }
        let start: i64 = parse_utc(self.date.as_str(), self.time.as_str(), self.seed_utc);
        let mode = upper(trim(self.mode.as_str()).as_str());
        let mode = if mode.as_str().is_empty() {
            "SSB".to_owned()
        } else {
            mode
        };
        let grid = if is_blank(self.grid.as_str()) {
            None
        } else {
            Some(upper(trim(self.grid.as_str()).as_str()))
        };
        let mut rec = self.base.copy();
        rec.id = self.id;
        rec.call = call;
        rec.grid = grid;
        rec.rst_sent = read_i16(self.rst_sent.as_str());
        rec.rst_rcvd = read_i16(self.rst_rcvd.as_str());
        rec.freq_hz = typed.freq_hz;
        rec.mode = mode;
        rec.band = typed.band;
        rec.tx_pwr = typed.tx_pwr;
        rec.start_utc = start;
        rec.end_utc = if rec.end_utc > start {
            rec.end_utc
        } else {
            start
        };
        rec.my_call = my_call.to_owned();
        rec.my_grid = my_grid.to_owned();
        rec.name = trim(self.name.as_str());
        rec.qth = trim(self.qth.as_str());
        rec.state = upper(trim(self.state.as_str()).as_str());
        rec.country = trim(self.country.as_str());
        rec.contest_id = upper(trim(self.contest_id.as_str()).as_str());
        rec.srx = read_u32(self.srx.as_str());
        rec.stx = read_u32(self.stx.as_str());
        rec.comment = trim(self.comment.as_str());
        Some(rec)
    }
}

impl QsoRecord {
    /// Whether what a form does not show is the same in two records: resolved
    /// entity and zones, award references, and what was sent and confirmed.
    pub open spec fn same_unshown(&self, o: &QsoRecord) -> bool {
        &&& self.dxcc == o.dxcc
        &&& self.cq_zone == o.cq_zone
        &&& self.itu_zone == o.itu_zone
        &&& self.iota == o.iota
        &&& self.pota_ref == o.pota_ref
        &&& self.sota_ref == o.sota_ref
        &&& self.lotw_sent == o.lotw_sent
        &&& self.eqsl_sent == o.eqsl_sent
        &&& self.qrz_sent == o.qrz_sent
        &&& self.clublog_sent == o.clublog_sent
        &&& self.lotw_rcvd == o.lotw_rcvd
        &&& self.eqsl_rcvd == o.eqsl_rcvd
        &&& self.qsl_rcvd == o.qsl_rcvd
    }
}

proof fn lemma_shown_survives(n: Option<int>, lo: int, hi: int)
    requires
        lo <= 0 <= hi,
        n matches Some(v) ==> lo <= v <= hi,
    ensures
        parsed(trimmed(shown(n)), lo, hi) == n,
{
    match n {
        Some(v) => {
            let m = if v < 0 {
                -v
            } else {
                v
            };
            lemma_decimal_number(m as nat);
            let d = decimal_int(v);
            assert(d.last() == crate::text::decimal(m as nat).last());
            assert(!is_white(d[0]) && !is_white(d.last()));
            lemma_trimmed_same(d);
            law_parse_undoes_decimal(v, lo, hi);
        },
        None => {
            lemma_trimmed_same(shown(n));
        },
    }
}

/// Opening a record for editing and saving it as it stands keeps its id, its
/// reports, its serial numbers, the minute it started, when it ended, and what
/// the form does not show of entity, zones, award references, uploads and
/// confirmations. The own
/// call and grid are those of the station that saves.
pub proof fn law_edit_keeps_the_record(
    r: QsoRecord,
    f: LogEditForm,
    freq_mhz: Seq<char>,
    tx_pwr: Seq<char>,
    rec: QsoRecord,
    my_call: Seq<char>,
    my_grid: Seq<char>,
    typed: Typed,
)
    requires
        f.shows(r, freq_mhz, tx_pwr),
        f.makes(rec, my_call, my_grid, typed),
        0 <= utc_of(r.start_utc as int).year <= i32::MAX,
    ensures
        rec.id == r.id,
        rec.rst_sent == r.rst_sent,
        rec.rst_rcvd == r.rst_rcvd,
        rec.srx == r.srx,
        rec.stx == r.stx,
        rec.start_utc == r.start_utc - r.start_utc as int % 60,
        r.end_utc >= r.start_utc ==> rec.end_utc == r.end_utc,
        rec.same_unshown(&r),
        rec.my_call@ == my_call,
        rec.my_grid@ == my_grid,
{
    lemma_shown_survives(int_of(r.rst_sent), i16::MIN as int, i16::MAX as int);
    lemma_shown_survives(int_of(r.rst_rcvd), i16::MIN as int, i16::MAX as int);
    lemma_shown_survives(nat_of(r.srx), 0, u32::MAX as int);
    lemma_shown_survives(nat_of(r.stx), 0, u32::MAX as int);
    let u = utc_of(r.start_utc as int);
    crate::utc::lemma_utc_exists(r.start_utc as int);
    crate::utc::law_parse_undoes_text(u);
    crate::utc::law_text_keeps_the_minute(u);
}

/// A contact that is saved does not end before it starts, ends no earlier than the
/// record that was edited did, and starts at the minute that was typed; one whose
/// fields spell out no date and time starts when the form was opened.
pub proof fn law_contacts_end_after_they_start(
    f: LogEditForm,
    rec: QsoRecord,
    my_call: Seq<char>,
    my_grid: Seq<char>,
    typed: Typed,
)
    requires
        f.makes(rec, my_call, my_grid, typed),
    ensures
        rec.start_utc <= rec.end_utc,
        f.base.end_utc <= rec.end_utc,
        rec.end_utc == rec.start_utc || rec.end_utc == f.base.end_utc,
        typed_utc(f.date@, f.time@) is None ==> rec.start_utc == f.seed_utc,
        typed_utc(f.date@, f.time@) matches Some(u) ==> rec.start_utc == unix_of(rolled(u)),
{
}

/// What is typed is what is saved, without the blanks around it: the reports and
/// serial numbers as the numbers that they read as, and no mode as SSB. A grid that
/// is left blank is none.
pub proof fn law_typed_fields_are_saved(
    f: LogEditForm,
    rec: QsoRecord,
    my_call: Seq<char>,
    my_grid: Seq<char>,
    typed: Typed,
    n: i16,
    m: u32,
)
    requires
        f.makes(rec, my_call, my_grid, typed),
    ensures
        trimmed(f.rst_sent@) == decimal_int(n as int) ==> rec.rst_sent == Some(n),
        trimmed(f.rst_rcvd@) == decimal_int(n as int) ==> rec.rst_rcvd == Some(n),
        trimmed(f.srx@) == decimal_int(m as int) ==> rec.srx == Some(m),
        trimmed(f.stx@) == decimal_int(m as int) ==> rec.stx == Some(m),
        rec.name@ == trimmed(f.name@) && rec.qth@ == trimmed(f.qth@),
        rec.country@ == trimmed(f.country@) && rec.comment@ == trimmed(f.comment@),
        rec.call@ == upper_of(trimmed(f.call@)) && rec.state@ == upper_of(trimmed(f.state@)),
        rec.grid is None <==> trimmed(f.grid@).len() == 0,
        trimmed(f.mode@).len() == 0 ==> rec.mode@ == "SSB"@,
        rec.freq_hz == typed.freq_hz && rec.band == typed.band && rec.tx_pwr == typed.tx_pwr,
        rec.lotw_rcvd == f.base.lotw_rcvd && rec.eqsl_rcvd == f.base.eqsl_rcvd && rec.qsl_rcvd
            == f.base.qsl_rcvd,
        rec.lotw_sent == f.base.lotw_sent && rec.eqsl_sent == f.base.eqsl_sent && rec.qrz_sent
            == f.base.qrz_sent && rec.clublog_sent == f.base.clublog_sent,
        rec.dxcc == f.base.dxcc && rec.cq_zone == f.base.cq_zone && rec.itu_zone
            == f.base.itu_zone,
        rec.iota == f.base.iota && rec.pota_ref == f.base.pota_ref && rec.sota_ref
            == f.base.sota_ref,
{
    law_parse_undoes_decimal(n as int, i16::MIN as int, i16::MAX as int);
    law_parse_undoes_decimal(m as int, 0, u32::MAX as int);
}

/// A new entry that is saved is a contact of the minute in which it was opened, with
/// no reports, numbers, entity, zones, references or marks but what was typed.
pub proof fn law_new_contacts_start_blank(
    f: LogEditForm,
    now: i64,
    freq_mhz: Seq<char>,
    mode: Seq<char>,
    rec: QsoRecord,
    my_call: Seq<char>,
    my_grid: Seq<char>,
    typed: Typed,
)
    requires
        f.is_seeded(now, freq_mhz, mode),
        f.makes(rec, my_call, my_grid, typed),
        0 <= utc_of(now as int).year <= i32::MAX,
    ensures
        rec.id == 0,
        rec.start_utc == now - now as int % 60,
        rec.end_utc == if rec.start_utc > 0 {
            rec.start_utc
        } else {
            0
        },
        rec.rst_sent is None && rec.rst_rcvd is None && rec.srx is None && rec.stx is None,
        rec.name@.len() == 0 && rec.qth@.len() == 0 && rec.country@.len() == 0,
        rec.dxcc is None && rec.cq_zone is None && rec.itu_zone is None,
        rec.iota@.len() == 0 && rec.pota_ref@.len() == 0 && rec.sota_ref@.len() == 0,
        !rec.lotw_sent && !rec.eqsl_sent && !rec.qrz_sent && !rec.clublog_sent,
        !rec.lotw_rcvd && !rec.eqsl_rcvd && !rec.qsl_rcvd,
{
    lemma_utc_exists(now as int);
    let u = utc_of(now as int);
    law_parse_undoes_text(u);
    law_text_keeps_the_minute(u);
}

/// The texts of a record that is opened and saved as it stands are what they were,
/// without blanks around them, the call, grid, state and contest in capitals.
pub proof fn law_texts_survive_an_edit(
    r: QsoRecord,
    f: LogEditForm,
    freq_mhz: Seq<char>,
    tx_pwr: Seq<char>,
    rec: QsoRecord,
    my_call: Seq<char>,
    my_grid: Seq<char>,
    typed: Typed,
)
    requires
        f.shows(r, freq_mhz, tx_pwr),
        f.makes(rec, my_call, my_grid, typed),
    ensures
        rec.name@ == trimmed(r.name@) && rec.qth@ == trimmed(r.qth@),
        rec.country@ == trimmed(r.country@) && rec.comment@ == trimmed(r.comment@),
        rec.call@ == upper_of(trimmed(r.call@)) && rec.state@ == upper_of(trimmed(r.state@)),
        rec.contest_id@ == upper_of(trimmed(r.contest_id@)),
        trimmed(r.mode@).len() > 0 ==> rec.mode@ == upper_of(trimmed(r.mode@)),
        r.grid is None ==> rec.grid is None,
        r.grid matches Some(g) && trimmed(g@).len() > 0 ==> rec.grid is Some && rec.grid->0@
            == upper_of(trimmed(r.grid->0@)),
        f.freq_mhz@ == freq_mhz && f.tx_pwr@ == tx_pwr && f.seed_utc == r.start_utc,
{
    if r.grid is None {
        assert(trimmed(Seq::<char>::empty()) == Seq::<char>::empty());
    }
}

} // verus!
