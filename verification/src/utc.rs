//! UTC dates and times of day, as text and as seconds since 1970.
use crate::text::{decimal, parsed, pieces, trimmed, views, zero_padded};
use crate::text::{fmt_padded, fmt_u64, parse_int, split, trim};
use crate::text::{
    law_padding_injective, law_parse_undoes_padding, lemma_decimal_number, lemma_two_digits,
    lemma_pieces_append, lemma_pieces_single, lemma_trimmed_same,
};
use vstd::prelude::*;

verus! {

/// A date and a time of day.
#[derive(Clone, Copy, Debug, PartialEq, Eq, Structural)]
pub struct Utc {
    pub year: i64,
    pub month: u32,
    pub day: u32,
    pub hour: u32,
    pub minute: u32,
    pub second: u32,
}

/// Whether a year of the Gregorian calendar has a 29 February.
pub open spec fn leap(y: int) -> bool {
    y % 4 == 0 && (y % 100 != 0 || y % 400 == 0)
}

/// Days in the year before the first of a month.
pub open spec fn days_before_month(y: int, m: int) -> int {
    let l: int = if leap(y) && m > 2 {
        1
    } else {
        0
    };
    l + (if m <= 1 {
        0int
    } else if m == 2 {
        31
    } else if m == 3 {
        59
    } else if m == 4 {
        90
    } else if m == 5 {
        120
    } else if m == 6 {
        151
    } else if m == 7 {
        181
    } else if m == 8 {
        212
    } else if m == 9 {
        243
    } else if m == 10 {
        273
    } else if m == 11 {
        304
    } else if m == 12 {
        334
    } else {
        365
    })
}

/// Days from 1 January of year 1 to 1 January of year `y`.
pub open spec fn days_before_year(y: int) -> int {
    let p = y - 1;
    365 * p + p / 4 - p / 100 + p / 400
}

/// Days from 1 January 1970 to a date.
pub open spec fn day_number(y: int, m: int, d: int) -> int {
    days_before_year(y) - 719162 + days_before_month(y, m) + d - 1
}

/// Seconds since the start of 1970.
pub open spec fn unix_of(u: Utc) -> int {
    day_number(u.year as int, u.month as int, u.day as int) * 86400 + u.hour * 3600 + u.minute * 60
        + u.second
}

/// Whether the fields name a day of the calendar and a second of that day.
pub open spec fn valid(u: Utc) -> bool {
    &&& 1 <= u.month <= 12
    &&& 1 <= u.day <= days_before_month(u.year as int, u.month + 1) - days_before_month(
        u.year as int,
        u.month as int,
    )
    &&& u.hour < 24
    &&& u.minute < 60
    &&& u.second < 60
}

fn is_leap(y: i64) -> (r: bool)
    requires
        y > i64::MIN,
    ensures
        r == leap(y as int),
{
    // The remainder's sign does not matter when only zero is asked for.
    let a: i64 = if y < 0 {
        -y
    } else {
        y
    };
    a % 4 == 0 && (a % 100 != 0 || a % 400 == 0)
}

fn month_start(y: i64, m: u32) -> (r: i64)
    requires
        y > i64::MIN,
    ensures
        r == days_before_month(y as int, m as int),
        0 <= r <= 366,
{
    let l: i64 = if is_leap(y) && m > 2 {
        1
    } else {
        0
    };
    let base: i64 = if m <= 1 {
        0
    } else if m == 2 {
        31
    } else if m == 3 {
        59
    } else if m == 4 {
        90
    } else if m == 5 {
        120
    } else if m == 6 {
        151
    } else if m == 7 {
        181
    } else if m == 8 {
        212
    } else if m == 9 {
        243
    } else if m == 10 {
        273
    } else if m == 11 {
        304
    } else if m == 12 {
        334
    } else {
        365
    };
    l + base
}

/// Floor division by a positive number.
pub fn div_floor(a: i64, b: i64) -> (r: i64)
    requires
        b > 0,
    ensures
        r == a as int / b as int,
{
    proof {
        lemma_quotient_bounds(a as int, b as int);
    }
    match a.checked_div_euclid(b) {
        Some(q) => q,
        None => 0,
    }
}

/// What floor division by a positive number leaves over.
pub fn rem_floor(a: i64, b: i64) -> (r: i64)
    requires
        b > 0,
    ensures
        r == a as int % b as int,
        0 <= r < b,
{
    proof {
        lemma_quotient_bounds(a as int, b as int);
    }
    match a.checked_rem_euclid(b) {
        Some(q) => q,
        None => 0,
    }
}

proof fn lemma_quotient_bounds(a: int, b: int)
    by (nonlinear_arith)
    requires
        b > 0,
    ensures
        a >= 0 ==> 0 <= a / b <= a,
        a < 0 ==> a <= a / b < 0,
        0 <= a % b < b,
{
}

/// A date whose month lies in the year: one outside it runs on into the years
/// before or after.
pub open spec fn rolled(u: Utc) -> Utc {
    Utc {
        year: (u.year + (u.month - 1) / 12) as i64,
        month: ((u.month - 1) % 12 + 1) as u32,
        ..u
    }
}

/// Seconds since 1970 of a date and time. A month, day, hour, minute or second
/// outside its range runs on into the years, months or days beside it.
pub fn ymd_hms_to_unix(u: Utc) -> (r: i64)
    requires
        -0x8000_0000 <= u.year <= 0x7fff_ffff,
    ensures
        r == unix_of(rolled(u)),
{
    let m: i64 = u.month as i64 - 1;
    let year: i64 = u.year + div_floor(m, 12);
    let month: u32 = (rem_floor(m, 12) + 1) as u32;
    let p: i64 = year - 1;
    let before: i64 = 365 * p + div_floor(p, 4) - div_floor(p, 100) + div_floor(p, 400);
    let day: i64 = before - 719162 + month_start(year, month) + u.day as i64 - 1;
    day * 86400 + u.hour as i64 * 3600 + u.minute as i64 * 60 + u.second as i64
}

/// The days before a year, by the cycles of the calendar: four hundred years,
/// a hundred, four and one.
#[verifier::spinoff_prover]
proof fn lemma_cycles(a: int, b: int, c: int, d: int)
    requires
        0 <= b <= 3,
        0 <= c <= 24,
        0 <= d <= 3,
    ensures
        days_before_year(400 * a + 100 * b + 4 * c + d + 1) == 146097 * a + 36524 * b + 1461 * c
            + 365 * d,
        leap(400 * a + 100 * b + 4 * c + d + 1) == (d == 3 && (c != 24 || b == 3)),
{
    let p = 400 * a + 100 * b + 4 * c + d;
    assert(p / 4 == 100 * a + 25 * b + c);
    assert(p / 100 == 4 * a + b);
    assert(p / 400 == a);
    assert((p + 1) % 4 == 0 <==> d == 3);
    assert((p + 1) % 100 == 0 <==> (d == 3 && c == 24));
    assert((p + 1) % 400 == 0 <==> (d == 3 && c == 24 && b == 3));
}

/// The year that day `n` after 1 January of year 1 falls in, and the day of
/// that year counted from zero.
fn year_of_day(n: i64) -> (r: (i64, i64))
    requires
        -0x7fff_ffff_ffff <= n <= 0x7fff_ffff_ffff,
    ensures
        n == days_before_year(r.0 as int) + r.1,
        0 <= r.1 < 365 + (if leap(r.0 as int) {
            1int
        } else {
            0int
        }),
        -0x7fff_ffff_ffff <= r.0 <= 0x7fff_ffff_ffff,
{
    let a: i64 = div_floor(n, 146097);
    let r400: i64 = n - a * 146097;
    let b: i64 = if r400 / 36524 < 3 {
        r400 / 36524
    } else {
        3
    };
    let r100: i64 = r400 - b * 36524;
    let c: i64 = r100 / 1461;
    let r4: i64 = r100 - c * 1461;
    let d: i64 = if r4 / 365 < 3 {
        r4 / 365
    } else {
        3
    };
    let y: i64 = 400 * a + 100 * b + 4 * c + d + 1;
    let yday: i64 = r4 - d * 365;
    proof {
        lemma_cycles(a as int, b as int, c as int, d as int);
    }
    (y, yday)
}

/// The date and time of day at a number of seconds since 1970.
pub fn utc_ymd_hms(unix: i64) -> (u: Utc)
    ensures
        valid(u),
        unix_of(u) == unix,
{
    let day: i64 = div_floor(unix, 86400);
    let sec: i64 = rem_floor(unix, 86400);
    let (year, yday) = year_of_day(day + 719162);
    let mut month: u32 = 12;
    while yday < month_start(year, month)
        invariant
            1 <= month <= 12,
            -0x7fff_ffff_ffff <= year <= 0x7fff_ffff_ffff,
            0 <= yday < days_before_month(year as int, month + 1),
        decreases month,
    {
        month = month - 1;
    }
    let mday: i64 = yday - month_start(year, month) + 1;
    assert(1 <= mday <= 31);
    Utc {
        year,
        month,
        day: mday as u32,
        hour: (sec / 3600) as u32,
        minute: (sec / 60 % 60) as u32,
        second: (sec % 60) as u32,
    }
}

/// `"YYYY-MM-DD"`.
pub open spec fn date_text(u: Utc) -> Seq<char> {
    zero_padded(u.year as int, 4) + seq!['-'] + zero_padded(u.month as int, 2) + seq!['-']
        + zero_padded(u.day as int, 2)
}

/// `"HH:MM"`.
pub open spec fn time_text(u: Utc) -> Seq<char> {
    zero_padded(u.hour as int, 2) + seq![':'] + zero_padded(u.minute as int, 2)
}

/// The date and time of day at a number of seconds since 1970.
pub open spec fn utc_of(unix: int) -> Utc {
    choose|u: Utc| valid(u) && unix_of(u) == unix
}

/// A number of seconds since 1970 has one date and time of day.
pub proof fn law_utc_unique(u: Utc, v: Utc)
    requires
        valid(u),
        valid(v),
        unix_of(u) == unix_of(v),
    ensures
        u == v,
{
    let du = day_number(u.year as int, u.month as int, u.day as int);
    let dv = day_number(v.year as int, v.month as int, v.day as int);
    assert(du == dv);
    lemma_year_bounds(u);
    lemma_year_bounds(v);
    if u.year < v.year {
        lemma_years_grow(u.year + 1, v.year as int);
    } else if v.year < u.year {
        lemma_years_grow(v.year + 1, u.year as int);
    }
}

/// The day of a date lies within its year.
proof fn lemma_year_bounds(u: Utc)
    requires
        valid(u),
    ensures
        days_before_year(u.year as int) - 719162 <= day_number(
            u.year as int,
            u.month as int,
            u.day as int,
        ) < days_before_year(u.year + 1) - 719162,
{
    lemma_year_length(u.year as int);
}

#[verifier::spinoff_prover]
proof fn lemma_year_length(y: int)
    ensures
        days_before_year(y + 1) - days_before_year(y) == 365 + (if leap(y) {
            1int
        } else {
            0int
        }),
{
    let p = y - 1;
    let a = p / 400;
    let r400 = p % 400;
    let b = r400 / 100;
    let r100 = r400 % 100;
    let c = r100 / 4;
    let d = r100 % 4;
    assert(y == 400 * a + 100 * b + 4 * c + d + 1);
    lemma_cycles(a, b, c, d);
    if d < 3 {
        lemma_cycles(a, b, c, d + 1);
    } else if c < 24 {
        lemma_cycles(a, b, c + 1, 0);
    } else if b < 3 {
        lemma_cycles(a, b + 1, 0, 0);
    } else {
        lemma_cycles(a + 1, 0, 0, 0);
    }
}

proof fn lemma_years_grow(y: int, z: int)
    requires
        y <= z,
    ensures
        days_before_year(y) <= days_before_year(z),
    decreases z - y,
{
    if y < z {
        lemma_year_length(y);
        lemma_years_grow(y + 1, z);
    }
}

/// Every timestamp has a date and a time of day.
pub proof fn lemma_utc_exists(unix: int)
    requires
        i64::MIN <= unix <= i64::MAX,
    ensures
        valid(utc_of(unix)),
        unix_of(utc_of(unix)) == unix,
{
    let n = unix / 86400 + 719162;
    let sec = unix % 86400;
    let a = n / 146097;
    let r400 = n % 146097;
    let b = if r400 / 36524 < 3 {
        r400 / 36524
    } else {
        3
    };
    let r100 = r400 - b * 36524;
    let c = r100 / 1461;
    let r4 = r100 - c * 1461;
    let d = if r4 / 365 < 3 {
        r4 / 365
    } else {
        3
    };
    let y = 400 * a + 100 * b + 4 * c + d + 1;
    let yday = r4 - d * 365;
    lemma_cycles(a, b, c, d);
    let m = lemma_month_exists(y, yday, 12);
    let u = Utc {
        year: y as i64,
        month: m as u32,
        day: (yday - days_before_month(y, m) + 1) as u32,
        hour: (sec / 3600) as u32,
        minute: (sec / 60 % 60) as u32,
        second: (sec % 60) as u32,
    };
    assert(valid(u) && unix_of(u) == unix);
}

proof fn lemma_month_exists(y: int, yday: int, k: int) -> (m: int)
    requires
        1 <= k <= 12,
        0 <= yday < days_before_month(y, k + 1),
    ensures
        1 <= m <= 12,
        days_before_month(y, m) <= yday < days_before_month(y, m + 1),
    decreases k,
{
    if yday >= days_before_month(y, k) {
        k
    } else {
        lemma_month_exists(y, yday, k - 1)
    }
}

/// `"YYYY-MM-DD"` for a Unix timestamp.
pub fn date_str(unix: i64) -> (r: String)
    ensures
        r@ == date_text(utc_of(unix as int)),
{
    let u = utc_ymd_hms(unix);
    proof {
        law_utc_unique(u, utc_of(unix as int));
    }
    date_of(&u)
}

/// `"YYYY-MM-DD"` for a date.
pub fn date_of(u: &Utc) -> (r: String)
    ensures
        r@ == date_text(*u),
{
    let mut s = fmt_padded(u.year, 4);
    s.push('-');
    s.append(fmt_padded(u.month as i64, 2).as_str());
    s.push('-');
    s.append(fmt_padded(u.day as i64, 2).as_str());
    assert(s@ =~= date_text(*u));
    s
}

/// `"HH:MM"` for a Unix timestamp.
pub fn time_str(unix: i64) -> (r: String)
    ensures
        r@ == time_text(utc_of(unix as int)),
{
    let u = utc_ymd_hms(unix);
    proof {
        law_utc_unique(u, utc_of(unix as int));
    }
    time_of(&u)
}

/// `"HH:MM"` for a time of day.
pub fn time_of(u: &Utc) -> (r: String)
    ensures
        r@ == time_text(*u),
{
    let mut s = fmt_padded(u.hour as i64, 2);
    s.push(':');
    s.append(fmt_padded(u.minute as i64, 2).as_str());
    assert(s@ =~= time_text(*u));
    s
}

/// The typed fields of a date and time, in the order they are written.
pub open spec fn typed_fields(date: Seq<char>, time: Seq<char>) -> Seq<Seq<char>> {
    let d = pieces(trimmed(date), '-');
    let t = pieces(trimmed(time), ':');
    if d.len() == 3 && t.len() >= 2 {
        seq![d[0], d[1], d[2], t[0], t[1]]
    } else {
        seq![]
    }
}

/// The date and time that the two fields spell out, if they do: a year, a month
/// and a day between dashes, an hour and a minute with a colon between them.
pub open spec fn typed_utc(date: Seq<char>, time: Seq<char>) -> Option<Utc> {
    let f = typed_fields(date, time);
    if f.len() == 5 {
        let y = parsed(f[0], i32::MIN as int, i32::MAX as int);
        let mo = parsed(f[1], 0, u32::MAX as int);
        let d = parsed(f[2], 0, u32::MAX as int);
        let h = parsed(f[3], 0, u32::MAX as int);
        let mi = parsed(f[4], 0, u32::MAX as int);
        if y is Some && mo is Some && d is Some && h is Some && mi is Some {
            Some(
                Utc {
                    year: y->0 as i64,
                    month: mo->0 as u32,
                    day: d->0 as u32,
                    hour: h->0 as u32,
                    minute: mi->0 as u32,
                    second: 0,
                },
            )
        } else {
            None
        }
    } else {
        None
    }
}

/// Parse `"YYYY-MM-DD"` and `"HH:MM"` to a Unix timestamp, falling back to
/// `fallback` if the fields don't fully parse.
pub fn parse_utc(date: &str, time: &str, fallback: i64) -> (r: i64)
    ensures
        r == match typed_utc(date@, time@) {
            Some(u) => unix_of(rolled(u)),
            None => fallback as int,
        },
{
    let d = split(trim(date).as_str(), '-');
    let t = split(trim(time).as_str(), ':');
    assert(views(d@).len() == d@.len() && views(t@).len() == t@.len());
    if d.len() != 3 || t.len() < 2 {
        return fallback;
    }
    assert(views(d@)[0] == d@[0]@ && views(d@)[1] == d@[1]@ && views(d@)[2] == d@[2]@);
    assert(views(t@)[0] == t@[0]@ && views(t@)[1] == t@[1]@);
    let y = parse_int(d[0].as_str(), i32::MIN as i64, i32::MAX as i64);
    let mo = parse_int(d[1].as_str(), 0, u32::MAX as i64);
    let day = parse_int(d[2].as_str(), 0, u32::MAX as i64);
    let h = parse_int(t[0].as_str(), 0, u32::MAX as i64);
    let mi = parse_int(t[1].as_str(), 0, u32::MAX as i64);
    if let (Some(y), Some(mo), Some(day), Some(h), Some(mi)) = (y, mo, day, h, mi) {
        return ymd_hms_to_unix(
            Utc {
                year: y,
                month: mo as u32,
                day: day as u32,
                hour: h as u32,
                minute: mi as u32,
                second: 0,
            },
        );
    }
    fallback
}

proof fn lemma_padded_digits(n: int, width: int)
    requires
        0 <= n,
    ensures
        zero_padded(n, width).len() > 0,
        forall|i: int|
            0 <= i < zero_padded(n, width).len() ==> '0' <= #[trigger] zero_padded(n, width)[i]
                <= '9',
{
    lemma_decimal_number(n as nat);
    let digits = decimal(n as nat);
    assert forall|i: int| 0 <= i < zero_padded(n, width).len() implies '0'
        <= #[trigger] zero_padded(n, width)[i] <= '9' by {
        let k = zero_padded(n, width).len() - digits.len();
        if i >= k {
            assert(zero_padded(n, width)[i] == digits[i - k]);
        }
    }
}

/// Reading back a date and a time that were written as text gives the same
/// moment to the minute.
pub proof fn law_parse_undoes_text(u: Utc)
    requires
        valid(u),
        0 <= u.year <= i32::MAX,
    ensures
        typed_utc(date_text(u), time_text(u)) == Some(Utc { second: 0, ..u }),
        rolled(Utc { second: 0, ..u }) == (Utc { second: 0, ..u }),
{
    let y = zero_padded(u.year as int, 4);
    let mo = zero_padded(u.month as int, 2);
    let d = zero_padded(u.day as int, 2);
    let h = zero_padded(u.hour as int, 2);
    let mi = zero_padded(u.minute as int, 2);
    lemma_padded_digits(u.year as int, 4);
    lemma_padded_digits(u.month as int, 2);
    lemma_padded_digits(u.day as int, 2);
    lemma_padded_digits(u.hour as int, 2);
    lemma_padded_digits(u.minute as int, 2);
    assert(date_text(u)[0] == y[0]);
    assert(date_text(u).last() == d.last());
    assert(time_text(u)[0] == h[0]);
    assert(time_text(u).last() == mi.last());
    lemma_trimmed_same(date_text(u));
    lemma_trimmed_same(time_text(u));
    lemma_pieces_single(y, '-');
    lemma_pieces_append(y, '-', mo);
    lemma_pieces_append(y + seq!['-'] + mo, '-', d);
    lemma_pieces_single(h, ':');
    lemma_pieces_append(h, ':', mi);
    let f = typed_fields(date_text(u), time_text(u));
    assert(f =~= seq![y, mo, d, h, mi]);
    law_parse_undoes_padding(u.year as int, 4, i32::MIN as int, i32::MAX as int);
    law_parse_undoes_padding(u.month as int, 2, 0, u32::MAX as int);
    law_parse_undoes_padding(u.day as int, 2, 0, u32::MAX as int);
    law_parse_undoes_padding(u.hour as int, 2, 0, u32::MAX as int);
    law_parse_undoes_padding(u.minute as int, 2, 0, u32::MAX as int);
}

/// What date and time say of a moment is its minute: only the odd seconds are
/// lost.
pub proof fn law_text_keeps_the_minute(u: Utc)
    requires
        valid(u),
    ensures
        unix_of(Utc { second: 0, ..u }) == unix_of(u) - unix_of(u) % 60,
{
    let day = day_number(u.year as int, u.month as int, u.day as int);
    lemma_odd_seconds(day * 1440 + u.hour * 60 + u.minute, u.second as int);
}

proof fn lemma_odd_seconds(minutes: int, second: int)
    requires
        0 <= second < 60,
    ensures
        (60 * minutes + second) % 60 == second,
{
}

/// Two moments whose dates read the same fall on the same day.
pub proof fn law_date_text_tells_the_day(u: Utc, v: Utc)
    requires
        valid(u),
        valid(v),
        date_text(u) == date_text(v),
    ensures
        u.year == v.year,
        u.month == v.month,
        u.day == v.day,
{
    lemma_two_digits(u.month as int);
    lemma_two_digits(u.day as int);
    lemma_two_digits(v.month as int);
    lemma_two_digits(v.day as int);
    let a = date_text(u);
    let b = date_text(v);
    let n = a.len() as int;
    assert(zero_padded(u.year as int, 4) =~= a.take(n - 6));
    assert(zero_padded(v.year as int, 4) =~= b.take(n - 6));
    assert(zero_padded(u.month as int, 2) =~= a.subrange(n - 5, n - 3));
    assert(zero_padded(v.month as int, 2) =~= b.subrange(n - 5, n - 3));
    assert(zero_padded(u.day as int, 2) =~= a.subrange(n - 2, n));
    assert(zero_padded(v.day as int, 2) =~= b.subrange(n - 2, n));
    law_padding_injective(u.year as int, v.year as int, 4);
    law_padding_injective(u.month as int, v.month as int, 2);
    law_padding_injective(u.day as int, v.day as int, 2);
}

/// Two moments fall on the same day exactly when their dates read the same.
pub proof fn law_same_date_same_day(a: int, b: int)
    requires
        i64::MIN <= a <= i64::MAX,
        i64::MIN <= b <= i64::MAX,
    ensures
        date_text(utc_of(a)) == date_text(utc_of(b)) <==> a / 86400 == b / 86400,
{
    lemma_utc_exists(a);
    lemma_utc_exists(b);
    let u = utc_of(a);
    let v = utc_of(b);
    lemma_day_of_unix(u);
    lemma_day_of_unix(v);
    if date_text(u) == date_text(v) {
        law_date_text_tells_the_day(u, v);
    }
    if a / 86400 == b / 86400 {
        let w = Utc { hour: v.hour, minute: v.minute, second: v.second, ..u };
        law_utc_unique(w, v);
    }
}

proof fn lemma_day_of_unix(u: Utc)
    requires
        valid(u),
    ensures
        unix_of(u) / 86400 == day_number(u.year as int, u.month as int, u.day as int),
        unix_of(u) % 86400 == u.hour * 3600 + u.minute * 60 + u.second,
{
    let day = day_number(u.year as int, u.month as int, u.day as int);
    let sec = u.hour * 3600 + u.minute * 60 + u.second;
    assert(0 <= sec < 86400);
    assert(unix_of(u) == 86400 * day + sec);
}

/// Compact age of a spot: `"12s"`, `"3m"`, `"1h"`.
pub open spec fn age_text(secs: int) -> Seq<char> {
    let s = if secs > 0 {
        secs
    } else {
        0
    };
    if s < 60 {
        decimal(s as nat).push('s')
    } else if s < 3600 {
        decimal((s / 60) as nat).push('m')
    } else {
        decimal((s / 3600) as nat).push('h')
    }
}

/// Compact age of a spot: `"12s"`, `"3m"`, `"1h"`.
pub fn fmt_age(secs: i64) -> (r: String)
    ensures
        r@ == age_text(secs as int),
{
    let s: u64 = if secs > 0 {
        secs as u64
    } else {
        0
    };
    if s < 60 {
        let mut t = fmt_u64(s);
        t.push('s');
        t
    } else if s < 3600 {
        let mut t = fmt_u64(s / 60);
        t.push('m');
        t
    } else {
        let mut t = fmt_u64(s / 3600);
        t.push('h');
        t
    }
}

/// The calendar: the months have their days, the first day counted is 1 January
/// 1970, and each day, month and year follows on the one before. A year has 366
/// days if it is divisible by four, but of the full centuries only those divisible
/// by four hundred do.
pub proof fn law_days_follow_each_other(y: int, m: int, d: int)
    requires
        1 <= m <= 12,
    ensures
        day_number(1970, 1, 1) == 0,
        day_number(y, m, d + 1) == day_number(y, m, d) + 1,
        m < 12 ==> day_number(y, m + 1, 1) == day_number(y, m, 1) + if m == 4 || m == 6 || m == 9
            || m == 11 {
            30int
        } else if m == 2 {
            if (y % 4 == 0 && y % 100 != 0) || y % 400 == 0 {
                29
            } else {
                28
            }
        } else {
            31
        },
        day_number(y + 1, 1, 1) == day_number(y, 12, 31) + 1,
{
    assert(y % 400 == 0 ==> y % 100 == 0 && y % 4 == 0);
}

/// The time of day is what is left of a moment within its day: hours of 3600
/// seconds, minutes of 60.
pub proof fn law_time_of_day(unix: int)
    requires
        i64::MIN <= unix <= i64::MAX,
    ensures
        ({
            let u = utc_of(unix);
            &&& valid(u)
            &&& u.hour * 3600 + u.minute * 60 + u.second == unix % 86400
            &&& u.hour < 24 && u.minute < 60 && u.second < 60
        }),
{
    lemma_utc_exists(unix);
    let u = utc_of(unix);
    let day = day_number(u.year as int, u.month as int, u.day as int);
    assert(unix == day * 86400 + (u.hour * 3600 + u.minute * 60 + u.second));
}

/// A month beyond the year is one of the years after or before: twelve months are a
/// year. A month of the year stays as it is.
pub proof fn law_months_run_on(u: Utc)
    requires
        -0x8000_0000 <= u.year <= 0x7fff_ffff,
        u.month <= 0x7fff_ffff,
    ensures
        1 <= u.month <= 12 ==> rolled(u) == u,
        1 <= rolled(u).month <= 12,
        12 * rolled(u).year + rolled(u).month == 12 * u.year + u.month,
        unix_of(rolled(Utc { month: (u.month + 12) as u32, ..u })) == unix_of(
            rolled(Utc { year: (u.year + 1) as i64, ..u }),
        ),
{
}

/// An age is given in the largest unit of which it has at least one, cut to whole
/// ones; what lies ahead is no age.
pub proof fn law_ages_are_whole_units(secs: int, n: nat)
    requires
        secs >= 0,
    ensures
        secs < 60 && n == secs ==> age_text(secs) == decimal(n).push('s'),
        60 <= secs < 3600 && 60 * n <= secs < 60 * (n + 1) ==> age_text(secs) == decimal(n).push('m'),
        secs >= 3600 && 3600 * n <= secs < 3600 * (n + 1) ==> age_text(secs) == decimal(n).push('h'),
        age_text(-secs) == age_text(0),
{
}

/// A moment is spelled out only by whole numbers between two dashes and beside a colon;
/// where one is missing or no number there is none. Seconds are not read.
pub proof fn law_moments_need_all_their_fields(date: Seq<char>, time: Seq<char>, k: int)
    requires
        0 <= k < 3,
    ensures
        ({
            let d = pieces(trimmed(date), '-');
            let t = pieces(trimmed(time), ':');
            &&& d.len() != 3 || t.len() < 2 ==> typed_utc(date, time) is None
            &&& d.len() == 3 && parsed(d[k], i32::MIN as int, u32::MAX as int) is None ==> typed_utc(
                date,
                time,
            ) is None
            &&& t.len() >= 2 && k < 2 && parsed(t[k], 0, u32::MAX as int) is None ==> typed_utc(
                date,
                time,
            ) is None
            &&& typed_utc(date, time) matches Some(u) ==> u.second == 0
        }),
{
}

} // verus!
