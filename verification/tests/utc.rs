use sdroxide_ui::utc::{
    date_of, date_str, div_floor, fmt_age, parse_utc, rem_floor, time_of, time_str, utc_ymd_hms,
    ymd_hms_to_unix, Utc,
};

fn utc(year: i64, month: u32, day: u32, hour: u32, minute: u32, second: u32) -> Utc {
    Utc { year, month, day, hour, minute, second }
}

#[test]
fn known_moments() {
    for (u, unix) in [
        (utc(1970, 1, 1, 0, 0, 0), 0),
        (utc(1969, 12, 31, 23, 59, 59), -1),
        (utc(2000, 2, 29, 12, 0, 0), 951_825_600),
        (utc(2001, 9, 9, 1, 46, 40), 1_000_000_000),
        (utc(2026, 7, 25, 0, 0, 0), 1_784_937_600),
        (utc(1900, 3, 1, 0, 0, 0), -2_203_891_200),
    ] {
        assert_eq!(ymd_hms_to_unix(u), unix);
        let v = utc_ymd_hms(unix);
        assert_eq!(
            (v.year, v.month, v.day, v.hour, v.minute, v.second),
            (u.year, u.month, u.day, u.hour, u.minute, u.second)
        );
    }
}

#[test]
fn moments_survive_the_calendar() {
    let mut t: i64 = -70_000_000_000;
    while t < 70_000_000_000 {
        assert_eq!(ymd_hms_to_unix(utc_ymd_hms(t)), t);
        t += 86_399_123;
    }
}

#[test]
fn quotients_round_down() {
    assert_eq!((div_floor(7, 3), rem_floor(7, 3)), (2, 1));
    assert_eq!((div_floor(-7, 3), rem_floor(-7, 3)), (-3, 2));
    assert_eq!((div_floor(-6, 3), rem_floor(-6, 3)), (-2, 0));
    assert_eq!(div_floor(i64::MIN, 1), i64::MIN);
}

#[test]
fn date_and_time_as_text() {
    assert_eq!(date_str(1_784_937_600), "2026-07-25");
    assert_eq!(time_str(1_784_937_600 + 3661), "01:01");
    assert_eq!(date_of(&utc(7, 1, 2, 0, 0, 0)), "0007-01-02");
    assert_eq!(time_of(&utc(7, 1, 2, 23, 5, 59)), "23:05");
    assert_eq!(date_str(-1), "1969-12-31");
}

#[test]
fn typed_moments_are_read() {
    let t = 1_784_937_600 + 3660;
    assert_eq!(parse_utc("2026-07-25", "01:01", 5), t);
    assert_eq!(parse_utc(" 2026-07-25 ", " 01:01 ", 5), t);
    // What was written is read back, to the minute.
    assert_eq!(parse_utc(&date_str(t + 59), &time_str(t + 59), 5), t);
    for (d, m) in [
        ("", ""),
        ("2026-07", "01:01"),
        ("2026-07-25", "0101"),
        ("x-07-25", "01:01"),
        ("2026--1-25", "01:01"),
        ("2026-07-25", "-1:01"),
    ] {
        assert_eq!(parse_utc(d, m, 5), 5, "{d} {m}");
    }
    // Numbers outside their range run on into what is beside them.
    for (typed, meant) in [
        ("2026-13-01", "2027-01-01"),
        ("2026-00-31", "2025-12-31"),
        ("2026-25-02", "2028-01-02"),
        ("2026-02-29", "2026-03-01"),
        ("2026-03-00", "2026-02-28"),
    ] {
        assert_eq!(parse_utc(typed, "24:60", 5), parse_utc(meant, "00:00", 5) + 90_000, "{typed}");
    }
}

#[test]
fn ages_are_short() {
    assert_eq!(fmt_age(-3), "0s");
    assert_eq!(fmt_age(59), "59s");
    assert_eq!(fmt_age(60), "1m");
    assert_eq!(fmt_age(3599), "59m");
    assert_eq!(fmt_age(7200), "2h");
}
