use rslci::datetime::{get_date_time, resolve, wire_date_x, wire_time_x, Date, DateTime, Time};

fn today_utc() -> Date {
    let now = chrono::Utc::now().date_naive();
    Date {
        year: chrono::Datelike::year(&now),
        month: chrono::Datelike::month(&now) as u8,
        day: chrono::Datelike::day(&now) as u8,
    }
}

#[test]
fn test_get_date_time_time_only() {
    let d = today_utc();
    let dt = DateTime { date: d, time: Time { hour: 21, minute: 0 } };
    assert_eq!(get_date_time("21:00"), Some(dt));
}

#[test]
fn test_get_date_time_dt() {
    let d = today_utc();
    let dt = DateTime {
        date: Date { year: d.year, month: 8, day: 30 },
        time: Time { hour: 21, minute: 30 },
    };
    assert_eq!(get_date_time("08-30 21:30"), Some(dt));
}

#[test]
fn resolve_month_day_uses_reference_year() {
    let reference = Date { year: 2018, month: 1, day: 15 };
    let got = resolve("08-30 21:30", reference);
    let want = DateTime {
        date: Date { year: 2018, month: 8, day: 30 },
        time: Time { hour: 21, minute: 30 },
    };
    assert_eq!(got, Some(want));
}

#[test]
fn resolve_time_only_uses_reference_date() {
    let reference = Date { year: 2018, month: 1, day: 15 };
    let got = resolve("09:05", reference);
    let want = DateTime { date: reference, time: Time { hour: 9, minute: 5 } };
    assert_eq!(got, Some(want));
}

#[test]
fn resolve_single_digit_fields() {
    let reference = Date { year: 2021, month: 6, day: 2 };
    let got = resolve("7-3 8:4", reference);
    let want = DateTime {
        date: Date { year: 2021, month: 7, day: 3 },
        time: Time { hour: 8, minute: 4 },
    };
    assert_eq!(got, Some(want));
}

#[test]
fn resolve_malformed_returns_nothing() {
    let reference = Date { year: 2018, month: 1, day: 15 };
    assert_eq!(resolve("13-40 25:99", reference), None);
    assert_eq!(resolve("25:99", reference), None);
    assert_eq!(resolve("08-30", reference), None);
    assert_eq!(resolve("", reference), None);
    assert_eq!(resolve("tomorrow", reference), None);
    assert_eq!(resolve("08-30 21:30x", reference), None);
}

#[test]
fn resolve_checks_leap_years() {
    let leap = Date { year: 2020, month: 1, day: 1 };
    let plain = Date { year: 2019, month: 1, day: 1 };
    assert!(resolve("02-29 10:00", leap).is_some());
    assert_eq!(resolve("02-29 10:00", plain), None);
}

#[test]
fn get_date_time_malformed_returns_nothing() {
    assert_eq!(get_date_time("nonsense"), None);
}

#[test]
fn wire_date_reads_the_wire_format() {
    assert_eq!(
        wire_date_x("2018-08-30"),
        Some(Date { year: 2018, month: 8, day: 30 })
    );
    assert_eq!(wire_date_x("2018-02-29"), None);
    assert_eq!(
        wire_date_x("2020-02-29"),
        Some(Date { year: 2020, month: 2, day: 29 })
    );
    assert_eq!(wire_date_x("2018-13-01"), None);
    assert_eq!(wire_date_x("2018-08-3"), None);
    assert_eq!(wire_date_x("18-08-30"), None);
}

#[test]
fn wire_time_reads_the_wire_format() {
    assert_eq!(wire_time_x("23:59"), Some(Time { hour: 23, minute: 59 }));
    assert_eq!(wire_time_x("00:00"), Some(Time { hour: 0, minute: 0 }));
    assert_eq!(wire_time_x("24:00"), None);
    assert_eq!(wire_time_x("12:60"), None);
    assert_eq!(wire_time_x("1:05"), None);
}
