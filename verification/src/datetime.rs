//! Civil dates and times of day, their calendar arithmetic, and the parsers
//! for the user-supplied and wire-format date/time strings.
use vstd::prelude::*;
use vstd::string::StrSliceExecFns;

verus! {

/// A civil (proleptic Gregorian) calendar date.
#[derive(Clone, Copy, Debug, PartialEq, Eq, Structural)]
pub struct Date {
    pub year: i32,
    pub month: u8,
    pub day: u8,
}

/// A time of day with minute resolution, as the service reports times.
#[derive(Clone, Copy, Debug, PartialEq, Eq, Structural)]
pub struct Time {
    pub hour: u8,
    pub minute: u8,
}

/// A date together with a time of day.
#[derive(Clone, Copy, Debug, PartialEq, Eq, Structural)]
pub struct DateTime {
    pub date: Date,
    pub time: Time,
}

pub open spec fn is_leap_year(y: int) -> bool {
    (y % 4 == 0 && y % 100 != 0) || y % 400 == 0
}

pub open spec fn days_in_month(y: int, m: int) -> int {
    if m == 2 {
        if is_leap_year(y) {
            29
        } else {
            28
        }
    } else if m == 4 || m == 6 || m == 9 || m == 11 {
        30
    } else {
        31
    }
}

/// A date the library works with: within the four-digit-year range of the
/// wire format, with a real month and a day that exists in that month.
pub open spec fn date_valid(d: Date) -> bool {
    &&& 0 <= d.year <= 9999
    &&& 1 <= d.month <= 12
    &&& 1 <= d.day as int <= days_in_month(d.year as int, d.month as int)
}

pub open spec fn time_valid(t: Time) -> bool {
    t.hour < 24 && t.minute < 60
}

pub open spec fn datetime_valid(dt: DateTime) -> bool {
    date_valid(dt.date) && time_valid(dt.time)
}

/// Days in all years before year `y`, counted from year 0.
pub open spec fn days_before_year(y: int) -> int
    decreases y,
{
    if y <= 0 {
        0
    } else {
        days_before_year(y - 1) + if is_leap_year(y - 1) {
            366int
        } else {
            365int
        }
    }
}

/// Days in the months of year `y` that precede month `m`.
pub open spec fn days_before_month(y: int, m: int) -> int
    decreases m,
{
    if m <= 1 {
        0
    } else {
        days_before_month(y, m - 1) + days_in_month(y, m - 1)
    }
}

/// The ordinal of a date: days elapsed since year 0, January 1st.
pub open spec fn day_number(d: Date) -> int {
    days_before_year(d.year as int) + days_before_month(d.year as int, d.month as int) + d.day - 1
}

/// The ordinal of a date and time in minutes. Differences of this measure
/// are the signed durations between two instants.
pub open spec fn minutes_of(dt: DateTime) -> int {
    1440 * day_number(dt.date) + 60 * (dt.time.hour as int) + dt.time.minute as int
}

fn is_leap_year_x(y: i32) -> (r: bool)
    requires
        0 <= y,
    ensures
        r == is_leap_year(y as int),
{
    let u = y as u32;
    (u % 4 == 0 && u % 100 != 0) || u % 400 == 0
}

fn days_in_month_x(y: i32, m: u8) -> (r: u8)
    requires
        0 <= y,
        1 <= m <= 12,
    ensures
        r as int == days_in_month(y as int, m as int),
{
    if m == 2 {
        if is_leap_year_x(y) {
            29
        } else {
            28
        }
    } else if m == 4 || m == 6 || m == 9 || m == 11 {
        30
    } else {
        31
    }
}

/// Computes the day ordinal of a valid date.
pub fn day_number_x(d: &Date) -> (r: i64)
    requires
        date_valid(*d),
    ensures
        r as int == day_number(*d),
        0 <= r <= 4100000,
{
    let mut days: i64 = 0;
    let mut y: i32 = 0;
    while y < d.year
        invariant
            date_valid(*d),
            0 <= y <= d.year,
            days as int == days_before_year(y as int),
            0 <= days <= 366 * (y as int),
        decreases d.year - y,
    {
        if is_leap_year_x(y) {
            days = days + 366;
        } else {
            days = days + 365;
        }
        y = y + 1;
    }
    let mut m: u8 = 1;
    while m < d.month
        invariant
            date_valid(*d),
            1 <= m <= d.month,
            days as int == days_before_year(d.year as int) + days_before_month(
                d.year as int,
                m as int,
            ),
            0 <= days <= 366 * (d.year as int) + 31 * (m as int),
        decreases d.month - m,
    {
        days = days + days_in_month_x(d.year, m) as i64;
        m = m + 1;
    }
    days + (d.day - 1) as i64
}

/// Computes the minute ordinal of a valid date and time.
pub fn minutes_of_x(dt: &DateTime) -> (r: i64)
    requires
        datetime_valid(*dt),
    ensures
        r as int == minutes_of(*dt),
        0 <= r <= 6000000000,
{
    let days = day_number_x(&dt.date);
    days * 1440 + (dt.time.hour as i64) * 60 + dt.time.minute as i64
}

pub open spec fn is_digit_c(c: char) -> bool {
    48 <= c as u32 <= 57
}

pub open spec fn digit_of(c: char) -> int {
    c as u32 - 48
}

/// A run of one or two digits starting at `i`, read greedily: a third digit
/// in the run makes the field malformed.
pub open spec fn num_field(s: Seq<char>, i: int) -> Option<(int, int)> {
    if i < s.len() && is_digit_c(s[i]) {
        if i + 1 < s.len() && is_digit_c(s[i + 1]) {
            if i + 2 < s.len() && is_digit_c(s[i + 2]) {
                None
            } else {
                Some((10 * digit_of(s[i]) + digit_of(s[i + 1]), i + 2))
            }
        } else {
            Some((digit_of(s[i]), i + 1))
        }
    } else {
        None
    }
}

/// `"HH:MM"` read from position `i` to the end of the input: hours and
/// minutes of one or two digits, in range.
pub open spec fn hm_at(s: Seq<char>, i: int) -> Option<Time> {
    match num_field(s, i) {
        Option::None => Option::None,
        Option::Some((h, j)) => if j < s.len() && s[j] == ':' {
            match num_field(s, j + 1) {
                Option::None => Option::None,
                Option::Some((mi, k)) => if k == s.len() && h < 24 && mi < 60 {
                    Option::Some(Time { hour: h as u8, minute: mi as u8 })
                } else {
                    Option::None
                },
            }
        } else {
            Option::None
        },
    }
}

/// `"MM-DD HH:MM"` read against a given year: the whole input, with the
/// day checked against the calendar of that year.
pub open spec fn md_hm(s: Seq<char>, year: int) -> Option<(u8, u8, Time)> {
    match num_field(s, 0) {
        Option::None => Option::None,
        Option::Some((mo, i)) => if i < s.len() && s[i] == '-' {
            match num_field(s, i + 1) {
                Option::None => Option::None,
                Option::Some((da, j)) => if j < s.len() && s[j] == ' ' {
                    match hm_at(s, j + 1) {
                        Option::None => Option::None,
                        Option::Some(t) => if 1 <= mo <= 12 && 1 <= da <= days_in_month(
                            year,
                            mo,
                        ) {
                            Option::Some((mo as u8, da as u8, t))
                        } else {
                            Option::None
                        },
                    }
                } else {
                    Option::None
                },
            }
        } else {
            Option::None
        },
    }
}

/// What `resolve` returns: the `"MM-DD HH:MM"` reading against the
/// reference year first; failing that, the `"HH:MM"` reading combined with
/// the reference date; failing both, nothing.
pub open spec fn spec_resolve(s: Seq<char>, reference: Date) -> Option<DateTime> {
    match md_hm(s, reference.year as int) {
        Option::Some((mo, da, t)) => Option::Some(
            DateTime { date: Date { year: reference.year, month: mo, day: da }, time: t },
        ),
        Option::None => match hm_at(s, 0) {
            Option::Some(t) => Option::Some(DateTime { date: reference, time: t }),
            Option::None => Option::None,
        },
    }
}

fn num_field_x(s: &str, len: usize, i: usize) -> (r: Option<(u8, usize)>)
    requires
        len as nat == s@.len(),
        i <= len,
    ensures
        match r {
            Option::Some((v, j)) => num_field(s@, i as int) == Option::Some((v as int, j as int))
                && i < j <= len && v < 100,
            Option::None => num_field(s@, i as int) is None,
        },
{
    if i < len {
        let c0 = s.get_char(i);
        let u0 = c0 as u32;
        if 48 <= u0 && u0 <= 57 {
            let d0 = (u0 - 48) as u8;
            if i + 1 < len {
                let c1 = s.get_char(i + 1);
                let u1 = c1 as u32;
                if 48 <= u1 && u1 <= 57 {
                    let d1 = (u1 - 48) as u8;
                    if i + 2 < len {
                        let c2 = s.get_char(i + 2);
                        let u2 = c2 as u32;
                        if 48 <= u2 && u2 <= 57 {
                            return Option::None;
                        }
                    }
                    return Option::Some((10 * d0 + d1, i + 2));
                }
            }
            return Option::Some((d0, i + 1));
        }
    }
    Option::None
}

fn hm_at_x(s: &str, len: usize, i: usize) -> (r: Option<Time>)
    requires
        len as nat == s@.len(),
        i <= len,
    ensures
        r == hm_at(s@, i as int),
{
    match num_field_x(s, len, i) {
        Option::None => Option::None,
        Option::Some((h, j)) => {
            if j < len && s.get_char(j) == ':' {
                match num_field_x(s, len, j + 1) {
                    Option::None => Option::None,
                    Option::Some((mi, k)) => {
                        if k == len && h < 24 && mi < 60 {
                            Option::Some(Time { hour: h, minute: mi })
                        } else {
                            Option::None
                        }
                    },
                }
            } else {
                Option::None
            }
        },
    }
}

fn md_hm_x(s: &str, len: usize, year: i32) -> (r: Option<(u8, u8, Time)>)
    requires
        len as nat == s@.len(),
        0 <= year,
    ensures
        r == md_hm(s@, year as int),
{
    match num_field_x(s, len, 0) {
        Option::None => Option::None,
        Option::Some((mo, i)) => {
            if i < len && s.get_char(i) == '-' {
                match num_field_x(s, len, i + 1) {
                    Option::None => Option::None,
                    Option::Some((da, j)) => {
                        if j < len && s.get_char(j) == ' ' {
                            match hm_at_x(s, len, j + 1) {
                                Option::None => Option::None,
                                Option::Some(t) => {
                                    if 1 <= mo && mo <= 12 && 1 <= da && da <= days_in_month_x(
                                        year,
                                        mo,
                                    ) {
                                        Option::Some((mo, da, t))
                                    } else {
                                        Option::None
                                    }
                                },
                            }
                        } else {
                            Option::None
                        }
                    },
                }
            } else {
                Option::None
            }
        },
    }
}

/// Interprets a partial date/time string against a reference date: either
/// `"MM-DD HH:MM"` taken in the reference year, or `"HH:MM"` taken on the
/// reference date itself. Anything else resolves to nothing, which callers
/// treat as "leave the time constraint at `Now`".
pub fn resolve(input: &str, reference: Date) -> (r: Option<DateTime>)
    requires
        date_valid(reference),
    ensures
        r == spec_resolve(input@, reference),
        r matches Some(dt) ==> datetime_valid(dt),
        md_hm(input@, reference.year as int) matches Some((mo, da, t)) ==> r == Option::Some(
            DateTime { date: Date { year: reference.year, month: mo, day: da }, time: t },
        ),
        hm_at(input@, 0) matches Some(t) ==> (md_hm(input@, reference.year as int) is None ==> r
            == Option::Some(DateTime { date: reference, time: t })),
        md_hm(input@, reference.year as int) is None && hm_at(input@, 0) is None ==> r is None,
{
    let len = input.unicode_len();
    match md_hm_x(input, len, reference.year) {
        Option::Some((mo, da, t)) => Option::Some(
            DateTime { date: Date { year: reference.year, month: mo, day: da }, time: t },
        ),
        Option::None => {
            match hm_at_x(input, len, 0) {
                Option::Some(t) => Option::Some(DateTime { date: reference, time: t }),
                Option::None => Option::None,
            }
        },
    }
}

/// Relies on chrono's `Utc::now` and `Datelike`: the current civil date in
/// UTC, whose month and day form a real calendar date.
#[verifier::external_body]
fn today() -> (d: Date)
    ensures
        1 <= d.month <= 12,
        1 <= d.day as int <= days_in_month(d.year as int, d.month as int),
{
    let now = chrono::Utc::now().date_naive();
    Date {
        year: chrono::Datelike::year(&now),
        month: chrono::Datelike::month(&now) as u8,
        day: chrono::Datelike::day(&now) as u8,
    }
}

/// Resolves a partial date/time string against today's date in UTC. The
/// clock decides the reference date, so whatever it reads, a resolved
/// instant is one that `resolve` produces for the input under some valid
/// reference date.
pub fn get_date_time(dt: &str) -> (r: Option<DateTime>)
    ensures
        r matches Some(d) ==> datetime_valid(d),
        r matches Some(d) ==> exists|refd: Date|
            date_valid(refd) && spec_resolve(dt@, refd) == Option::Some(d),
{
    let reference = today();
    if reference.year < 0 || reference.year > 9999 {
        return Option::None;
    }
    let r = resolve(dt, reference);
    proof {
        match r {
            Option::Some(d) => {
                assert(date_valid(reference) && spec_resolve(dt@, reference) == Option::Some(d));
            },
            Option::None => {},
        }
    }
    r
}

/// A wire-format date, `"YYYY-MM-DD"`: fixed widths, all digits, and a day
/// that exists in that month.
pub open spec fn wire_date(s: Seq<char>) -> Option<Date> {
    if s.len() == 10 && is_digit_c(s[0]) && is_digit_c(s[1]) && is_digit_c(s[2]) && is_digit_c(
        s[3],
    ) && s[4] == '-' && is_digit_c(s[5]) && is_digit_c(s[6]) && s[7] == '-' && is_digit_c(s[8])
        && is_digit_c(s[9]) {
        let y = 1000 * digit_of(s[0]) + 100 * digit_of(s[1]) + 10 * digit_of(s[2]) + digit_of(s[3]);
        let mo = 10 * digit_of(s[5]) + digit_of(s[6]);
        let da = 10 * digit_of(s[8]) + digit_of(s[9]);
        if 1 <= mo <= 12 && 1 <= da <= days_in_month(y, mo) {
            Option::Some(Date { year: y as i32, month: mo as u8, day: da as u8 })
        } else {
            Option::None
        }
    } else {
        Option::None
    }
}

/// A wire-format time, `"HH:MM"`: fixed widths, all digits, in range.
pub open spec fn wire_time(s: Seq<char>) -> Option<Time> {
    if s.len() == 5 && is_digit_c(s[0]) && is_digit_c(s[1]) && s[2] == ':' && is_digit_c(s[3])
        && is_digit_c(s[4]) {
        let h = 10 * digit_of(s[0]) + digit_of(s[1]);
        let mi = 10 * digit_of(s[3]) + digit_of(s[4]);
        if h < 24 && mi < 60 {
            Option::Some(Time { hour: h as u8, minute: mi as u8 })
        } else {
            Option::None
        }
    } else {
        Option::None
    }
}

fn digit_at(s: &str, len: usize, i: usize) -> (r: Option<u8>)
    requires
        len as nat == s@.len(),
        i < len,
    ensures
        match r {
            Option::Some(v) => is_digit_c(s@[i as int]) && v as int == digit_of(s@[i as int]) && v
                < 10,
            Option::None => !is_digit_c(s@[i as int]),
        },
{
    let u = s.get_char(i) as u32;
    if 48 <= u && u <= 57 {
        Option::Some((u - 48) as u8)
    } else {
        Option::None
    }
}

/// Reads a wire-format date string.
pub fn wire_date_x(s: &str) -> (r: Option<Date>)
    ensures
        r == wire_date(s@),
        r matches Some(d) ==> date_valid(d),
{
    let len = s.unicode_len();
    if len != 10 {
        return Option::None;
    }
    let d0 = digit_at(s, len, 0);
    let d1 = digit_at(s, len, 1);
    let d2 = digit_at(s, len, 2);
    let d3 = digit_at(s, len, 3);
    let d5 = digit_at(s, len, 5);
    let d6 = digit_at(s, len, 6);
    let d8 = digit_at(s, len, 8);
    let d9 = digit_at(s, len, 9);
    if s.get_char(4) != '-' || s.get_char(7) != '-' {
        return Option::None;
    }
    match (d0, d1, d2, d3, d5, d6, d8, d9) {
        (
            Option::Some(a),
            Option::Some(b),
            Option::Some(c),
            Option::Some(d),
            Option::Some(e),
            Option::Some(f),
            Option::Some(g),
            Option::Some(h),
        ) => {
            let y: i32 = 1000 * (a as i32) + 100 * (b as i32) + 10 * (c as i32) + d as i32;
            let mo: u8 = 10 * e + f;
            let da: u8 = 10 * g + h;
            if 1 <= mo && mo <= 12 && 1 <= da && da <= days_in_month_x(y, mo) {
                Option::Some(Date { year: y, month: mo, day: da })
            } else {
                Option::None
            }
        },
        _ => Option::None,
    }
}

/// Reads a wire-format time string.
pub fn wire_time_x(s: &str) -> (r: Option<Time>)
    ensures
        r == wire_time(s@),
        r matches Some(t) ==> time_valid(t),
{
    let len = s.unicode_len();
    if len != 5 {
        return Option::None;
    }
    let d0 = digit_at(s, len, 0);
    let d1 = digit_at(s, len, 1);
    let d3 = digit_at(s, len, 3);
    let d4 = digit_at(s, len, 4);
    if s.get_char(2) != ':' {
        return Option::None;
    }
    match (d0, d1, d3, d4) {
        (Option::Some(a), Option::Some(b), Option::Some(c), Option::Some(d)) => {
            let h: u8 = 10 * a + b;
            let mi: u8 = 10 * c + d;
            if h < 24 && mi < 60 {
                Option::Some(Time { hour: h, minute: mi })
            } else {
                Option::None
            }
        },
        _ => Option::None,
    }
}

} // verus!
