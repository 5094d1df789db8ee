//! The modification time written into zip archives: the UTC date and time
//! of a Unix time in the MS-DOS format of zip headers.

use vstd::prelude::*;
use chrono::{Datelike, TimeZone, Timelike};
use crate::contributions::{day_in_range, epoch_day, new_year_day};

verus! {

/// The day number of a Unix time in seconds (UTC).
pub open spec fn day_of_secs(secs: int) -> int {
    secs / 86_400 + epoch_day()
}

/// Whether a year is a leap year of the Gregorian calendar.
pub open spec fn leap_year(y: int) -> bool {
    (y % 4 == 0 && y % 100 != 0) || y % 400 == 0
}

/// Whether a date exists in the proleptic Gregorian calendar.
pub open spec fn valid_date(y: int, m: int, d: int) -> bool {
    &&& 1 <= m <= 12
    &&& 1 <= d
    &&& d <= if m == 2 {
        if leap_year(y) {
            29int
        } else {
            28
        }
    } else if m == 4 || m == 6 || m == 9 || m == 11 {
        30int
    } else {
        31
    }
}

/// Days of year `y` before the first of month `m`.
pub open spec fn days_before_month(y: int, m: int) -> int {
    let base = if m <= 1 {
        0int
    } else if m == 2 {
        31
    } else if m == 3 {
        59
    } else if m == 4 {
        90
    } else if m == 5 {
        120
    } else if m == 6 {
        151
    } else if m == 7 {
        181
    } else if m == 8 {
        212
    } else if m == 9 {
        243
    } else if m == 10 {
        273
    } else if m == 11 {
        304
    } else {
        334
    };
    base + if m > 2 && leap_year(y) {
        1int
    } else {
        0
    }
}

/// The day number of a date.
pub open spec fn day_of_date(y: int, m: int, d: int) -> int {
    new_year_day(y) + days_before_month(y, m) + d - 1
}

/// The month and day of a day number: the date of its year that has it.
pub open spec fn month_and_day(day: int) -> (u32, u32) {
    choose|md: (u32, u32)|
        valid_date(year_of_day(day), md.0 as int, md.1 as int) && day == day_of_date(year_of_day(day), md.0 as int, md.1 as int)
}

/// Two dates of a year with the same day number are the same date.
proof fn lemma_date_unique(y: int, m1: int, d1: int, m2: int, d2: int)
    requires
        valid_date(y, m1, d1),
        valid_date(y, m2, d2),
        day_of_date(y, m1, d1) == day_of_date(y, m2, d2),
    ensures
        m1 == m2 && d1 == d2,
{
}

/// `Utc.timestamp_opt(secs, 0).single()` read through `Datelike` and
/// `Timelike`: year, month, day, hour, minute and second of a Unix time in
/// UTC, if `chrono` can represent its day. The year is the one whose days
/// hold the day number, the month and day form the date of that year with
/// that day number (proleptic Gregorian calendar), and the time of day
/// follows from the seconds past midnight.
#[verifier::external_body]
fn utc_civil(secs: i64) -> (r: Option<(i32, u32, u32, u32, u32, u32)>)
    ensures
        r is Some <==> day_in_range(day_of_secs(secs as int)),
        r matches Some((y, mo, d, h, mi, s)) ==> {
            let day = day_of_secs(secs as int);
            let sod = (secs as int) % 86_400;
            &&& new_year_day(y as int) <= day < new_year_day(y + 1)
            &&& valid_date(y as int, mo as int, d as int)
            &&& day == day_of_date(y as int, mo as int, d as int)
            &&& h == sod / 3600
            &&& mi == (sod % 3600) / 60
            &&& s == sod % 60
        },
{
    chrono::Utc.timestamp_opt(secs, 0).single().map(|t| (t.year(), t.month(), t.day(), t.hour(), t.minute(), t.second()))
}

/// The MS-DOS date of a date: years since 1980, month and day in 7, 4 and
/// 5 bits.
pub open spec fn dos_date(y: int, m: int, d: int) -> int {
    (y - 1980) * 512 + m * 32 + d
}

/// The MS-DOS time of a time of day: hour, minute and half the seconds
/// (at most 29) in 5, 6 and 5 bits.
pub open spec fn dos_time(h: int, mi: int, s: int) -> int {
    h * 2048 + mi * 32 + if s / 2 > 29 {
        29
    } else {
        s / 2
    }
}

/// `dos_date_time::DateTime::try_from` a `chrono` date and time built from
/// the fields, read through `to_raw`: the MS-DOS date and time when the
/// year is from 1980 to 2107, none otherwise, as the crate's source shows.
#[verifier::external_body]
fn dos_fields(y: i32, mo: u32, d: u32, h: u32, mi: u32, s: u32) -> (r: Option<(u16, u16)>)
    requires
        -9999 <= y <= 9999,
        valid_date(y as int, mo as int, d as int),
        h < 24,
        mi < 60,
        s < 60,
    ensures
        r is Some <==> 1980 <= y <= 2107,
        r matches Some((date, time)) ==> date == dos_date(y as int, mo as int, d as int) && time == dos_time(
            h as int,
            mi as int,
            s as int,
        ),
{
    chrono::NaiveDate::from_ymd_opt(y, mo, d)
        .and_then(|date| date.and_hms_opt(h, mi, s))
        .and_then(|t| dos_date_time::DateTime::try_from(t).ok())
        .map(|t| (t.date().to_raw(), t.time().to_raw()))
}

proof fn lemma_new_year_step(y: int)
    ensures
        new_year_day(y) + 365 <= new_year_day(y + 1),
{
    assert(y / 4 >= (y - 1) / 4);
    assert(y / 100 <= (y - 1) / 100 + 1);
    assert(y / 400 >= (y - 1) / 400);
    assert(y / 4 - (y - 1) / 4 >= y / 100 - (y - 1) / 100 - (y / 400 - (y - 1) / 400)) by {
        if y / 100 > (y - 1) / 100 {
            assert(y % 100 == 0);
            assert(y % 4 == 0);
        }
    }
}

proof fn lemma_new_year_monotonic(a: int, b: int)
    requires
        a <= b,
    ensures
        new_year_day(a) <= new_year_day(b),
    decreases b - a,
{
    if a < b {
        lemma_new_year_step(b - 1);
        lemma_new_year_monotonic(a, b - 1);
    }
}

/// The Unix times whose year `dos_date_time` can read: the years -9999 to
/// 9999.
pub open spec fn secs_in_readable_years(secs: int) -> bool {
    new_year_day(-9999) <= day_of_secs(secs) < new_year_day(10000)
}

/// The zip modification time of a Unix time: its UTC date and time in the
/// MS-DOS format, January 1, 1970 when `chrono` cannot represent it, and
/// the earliest MS-DOS time (January 1, 1980, midnight) for years before
/// 1980 or after 2107. Years beyond -9999 to 9999 are not read.
pub fn unix_secs_to_zip_datetime(unix_secs: i64) -> (r: (u16, u16))
    requires
        day_in_range(day_of_secs(unix_secs as int)) ==> secs_in_readable_years(unix_secs as int),
    ensures
        ({
            let (y, mo, d, h, mi, s) = utc_fields_of(unix_secs as int);
            if 1980 <= y <= 2107 {
                r.0 == dos_date(y, mo, d) && r.1 == dos_time(h, mi, s)
            } else {
                r == (0x21u16, 0u16)
            }
        }),
{
    let fields = utc_civil(unix_secs);
    let (y, mo, d, h, mi, s) = match fields {
        Some(f) => f,
        None => (1970, 1, 1, 0, 0, 0),
    };
    proof {
        if fields is Some {
            let day = day_of_secs(unix_secs as int);
            lemma_year_unique(y as int, year_of_day(day), day);
            let w: (u32, u32) = (mo, d);
            assert(valid_date(year_of_day(day), w.0 as int, w.1 as int) && day == day_of_date(
                year_of_day(day),
                w.0 as int,
                w.1 as int,
            ));
            let md = month_and_day(day);
            assert(valid_date(y as int, mo as int, d as int) && day == day_of_date(y as int, mo as int, d as int));
            assert(valid_date(year_of_day(day), md.0 as int, md.1 as int) && day == day_of_date(
                year_of_day(day),
                md.0 as int,
                md.1 as int,
            ));
            lemma_date_unique(y as int, mo as int, d as int, md.0 as int, md.1 as int);
            if y > 9999 {
                lemma_new_year_monotonic(10000, y as int);
            }
            if y < -9999 {
                lemma_new_year_monotonic(y + 1, -9999);
            }
        }
    }
    match dos_fields(y, mo, d, h, mi, s) {
        Some(t) => t,
        None => (0x21, 0),
    }
}

/// The UTC fields of a Unix time as [`unix_secs_to_zip_datetime`] reads
/// them: those `chrono` gives, or those of January 1, 1970, midnight.
pub open spec fn utc_fields_of(secs: int) -> (int, int, int, int, int, int) {
    if day_in_range(day_of_secs(secs)) {
        let day = day_of_secs(secs);
        let sod = secs % 86_400;
        (year_of_day(day), month_and_day(day).0 as int, month_and_day(day).1 as int, sod / 3600, (sod % 3600) / 60, sod % 60)
    } else {
        (1970, 1, 1, 0, 0, 0)
    }
}

/// The year a day number falls in: the one whose days hold it.
pub open spec fn year_of_day(day: int) -> int {
    choose|y: int| #[trigger] new_year_day(y) <= day < new_year_day(y + 1)
}

proof fn lemma_year_unique(a: int, b: int, day: int)
    requires
        new_year_day(a) <= day < new_year_day(a + 1),
        new_year_day(b) <= day < new_year_day(b + 1),
    ensures
        a == b,
{
    if a < b {
        lemma_new_year_monotonic(a + 1, b);
    }
    if b < a {
        lemma_new_year_monotonic(b + 1, a);
    }
}

proof fn lemma_div_step(y: int, k: int)
    requires
        k > 0,
    ensures
        y / k - (y - 1) / k == (if y % k == 0 {
            1int
        } else {
            0int
        }),
{
    assert(y == k * (y / k) + y % k) by (nonlinear_arith)
        requires
            k > 0,
    ;
    assert(y - 1 == k * ((y - 1) / k) + (y - 1) % k) by (nonlinear_arith)
        requires
            k > 0,
    ;
    assert(0 <= y % k < k);
    assert(0 <= (y - 1) % k < k);
    if y % k == 0 {
        assert((y - 1) % k == k - 1) by (nonlinear_arith)
            requires
                k > 0,
                y == k * (y / k),
                y - 1 == k * ((y - 1) / k) + (y - 1) % k,
                0 <= (y - 1) % k < k,
        ;
        assert(y / k - (y - 1) / k == 1) by (nonlinear_arith)
            requires
                k > 0,
                y == k * (y / k),
                y - 1 == k * ((y - 1) / k) + k - 1,
        ;
    } else {
        assert((y - 1) % k == y % k - 1) by (nonlinear_arith)
            requires
                k > 0,
                y == k * (y / k) + y % k,
                y - 1 == k * ((y - 1) / k) + (y - 1) % k,
                0 <= (y - 1) % k < k,
                0 < y % k < k,
        ;
        assert(y / k == (y - 1) / k) by (nonlinear_arith)
            requires
                k > 0,
                y == k * (y / k) + y % k,
                y - 1 == k * ((y - 1) / k) + y % k - 1,
        ;
    }
}

/// A year of the calendar has 366 days when it is a leap year and 365
/// otherwise, so the contribution calendar of a year covers exactly its days.
pub proof fn lemma_year_length(y: int)
    ensures
        new_year_day(y + 1) - new_year_day(y) == if leap_year(y) {
            366int
        } else {
            365int
        },
{
    lemma_div_step(y, 4);
    lemma_div_step(y, 100);
    lemma_div_step(y, 400);
    let a = y / 4 - (y - 1) / 4;
    let b = y / 100 - (y - 1) / 100;
    let c = y / 400 - (y - 1) / 400;
    assert(new_year_day(y + 1) - new_year_day(y) == 365 + a - b + c);
    if y % 100 == 0 {
        assert(y % 4 == 0) by (nonlinear_arith)
            requires
                y % 100 == 0,
        ;
    }
    if y % 400 == 0 {
        assert(y % 100 == 0) by (nonlinear_arith)
            requires
                y % 400 == 0,
        ;
    }
}

/// Law: the MS-DOS date and time keep each field apart: the date holds
/// the years since 1980, the month and the day, and the time the hour, the
/// minute and half the seconds, each read back from its bits.
pub proof fn lemma_dos_fields_read_back(y: int, m: int, d: int, h: int, mi: int, s: int)
    requires
        1980 <= y <= 2107,
        valid_date(y, m, d),
        0 <= h < 24,
        0 <= mi < 60,
        0 <= s < 60,
    ensures
        dos_date(y, m, d) / 512 == y - 1980,
        (dos_date(y, m, d) % 512) / 32 == m,
        dos_date(y, m, d) % 32 == d,
        dos_time(h, mi, s) / 2048 == h,
        (dos_time(h, mi, s) % 2048) / 32 == mi,
        dos_time(h, mi, s) % 32 == s / 2,
{
}

} // verus!
