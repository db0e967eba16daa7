//! The clock: days since the Unix epoch as dates, and instants as RFC 3339 text.
use vstd::prelude::*;
use vstd::string::*;

use crate::text;

verus! {

/// A leap year of the proleptic Gregorian calendar.
pub open spec fn leap_year(y: int) -> bool {
    y % 4 == 0 && (y % 100 != 0 || y % 400 == 0)
}

/// How many days month `m` of year `y` has.
pub open spec fn month_length(y: int, m: int) -> int {
    if m == 2 {
        if leap_year(y) {
            29
        } else {
            28
        }
    } else if m == 4 || m == 6 || m == 9 || m == 11 {
        30
    } else {
        31
    }
}

/// The year, the month and the day name a date of the calendar.
pub open spec fn valid_date(y: int, m: int, d: int) -> bool {
    1 <= m <= 12 && 1 <= d <= month_length(y, m)
}

/// How many of the years from 1 up to `y` are leap years.
pub open spec fn leap_years_through(y: int) -> int {
    y / 4 - y / 100 + y / 400
}

/// How many days lie between 1 January 1970 and 1 January of year `y`.
#[verifier::opaque]
pub open spec fn year_start(y: int) -> int {
    365 * (y - 1970) + leap_years_through(y - 1) - leap_years_through(1969)
}

/// How many days of year `y` lie before month `m`.
pub open spec fn month_start(y: int, m: int) -> int
    decreases m,
{
    if m <= 1 {
        0
    } else {
        month_start(y, m - 1) + month_length(y, m - 1)
    }
}

/// How many days a date lies after 1 January 1970.
pub open spec fn day_number(y: int, m: int, d: int) -> int {
    year_start(y) + month_start(y, m) + d - 1
}

/// The year of a 400-year era that starts in March, from the day of the era.
proof fn lemma_year_of_era(doe: u32)
    by (bit_vector)
    requires
        doe <= 146096,
    ensures
        ({
            let yoe: u32 = ((doe - doe / 1460 + doe / 36524 - doe / 146096) / 365) as u32;
            let start: u32 = (365 * yoe + yoe / 4 - yoe / 100) as u32;
            &&& yoe <= 399
            &&& start <= doe
            &&& doe - start <= 365
            &&& doe - start == 365 ==> (yoe + 1) % 4 == 0 && ((yoe + 1) % 100 != 0 || yoe == 399)
        }),
{
}

/// A year adds one to the leap years before it where it is one.
proof fn lemma_leap_years_step(y: int)
    ensures
        leap_years_through(y) - leap_years_through(y - 1) == if leap_year(y) {
            1int
        } else {
            0
        },
{
    assert(y / 4 - (y - 1) / 4 == if y % 4 == 0 { 1int } else { 0 }) by (nonlinear_arith);
    assert(y / 100 - (y - 1) / 100 == if y % 100 == 0 { 1int } else { 0 }) by (nonlinear_arith);
    assert(y / 400 - (y - 1) / 400 == if y % 400 == 0 { 1int } else { 0 }) by (nonlinear_arith);
    assert(y % 100 == 0 ==> y % 4 == 0) by (nonlinear_arith);
    assert(y % 400 == 0 ==> y % 100 == 0) by (nonlinear_arith);
}

proof fn lemma_months(y: int)
    ensures
        month_start(y, 1) == 0,
        month_start(y, 2) == 31,
        month_start(y, 3) == 31 + month_length(y, 2),
        month_start(y, 4) == 62 + month_length(y, 2),
        month_start(y, 5) == 92 + month_length(y, 2),
        month_start(y, 6) == 123 + month_length(y, 2),
        month_start(y, 7) == 153 + month_length(y, 2),
        month_start(y, 8) == 184 + month_length(y, 2),
        month_start(y, 9) == 215 + month_length(y, 2),
        month_start(y, 10) == 245 + month_length(y, 2),
        month_start(y, 11) == 276 + month_length(y, 2),
        month_start(y, 12) == 306 + month_length(y, 2),
{
    reveal_with_fuel(month_start, 13);
}

/// The day number of 1 March of year `400 * era + yoe`.
proof fn lemma_march(era: int, yoe: int)
    requires
        0 <= yoe <= 399,
    ensures
        ({
            let y = 400 * era + yoe;
            let march = 146097 * era + 365 * yoe + yoe / 4 - yoe / 100 - 719468;
            &&& year_start(y) + 31 + month_length(y, 2) == march
            &&& year_start(y + 1) == march + 306
        }),
{
    let y = 400 * era + yoe;
    assert(y / 4 == 100 * era + yoe / 4);
    assert(y / 100 == 4 * era + yoe / 100);
    assert(y / 400 == era);
    lemma_leap_years_step(y);
    reveal(year_start);
}

/// The date of a day of the year that starts in March.
proof fn lemma_civil(era: int, yoe: int, doy: int)
    requires
        0 <= yoe <= 399,
        0 <= doy <= 365,
        doy == 365 ==> (yoe + 1) % 4 == 0 && ((yoe + 1) % 100 != 0 || yoe == 399),
    ensures
        ({
            let mp = (5 * doy + 2) / 153;
            let d = doy - (153 * mp + 2) / 5 + 1;
            let m = if mp < 10 {
                mp + 3
            } else {
                mp - 9
            };
            let y = 400 * era + yoe + if m <= 2 {
                1int
            } else {
                0
            };
            &&& 0 <= mp <= 11
            &&& valid_date(y, m, d)
            &&& day_number(y, m, d) == 146097 * era + 365 * yoe + yoe / 4 - yoe / 100 + doy
                - 719468
        }),
{
    let y0 = 400 * era + yoe;
    lemma_march(era, yoe);
    lemma_months(y0);
    lemma_months(y0 + 1);
    if doy == 365 {
        assert((y0 + 1) % 4 == 0);
        assert((y0 + 1) % 100 == (yoe + 1) % 100);
        assert((y0 + 1) % 400 == (yoe + 1) % 400);
        assert(leap_year(y0 + 1));
    }
    let mp = (5 * doy + 2) / 153;
    assert(mp == 0 || mp == 1 || mp == 2 || mp == 3 || mp == 4 || mp == 5 || mp == 6 || mp == 7
        || mp == 8 || mp == 9 || mp == 10 || mp == 11);
}

/// Converts a count of days since the Unix epoch into a civil date: year, month and
/// day of the proleptic Gregorian calendar.
pub fn civil_from_days(z: i64) -> (r: (i64, u32, u32))
    requires
        z <= i64::MAX - 719_468,
    ensures
        valid_date(r.0 as int, r.1 as int, r.2 as int),
        day_number(r.0 as int, r.1 as int, r.2 as int) == z,
{
    let z: i64 = z + 719_468;
    let era: i64 = if z >= 0 {
        z / 146_097
    } else {
        -(-(z + 1) / 146_097) - 1
    };
    let doe: i64 = z - era * 146_097;
    assert(0 <= doe <= 146_096);
    proof {
        lemma_year_of_era(doe as u32);
    }
    let yoe: i64 = (doe - doe / 1460 + doe / 36_524 - doe / 146_096) / 365;
    let y: i64 = yoe + era * 400;
    let doy: i64 = doe - (365 * yoe + yoe / 4 - yoe / 100);
    proof {
        lemma_civil(era as int, yoe as int, doy as int);
    }
    let mp: i64 = (5 * doy + 2) / 153;
    let d: u32 = (doy - (153 * mp + 2) / 5 + 1) as u32;
    let m: u32 = (if mp < 10 {
        mp + 3
    } else {
        mp - 9
    }) as u32;
    (if m <= 2 {
        y + 1
    } else {
        y
    }, m, d)
}

/// Every year is as long as the calendar says.
pub proof fn law_year_length(y: int)
    ensures
        year_start(y + 1) - year_start(y) == month_start(y, 12) + month_length(y, 12),
        year_start(y + 1) - year_start(y) == if leap_year(y) {
            366int
        } else {
            365
        },
{
    lemma_months(y);
    lemma_leap_years_step(y);
    reveal(year_start);
}

/// One date comes before another in the calendar.
pub open spec fn date_before(y1: int, m1: int, d1: int, y2: int, m2: int, d2: int) -> bool {
    y1 < y2 || (y1 == y2 && (m1 < m2 || (m1 == m2 && d1 < d2)))
}

proof fn lemma_year_starts_grow(y1: int, y2: int)
    requires
        y1 <= y2,
    ensures
        year_start(y1) <= year_start(y2),
    decreases y2 - y1,
{
    if y1 < y2 {
        lemma_year_starts_grow(y1, y2 - 1);
        law_year_length(y2 - 1);
    }
}

proof fn lemma_month_starts_grow(y: int, m1: int, m2: int)
    requires
        1 <= m1 < m2 <= 13,
    ensures
        month_start(y, m1) + month_length(y, m1) <= month_start(y, m2),
    decreases m2 - m1,
{
    if m1 + 1 < m2 {
        lemma_month_starts_grow(y, m1, m2 - 1);
    }
}

/// A later date has a greater day number, so no two dates share one.
pub proof fn law_day_numbers_follow_the_calendar(
    y1: int,
    m1: int,
    d1: int,
    y2: int,
    m2: int,
    d2: int,
)
    requires
        valid_date(y1, m1, d1),
        valid_date(y2, m2, d2),
    ensures
        date_before(y1, m1, d1, y2, m2, d2) == (day_number(y1, m1, d1) < day_number(y2, m2, d2)),
        day_number(y1, m1, d1) == day_number(y2, m2, d2) ==> y1 == y2 && m1 == m2 && d1 == d2,
{
    if date_before(y1, m1, d1, y2, m2, d2) {
        lemma_earlier(y1, m1, d1, y2, m2, d2);
    } else if date_before(y2, m2, d2, y1, m1, d1) {
        lemma_earlier(y2, m2, d2, y1, m1, d1);
    }
}

proof fn lemma_earlier(y1: int, m1: int, d1: int, y2: int, m2: int, d2: int)
    requires
        valid_date(y1, m1, d1),
        valid_date(y2, m2, d2),
        date_before(y1, m1, d1, y2, m2, d2),
    ensures
        day_number(y1, m1, d1) < day_number(y2, m2, d2),
{
    if y1 < y2 {
        law_year_length(y1);
        lemma_year_starts_grow(y1 + 1, y2);
        lemma_month_starts_grow(y1, m1, 13);
        assert(month_start(y1, 13) == month_start(y1, 12) + month_length(y1, 12));
        if m2 > 1 {
            lemma_month_starts_grow(y2, 1, m2);
        }
    } else if m1 < m2 {
        lemma_month_starts_grow(y1, m1, m2);
    }
}

/// A day from the epoch on lies in 1970 or later.
proof fn lemma_from_the_epoch(y: int, m: int, d: int)
    requires
        valid_date(y, m, d),
        day_number(y, m, d) >= 0,
    ensures
        y >= 1970,
{
    reveal(year_start);
    if y < 1970 {
        lemma_earlier(y, m, d, 1970, 1, 1);
    }
}

/// The RFC 3339 text of a date and a time of day in UTC, to the second.
pub open spec fn stamp(y: nat, m: nat, d: nat, hh: nat, mm: nat, ss: nat) -> Seq<char> {
    text::zero_padded(text::decimal(y), 4) + "-"@ + text::zero_padded(text::decimal(m), 2) + "-"@
        + text::zero_padded(text::decimal(d), 2) + "T"@ + text::zero_padded(text::decimal(hh), 2)
        + ":"@ + text::zero_padded(text::decimal(mm), 2) + ":"@ + text::zero_padded(
        text::decimal(ss),
        2,
    ) + "Z"@
}

/// `s` is the RFC 3339 text of the instant `secs` seconds after the Unix epoch.
pub open spec fn is_stamp_of(s: Seq<char>, secs: int) -> bool {
    exists|y: nat, m: nat, d: nat|
        {
            &&& valid_date(y as int, m as int, d as int)
            &&& day_number(y as int, m as int, d as int) == secs / 86_400
            &&& s == #[trigger] stamp(
                y,
                m,
                d,
                ((secs % 86_400) / 3600) as nat,
                ((secs % 3600) / 60) as nat,
                (secs % 60) as nat,
            )
        }
}

/// `s` is the RFC 3339 text of some instant from the Unix epoch on.
pub open spec fn is_stamp(s: Seq<char>) -> bool {
    exists|secs: u64| #[trigger] is_stamp_of(s, secs as int)
}

/// The epoch has a text.
pub proof fn lemma_epoch() -> (s: Seq<char>)
    ensures
        is_stamp(s),
{
    let secs = 0u64 as int;
    let s = stamp(
        1970,
        1,
        1,
        ((secs % 86_400) / 3600) as nat,
        ((secs % 3600) / 60) as nat,
        (secs % 60) as nat,
    );
    reveal(year_start);
    assert(valid_date(1970, 1, 1) && day_number(1970, 1, 1) == secs / 86_400);
    assert(is_stamp_of(s, secs));
    s
}

fn push_padded(out: &mut String, n: u64, width: usize)
    ensures
        final(out)@ == old(out)@ + text::zero_padded(text::decimal(n as nat), width as nat),
{
    let digits = text::pad_zeros(text::decimal_text(n), width);
    out.append(digits.as_str());
}

fn write_stamp(y: u64, mo: u64, d: u64, hh: u64, mm: u64, ss: u64) -> (r: String)
    ensures
        r@ == stamp(y as nat, mo as nat, d as nat, hh as nat, mm as nat, ss as nat),
{
    let mut out = String::new();
    push_padded(&mut out, y, 4);
    out.append("-");
    push_padded(&mut out, mo, 2);
    out.append("-");
    push_padded(&mut out, d, 2);
    out.append("T");
    push_padded(&mut out, hh, 2);
    out.append(":");
    push_padded(&mut out, mm, 2);
    out.append(":");
    push_padded(&mut out, ss, 2);
    out.append("Z");
    assert(out@ =~= stamp(y as nat, mo as nat, d as nat, hh as nat, mm as nat, ss as nat));
    out
}

/// The RFC 3339 text, in UTC and to the second, of the instant `secs` seconds after
/// the Unix epoch.
pub fn rfc3339(secs: u64) -> (r: String)
    ensures
        is_stamp_of(r@, secs as int),
{
    let days: i64 = (secs / 86_400) as i64;
    let rem: u64 = secs % 86_400;
    let (y, mo, d) = civil_from_days(days);
    assert(rem % 3600 == secs % 3600 && rem % 60 == secs % 60) by (nonlinear_arith)
        requires
            rem == secs % 86_400,
    ;
    proof {
        lemma_from_the_epoch(y as int, mo as int, d as int);
    }
    let out = write_stamp(y as u64, mo as u64, d as u64, rem / 3600, (rem % 3600) / 60, rem % 60);
    assert(out@ == stamp(
        y as nat,
        mo as nat,
        d as nat,
        ((secs as int % 86_400) / 3600) as nat,
        ((secs as int % 3600) / 60) as nat,
        (secs as int % 60) as nat,
    ));
    out
}

/// A point in time of the system clock.
#[verifier::external_type_specification]
#[verifier::external_body]
pub struct ExSystemTime(std::time::SystemTime);

/// What the system clock answers when one point in time is not after another.
#[verifier::external_type_specification]
#[verifier::external_body]
pub struct ExSystemTimeError(std::time::SystemTimeError);

/// `SystemTime::now` reads the system clock. What it reads is not stated.
pub assume_specification[ std::time::SystemTime::now ]() -> std::time::SystemTime
;

/// `SystemTime::duration_since` measures the time from an earlier point to this one,
/// and fails where the other point is the later one. How long it is is not stated.
pub assume_specification[ std::time::SystemTime::duration_since ](
    this: &std::time::SystemTime,
    earlier: std::time::SystemTime,
) -> Result<std::time::Duration, std::time::SystemTimeError>
;

/// `Duration::as_secs` gives the whole seconds of a duration. How many they are is
/// not stated.
pub assume_specification[ std::time::Duration::as_secs ](this: &std::time::Duration) -> u64
;

/// `std::time::UNIX_EPOCH`.
#[verifier::external_body]
fn unix_epoch() -> std::time::SystemTime {
    std::time::UNIX_EPOCH
}

/// The current time of the system clock as RFC 3339 text in UTC, to the second. A
/// clock that stands before the Unix epoch reads as the epoch.
pub fn rfc3339_now() -> (r: String)
    ensures
        is_stamp(r@),
{
    let now = std::time::SystemTime::now();
    let secs: u64 = match now.duration_since(unix_epoch()) {
        Ok(d) => d.as_secs(),
        Err(_) => 0,
    };
    rfc3339(secs)
}

} // verus!
