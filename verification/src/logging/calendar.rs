//! Dates of the proleptic Gregorian calendar, counted in days from 1970-01-01.
use vstd::prelude::*;

use crate::text::{decimal_padded, push_char, push_decimal_padded};

verus! {

/// Whether `y` is a leap year of the proleptic Gregorian calendar.
pub open spec fn is_leap(y: int) -> bool {
    y % 4 == 0 && (y % 100 != 0 || y % 400 == 0)
}

/// The number of days in years `0 .. y` (year 0 is a leap year); negative for `y < 0`.
pub open spec fn days_before_year(y: int) -> int {
    365 * y + (y + 3) / 4 - (y + 99) / 100 + (y + 399) / 400
}

/// The number of days in the months of year `y` before month `m` (1 to 12).
pub open spec fn days_before_month(y: int, m: int) -> int {
    let before: int = if m == 1 {
        0
    } else if m == 2 {
        31
    } else if m == 3 {
        59
    } else if m == 4 {
        90
    } else if m == 5 {
        120
    } else if m == 6 {
        151
    } else if m == 7 {
        181
    } else if m == 8 {
        212
    } else if m == 9 {
        243
    } else if m == 10 {
        273
    } else if m == 11 {
        304
    } else {
        334
    };
    before + if m > 2 && is_leap(y) {
        1int
    } else {
        0int
    }
}

/// The number of days of month `m` (1 to 12) of year `y`.
pub open spec fn days_in_month(y: int, m: int) -> int {
    if m == 2 {
        if is_leap(y) {
            29
        } else {
            28
        }
    } else if m == 4 || m == 6 || m == 9 || m == 11 {
        30
    } else {
        31
    }
}

/// Whether `(y, m, d)` names a day of the calendar.
pub open spec fn valid_date(y: int, m: int, d: int) -> bool {
    1 <= m <= 12 && 1 <= d <= days_in_month(y, m)
}

/// The number of days from 1970-01-01 to the date `(y, m, d)`.
pub open spec fn days_from_epoch(y: int, m: int, d: int) -> int {
    days_before_year(y) + days_before_month(y, m) + d - 1 - days_before_year(1970)
}

/// Days from March 1 of year 0 of a 400-year cycle to March 1 of its year `yoe`.
spec fn march_years(yoe: int) -> int {
    365 * yoe + yoe / 4 - yoe / 100
}

/// The year within a cycle that contains day `doe` of the cycle, counted from March 1.
spec fn year_of_cycle(doe: int) -> int {
    (doe - doe / 1460 + doe / 36524 - doe / 146096) / 365
}

proof fn lemma_year_of_cycle(doe: int)
    requires
        0 <= doe <= 146096,
    ensures
        0 <= year_of_cycle(doe) <= 399,
        march_years(year_of_cycle(doe)) <= doe,
        doe < march_years(year_of_cycle(doe)) + 365 + if is_leap(year_of_cycle(doe) + 1) {
            1int
        } else {
            0int
        },
{
}


/// Days from March 1 to the first day of month `mp` of a year counted from March.
spec fn march_months(mp: int) -> int {
    (153 * mp + 2) / 5
}

proof fn lemma_month_of_year(doy: int)
    requires
        0 <= doy <= 365,
    ensures
        0 <= (5 * doy + 2) / 153 <= 11,
        march_months((5 * doy + 2) / 153) <= doy,
        doy < march_months((5 * doy + 2) / 153 + 1) || (5 * doy + 2) / 153 == 11,
{
    let mp = (5 * doy + 2) / 153;
    assert(0 <= mp <= 11);
    if mp == 0 {
    } else if mp == 1 {
    } else if mp == 2 {
    } else if mp == 3 {
    } else if mp == 4 {
    } else if mp == 5 {
    } else if mp == 6 {
    } else if mp == 7 {
    } else if mp == 8 {
    } else if mp == 9 {
    } else if mp == 10 {
    } else {
    }
}

/// The start of year `era * 400 + yoe` and its leap day, against the cycle's count.
proof fn lemma_cycle_start(era: int, yoe: int)
    requires
        0 <= yoe <= 399,
    ensures
        days_before_year(era * 400 + yoe) + (if is_leap(era * 400 + yoe) { 1int } else { 0int })
            == era * 146097 + march_years(yoe) + 1,
        is_leap(era * 400 + yoe + 1) == is_leap(yoe + 1),
{
    let y = era * 400 + yoe;
    assert((y + 3) / 4 == era * 100 + (yoe + 3) / 4);
    assert((y + 99) / 100 == era * 4 + (yoe + 99) / 100);
    assert((y + 399) / 400 == era + (yoe + 399) / 400);
    assert(y % 4 == yoe % 4);
    assert(y % 100 == yoe % 100);
    assert(y % 400 == yoe % 400);
    assert((y + 1) % 4 == (yoe + 1) % 4);
    assert((y + 1) % 100 == (yoe + 1) % 100);
    assert((y + 1) % 400 == (yoe + 1) % 400);
}

/// A day of the month `mp` (counted from March) of a cycle's year, as a calendar date.
proof fn lemma_assemble(era: int, yoe: int, doy: int, mp: int)
    requires
        0 <= yoe <= 399,
        0 <= mp <= 11,
        march_months(mp) <= doy,
        doy < march_months(mp + 1) || mp == 11,
        doy < 365 + if is_leap(yoe + 1) {
            1int
        } else {
            0int
        },
    ensures
        ({
            let m = if mp < 10 { mp + 3 } else { mp - 9 };
            let y = era * 400 + yoe + if m <= 2 { 1int } else { 0int };
            let d = doy - march_months(mp) + 1;
            &&& valid_date(y, m, d)
            &&& days_from_epoch(y, m, d) == era * 146097 + march_years(yoe) + doy - 719468
        }),
{
    lemma_cycle_start(era, yoe);
    lemma_next_year(era * 400 + yoe);
    assert(days_before_year(1970) == 719528);
}

/// One year more adds its own length.
proof fn lemma_next_year(y: int)
    ensures
        days_before_year(y + 1) == days_before_year(y) + 365 + if is_leap(y) {
            1int
        } else {
            0int
        },
{
    assert((y + 1 + 3) / 4 == (y + 3) / 4 + if y % 4 == 0 { 1int } else { 0int });
    assert((y + 1 + 99) / 100 == (y + 99) / 100 + if y % 100 == 0 { 1int } else { 0int });
    assert((y + 1 + 399) / 400 == (y + 399) / 400 + if y % 400 == 0 { 1int } else { 0int });
}

proof fn lemma_years_increase(a: int, b: int)
    requires
        a <= b,
    ensures
        days_before_year(a) + 365 * (b - a) <= days_before_year(b),
    decreases b - a,
{
    if a < b {
        lemma_years_increase(a, b - 1);
        lemma_next_year(b - 1);
    }
}

/// A valid date falls within its year.
proof fn lemma_within_year(y: int, m: int, d: int)
    requires
        valid_date(y, m, d),
    ensures
        days_before_year(y) <= days_before_year(y) + days_before_month(y, m) + d - 1,
        days_before_year(y) + days_before_month(y, m) + d - 1 < days_before_year(y + 1),
{
    lemma_next_year(y);
}

/// Two valid dates with the same day count are the same date.
pub proof fn lemma_date_unique(y1: int, m1: int, d1: int, y2: int, m2: int, d2: int)
    requires
        valid_date(y1, m1, d1),
        valid_date(y2, m2, d2),
        days_from_epoch(y1, m1, d1) == days_from_epoch(y2, m2, d2),
    ensures
        y1 == y2 && m1 == m2 && d1 == d2,
{
    lemma_within_year(y1, m1, d1);
    lemma_within_year(y2, m2, d2);
    if y1 < y2 {
        lemma_years_increase(y1 + 1, y2);
    } else if y2 < y1 {
        lemma_years_increase(y2 + 1, y1);
    }
    assert(y1 == y2);
}

/// The date that lies `z` days after 1970-01-01.
pub open spec fn civil_date(z: int) -> (int, int, int) {
    choose|t: (int, int, int)| valid_date(t.0, t.1, t.2) && days_from_epoch(t.0, t.1, t.2) == z
}

/// Converts a day count since the Unix epoch (1970-01-01) to a proleptic Gregorian
/// (year, month, day), using Howard Hinnant's `civil_from_days` algorithm.
pub fn civil_from_days(z: i64) -> (r: (i64, u32, u32))
    requires
        z <= i64::MAX - 719468,
    ensures
        valid_date(r.0 as int, r.1 as int, r.2 as int),
        days_from_epoch(r.0 as int, r.1 as int, r.2 as int) == z,
        (r.0 as int, r.1 as int, r.2 as int) == civil_date(z as int),
{
    let z = z + 719468;
    let era: i64 = if z >= 0 {
        ((z as u64) / 146097) as i64
    } else {
        let back: u64 = (146096 - z) as u64;
        -((back / 146097) as i64)
    };
    assert(era * 146097 <= z < era * 146097 + 146097);
    let doe: u64 = (z - era * 146097) as u64;
    let yoe: u64 = (doe - doe / 1460 + doe / 36524 - doe / 146096) / 365;
    proof {
        lemma_year_of_cycle(doe as int);
    }
    let y: i64 = yoe as i64 + era * 400;
    let doy: u64 = doe - (365 * yoe + yoe / 4 - yoe / 100);
    let mp: u64 = (5 * doy + 2) / 153;
    proof {
        lemma_month_of_year(doy as int);
    }
    let d: u32 = (doy - (153 * mp + 2) / 5 + 1) as u32;
    let m: u32 = if mp < 10 {
        (mp + 3) as u32
    } else {
        (mp - 9) as u32
    };
    let y: i64 = if m <= 2 {
        y + 1
    } else {
        y
    };
    proof {
        lemma_assemble(era as int, yoe as int, doy as int, mp as int);
        let w = (y as int, m as int, d as int);
        assert(valid_date(w.0, w.1, w.2) && days_from_epoch(w.0, w.1, w.2) == z - 719468);
        let t = civil_date(z - 719468);
        lemma_date_unique(y as int, m as int, d as int, t.0, t.1, t.2);
    }
    (y, m, d)
}

/// Seconds in a day.
pub const SECS_PER_DAY: u64 = 86400;

/// A date as `YYYY-MM-DD`, each part padded with zeros.
pub open spec fn date_text(t: (int, int, int)) -> Seq<char> {
    decimal_padded(t.0 as nat, 4) + seq!['-'] + decimal_padded(t.1 as nat, 2) + seq!['-']
        + decimal_padded(t.2 as nat, 2)
}

/// A day on or after the epoch lies in 1970 or later.
proof fn lemma_year_after_epoch(y: int, m: int, d: int)
    requires
        valid_date(y, m, d),
        days_from_epoch(y, m, d) >= 0,
    ensures
        y >= 1970,
{
    lemma_within_year(y, m, d);
    if y < 1970 {
        lemma_years_increase(y + 1, 1970);
    }
}

/// The UTC date of the instant `epoch_secs` seconds after the Unix epoch, as
/// `YYYY-MM-DD`.
pub fn date_string(epoch_secs: u64) -> (r: String)
    ensures
        r@ == date_text(civil_date((epoch_secs / SECS_PER_DAY) as int)),
{
    let days: u64 = epoch_secs / SECS_PER_DAY;
    let (y, m, d) = civil_from_days(days as i64);
    proof {
        lemma_year_after_epoch(y as int, m as int, d as int);
    }
    let mut out = String::new();
    push_decimal_padded(&mut out, y as u64, 4);
    push_char(&mut out, '-');
    push_decimal_padded(&mut out, m as u64, 2);
    push_char(&mut out, '-');
    push_decimal_padded(&mut out, d as u64, 2);
    proof {
        assert(out@ =~= date_text((y as int, m as int, d as int)));
    }
    out
}

} // verus!
