//! Calendar decomposition of Unix timestamps, verified against a recursive
//! day-count model of the proleptic Gregorian calendar, and the timestamp
//! strings built from it.
use vstd::prelude::*;

use crate::text::{dec2, dec4, u64_to_dec2, u64_to_dec4, push_char};

verus! {

/// A Gregorian leap year.
pub open spec fn is_leap(y: int) -> bool {
    y % 4 == 0 && (y % 100 != 0 || y % 400 == 0)
}

/// Days in a year.
pub open spec fn days_in_year(y: int) -> int {
    if is_leap(y) {
        366
    } else {
        365
    }
}

/// Days from 1970-01-01 to the first day of year `y` (for `y >= 1970`).
pub open spec fn year_start_days(y: int) -> int
    decreases y - 1970,
{
    if y <= 1970 {
        0
    } else {
        year_start_days(y - 1) + days_in_year(y - 1)
    }
}

/// Days in a month (1-based) of a year with the given leapness.
pub open spec fn days_in_month(m: int, leap: bool) -> int {
    if m == 1 {
        31
    } else if m == 2 {
        if leap {
            29
        } else {
            28
        }
    } else if m == 3 {
        31
    } else if m == 4 {
        30
    } else if m == 5 {
        31
    } else if m == 6 {
        30
    } else if m == 7 {
        31
    } else if m == 8 {
        31
    } else if m == 9 {
        30
    } else if m == 10 {
        31
    } else if m == 11 {
        30
    } else {
        31
    }
}

/// Days from the start of the year to the first day of month `m` (1-based).
pub open spec fn month_start_days(m: int, leap: bool) -> int
    decreases m - 1,
{
    if m <= 1 {
        0
    } else {
        month_start_days(m - 1, leap) + days_in_month(m - 1, leap)
    }
}

/// The year, month and day are the calendar reading of a day count since
/// 1970-01-01: each component is in range and the day count falls inside the
/// named year and month.
pub open spec fn civil_ok(days: int, y: int, m: int, d: int) -> bool {
    &&& 1970 <= y
    &&& 1 <= m <= 12
    &&& 1 <= d <= days_in_month(m, is_leap(y))
    &&& days == year_start_days(y) + month_start_days(m, is_leap(y)) + (d - 1)
}

/// Seconds in the day 0..86400 split into clock components.
pub open spec fn clock_ok(sod: int, h: int, mi: int, s: int) -> bool {
    &&& h == sod / 3600
    &&& mi == sod % 3600 / 60
    &&& s == sod % 60
}

/// Last timestamp the formatter accepts; it lies late in the tenth
/// millennium, so every realistic clock value is far below it.
pub open spec fn max_timestamp() -> int {
    253234080000
}

/// Calendar date from a day count since 1970-01-01.
pub fn civil_from_days(days: u64) -> (r: (u64, u64, u64))
    requires
        days < 2930950,  // the formatter's last day; each year holds at least 365
    ensures
        civil_ok(days as int, r.0 as int, r.1 as int, r.2 as int),
        r.0 < 10000,
{
    let mut y: u64 = 1970;
    let mut d: u64 = days;
    loop
        invariant
            1970 <= y < 10000,
            year_start_days(y as int) + d == days,
            year_start_days(y as int) >= 365 * (y - 1970),
            days < 2930950,
        ensures
            d < days_in_year(y as int),
            1970 <= y < 10000,
            year_start_days(y as int) + d == days,
        decreases d,
    {
        let leap: bool = y % 4 == 0 && (y % 100 != 0 || y % 400 == 0);
        let diy: u64 = if leap {
            366
        } else {
            365
        };
        assert(diy == days_in_year(y as int));
        if d < diy {
            break ;
        }
        d = d - diy;
        y = y + 1;
        proof {
            // 365 days per year bound the year by the day count.
            assert(year_start_days(y as int) >= 365 * (y - 1970));
            assert(365 * (y - 1970) < 2930950);
        }
    }
    let leap: bool = y % 4 == 0 && (y % 100 != 0 || y % 400 == 0);
    assert(leap == is_leap(y as int));
    let mut m: u64 = 1;
    let mut dd: u64 = d;
    while dd >= month_days(m, leap)
        invariant
            1 <= m <= 12,
            leap == is_leap(y as int),
            month_start_days(m as int, leap) + dd == d,
            d < days_in_year(y as int),
        decreases 12 - m,
    {
        proof {
            if m == 12 {
                lemma_month_start_full(leap);
            }
        }
        dd = dd - month_days(m, leap);
        m = m + 1;
    }
    (y, m, dd + 1)
}

/// Days in one month, executable.
fn month_days(m: u64, leap: bool) -> (r: u64)
    requires
        1 <= m <= 12,
    ensures
        r == days_in_month(m as int, leap),
        1 <= r <= 31,
{
    if m == 1 {
        31
    } else if m == 2 {
        if leap {
            29
        } else {
            28
        }
    } else if m == 3 {
        31
    } else if m == 4 {
        30
    } else if m == 5 {
        31
    } else if m == 6 {
        30
    } else if m == 7 {
        31
    } else if m == 8 {
        31
    } else if m == 9 {
        30
    } else if m == 10 {
        31
    } else if m == 11 {
        30
    } else {
        31
    }
}

proof fn lemma_month_start_full(leap: bool)
    ensures
        month_start_days(12, leap) == (if leap { 335int } else { 334int }),
{
    reveal_with_fuel(month_start_days, 13);
}

/// The `YYYY-MM-DD_HH-MM-SS` form of a calendar time.
pub open spec fn stamp_chars(y: int, mo: int, d: int, h: int, mi: int, s: int) -> Seq<char> {
    dec4(y) + seq!['-'] + dec2(mo) + seq!['-'] + dec2(d) + seq!['_'] + dec2(h) + seq!['-'] + dec2(
        mi,
    ) + seq!['-'] + dec2(s)
}

/// A timestamp's calendar reading: the date from its whole days, the clock
/// from its seconds within the day.
pub open spec fn stamp_of_unix(now: int, y: int, mo: int, d: int, h: int, mi: int, s: int) -> bool {
    civil_ok(now / 86400, y, mo, d) && clock_ok(now % 86400, h, mi, s)
}

/// Formats a Unix timestamp as `YYYY-MM-DD_HH-MM-SS` in UTC.
pub fn format_timestamp(now: i64) -> (r: String)
    requires
        0 <= now < max_timestamp(),
    ensures
        exists|y: int, mo: int, d: int, h: int, mi: int, s: int|
            stamp_of_unix(now as int, y, mo, d, h, mi, s) && r@ == stamp_chars(y, mo, d, h, mi, s),
{
    let days: u64 = (now as u64) / 86400;
    let sod: u64 = (now as u64) % 86400;
    let (y, mo, d) = civil_from_days(days);
    let h: u64 = sod / 3600;
    let mi: u64 = sod % 3600 / 60;
    let s: u64 = sod % 60;
    let mut r = u64_to_dec4(y);
    push_char(&mut r, '-');
    let p = u64_to_dec2(mo);
    r.append(p.as_str());
    push_char(&mut r, '-');
    let p = u64_to_dec2(d);
    r.append(p.as_str());
    push_char(&mut r, '_');
    let p = u64_to_dec2(h);
    r.append(p.as_str());
    push_char(&mut r, '-');
    let p = u64_to_dec2(mi);
    r.append(p.as_str());
    push_char(&mut r, '-');
    let p = u64_to_dec2(s);
    r.append(p.as_str());
    proof {
        assert(r@ =~= stamp_chars(y as int, mo as int, d as int, h as int, mi as int, s as int));
        assert(stamp_of_unix(
            now as int,
            y as int,
            mo as int,
            d as int,
            h as int,
            mi as int,
            s as int,
        ));
    }
    r
}

/// The `YYYY-MM-DDTHH:MM:SS+00:00` form of a calendar time.
pub open spec fn rfc3339_chars(y: int, mo: int, d: int, h: int, mi: int, s: int) -> Seq<char> {
    dec4(y) + seq!['-'] + dec2(mo) + seq!['-'] + dec2(d) + seq!['T'] + dec2(h) + seq![':'] + dec2(
        mi,
    ) + seq![':'] + dec2(s) + "+00:00"@
}

/// Formats a Unix timestamp in RFC 3339 shape, at second resolution, UTC.
pub fn format_rfc3339_utc(now: i64) -> (r: String)
    requires
        0 <= now < max_timestamp(),
    ensures
        exists|y: int, mo: int, d: int, h: int, mi: int, s: int|
            stamp_of_unix(now as int, y, mo, d, h, mi, s) && r@ == rfc3339_chars(y, mo, d, h, mi, s),
{
    let days: u64 = (now as u64) / 86400;
    let sod: u64 = (now as u64) % 86400;
    let (y, mo, d) = civil_from_days(days);
    let h: u64 = sod / 3600;
    let mi: u64 = sod % 3600 / 60;
    let s: u64 = sod % 60;
    let mut r = u64_to_dec4(y);
    push_char(&mut r, '-');
    let p = u64_to_dec2(mo);
    r.append(p.as_str());
    push_char(&mut r, '-');
    let p = u64_to_dec2(d);
    r.append(p.as_str());
    push_char(&mut r, 'T');
    let p = u64_to_dec2(h);
    r.append(p.as_str());
    push_char(&mut r, ':');
    let p = u64_to_dec2(mi);
    r.append(p.as_str());
    push_char(&mut r, ':');
    let p = u64_to_dec2(s);
    r.append(p.as_str());
    r.append("+00:00");
    proof {
        assert(r@ =~= rfc3339_chars(y as int, mo as int, d as int, h as int, mi as int, s as int));
        assert(stamp_of_unix(
            now as int,
            y as int,
            mo as int,
            d as int,
            h as int,
            mi as int,
            s as int,
        ));
    }
    r
}

} // verus!
