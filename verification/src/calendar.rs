//! Proleptic Gregorian calendar arithmetic on days counted from the Unix epoch.
use vstd::prelude::*;
use vstd::arithmetic::div_mod::lemma_fundamental_div_mod_converse_div;

verus! {

/// A Gregorian leap year: divisible by 4, except centuries not divisible by 400.
pub open spec fn is_leap_year(y: int) -> bool {
    (y % 4 == 0 && y % 100 != 0) || y % 400 == 0
}

/// Number of days in year `y`.
pub open spec fn days_in_year(y: int) -> int {
    if is_leap_year(y) {
        366
    } else {
        365
    }
}

/// Number of days in month `m` (1 = January) of year `y`.
pub open spec fn days_in_month(y: int, m: int) -> int {
    if m == 2 {
        if is_leap_year(y) {
            29
        } else {
            28
        }
    } else if m == 4 || m == 6 || m == 9 || m == 11 {
        30
    } else {
        31
    }
}

/// `(y, m, d)` names an existing day of the proleptic Gregorian calendar.
pub open spec fn is_valid_date(y: int, m: int, d: int) -> bool {
    1 <= m <= 12 && 1 <= d <= days_in_month(y, m)
}

/// Number of leap years among the years `1..=n` (counted with floor division,
/// so that differences give the count over any range of years).
pub open spec fn leap_years_through(n: int) -> int {
    n / 4 - n / 100 + n / 400
}

/// Signed number of days from 1970-01-01 to January 1st of year `y`.
pub open spec fn days_before_year(y: int) -> int {
    365 * (y - 1970) + leap_years_through(y - 1) - leap_years_through(1969)
}

/// Number of days from January 1st of year `y` to the first day of month `m`.
pub open spec fn days_before_month(y: int, m: int) -> int {
    let common: int = if m == 1 {
        0
    } else if m == 2 {
        31
    } else if m == 3 {
        59
    } else if m == 4 {
        90
    } else if m == 5 {
        120
    } else if m == 6 {
        151
    } else if m == 7 {
        181
    } else if m == 8 {
        212
    } else if m == 9 {
        243
    } else if m == 10 {
        273
    } else if m == 11 {
        304
    } else {
        334
    };
    if m > 2 && is_leap_year(y) {
        common + 1
    } else {
        common
    }
}

/// Signed number of days from 1970-01-01 to the date `(y, m, d)`.
pub open spec fn days_from_civil(y: int, m: int, d: int) -> int {
    days_before_year(y) + days_before_month(y, m) + d - 1
}

/// Days from the start of year-of-era `yoe` (years counted from March 1st) to the
/// start of the 400-year era.
spec fn march_year_start(yoe: int) -> int {
    365 * yoe + yoe / 4 - yoe / 100
}

/// Splitting a day of a 400-year era into a year of era and a day of that year.
proof fn lemma_year_of_era(doe: int)
    requires
        0 <= doe < 146097,
    ensures
        ({
            let yoe = (doe - doe / 1460 + doe / 36524 - doe / 146096) / 365;
            let doy = doe - march_year_start(yoe);
            &&& 0 <= yoe < 400
            &&& 0 <= doy < 365 + if is_leap_year(yoe + 1) {
                1int
            } else {
                0
            }
        }),
{
    if doe < 146096 {
        let c = doe / 36524;
        assert(0 <= c < 4);
        if c == 0 {
        } else if c == 1 {
        } else if c == 2 {
        } else {
        }
    }
}

/// Splitting a day of a March-based year into a month and a day of month.
proof fn lemma_month_of_year(doy: int, leap: bool)
    requires
        0 <= doy < 365 + if leap {
            1int
        } else {
            0
        },
    ensures
        ({
            let mp = (5 * doy + 2) / 153;
            let d = doy - (153 * mp + 2) / 5 + 1;
            let feb: int = if leap {
                29
            } else {
                28
            };
            &&& 0 <= mp < 12
            &&& 1 <= d
            &&& mp == 11 ==> d <= feb
            &&& (mp == 1 || mp == 3 || mp == 6 || mp == 8) ==> d <= 30
            &&& d <= 31
        }),
{
}

/// The day count of a date, written in March-based years.
proof fn lemma_march_based_count(y: int, m: int, d: int, my: int, mp: int)
    requires
        1 <= m <= 12,
        mp == (if m > 2 {
            m - 3
        } else {
            m + 9
        }),
        my == (if m > 2 {
            y
        } else {
            y - 1
        }),
    ensures
        days_from_civil(y, m, d) + 719468 == 365 * my + leap_years_through(my) + (153 * mp + 2) / 5
            + d - 1,
{
    let lt = leap_years_through(y) - leap_years_through(y - 1);
    assert(lt == if is_leap_year(y) {
        1int
    } else {
        0
    });
    assert(leap_years_through(1969) == 477);
}

/// The steps of the conversion from a day count to a date, stated over integers.
proof fn lemma_civil_steps(
    days: int,
    era: int,
    doe: int,
    yoe: int,
    doy: int,
    mp: int,
    d: int,
    m: int,
    y: int,
)
    requires
        era == (days + 719468) / 146097,
        doe == days + 719468 - era * 146097,
        yoe == (doe - doe / 1460 + doe / 36524 - doe / 146096) / 365,
        doy == doe - (365 * yoe + yoe / 4 - yoe / 100),
        mp == (5 * doy + 2) / 153,
        d == doy - (153 * mp + 2) / 5 + 1,
        m == (if mp < 10 {
            mp + 3
        } else {
            mp - 9
        }),
        y == yoe + era * 400 + (if m <= 2 {
            1int
        } else {
            0
        }),
    ensures
        is_valid_date(y, m, d),
        days_from_civil(y, m, d) == days,
{
    lemma_year_of_era(doe);
    let my = yoe + era * 400;
    let leap = is_leap_year(my + 1);
    assert(leap == is_leap_year(yoe + 1)) by {
        lemma_leap_year_period(yoe + 1, era);
    }
    lemma_month_of_year(doy, leap);
    assert(days + 719468 == 365 * my + leap_years_through(my) + doy) by {
        lemma_era_year_start(era, yoe);
    }
    lemma_march_based_count(y, m, d, my, mp);
    assert(m == 2 ==> y == my + 1);
}

/// Leap years repeat every 400 years.
proof fn lemma_leap_year_period(y: int, era: int)
    ensures
        is_leap_year(y + era * 400) == is_leap_year(y),
{
}

/// Start of a year of era, counted from the era's March-based calendar origin.
proof fn lemma_era_year_start(era: int, yoe: int)
    requires
        0 <= yoe < 400,
    ensures
        146097 * era + march_year_start(yoe) == 365 * (yoe + era * 400) + leap_years_through(
            yoe + era * 400,
        ),
{
    let y = yoe + era * 400;
    lemma_fundamental_div_mod_converse_div(y, 4, yoe / 4 + era * 100, yoe % 4);
    lemma_fundamental_div_mod_converse_div(y, 100, yoe / 100 + era * 4, yoe % 100);
    lemma_fundamental_div_mod_converse_div(y, 400, era, yoe);
}

/// Every day count, however large or negative, is the count of a valid date.
pub proof fn lemma_civil_total(days: int) -> (date: (int, int, int))
    ensures
        is_valid_date(date.0, date.1, date.2),
        days_from_civil(date.0, date.1, date.2) == days,
        date == date_of_day(days),
{
    let era = (days + 719468) / 146097;
    let doe = days + 719468 - era * 146097;
    let yoe = (doe - doe / 1460 + doe / 36524 - doe / 146096) / 365;
    let doy = doe - (365 * yoe + yoe / 4 - yoe / 100);
    let mp = (5 * doy + 2) / 153;
    let d = doy - (153 * mp + 2) / 5 + 1;
    let m = if mp < 10 {
        mp + 3
    } else {
        mp - 9
    };
    let y = yoe + era * 400 + if m <= 2 {
        1int
    } else {
        0
    };
    lemma_civil_steps(days, era, doe, yoe, doy, mp, d, m, y);
    lemma_date_of_day(days, y, m, d);
    (y, m, d)
}

/// Converts a day count since 1970-01-01 to the proleptic Gregorian date
/// `(year, month, day)` that lies that many days after 1970-01-01.
pub fn civil_from_days(days: i64) -> (r: (i64, u32, u32))
    requires
        days <= i64::MAX - 719468,
    ensures
        is_valid_date(r.0 as int, r.1 as int, r.2 as int),
        days_from_civil(r.0 as int, r.1 as int, r.2 as int) == days as int,
        (r.0 as int, r.1 as int, r.2 as int) == date_of_day(days as int),
{
    let z = days + 719468;
    let shifted = if z >= 0 {
        z
    } else {
        z - 146096
    };
    let era = shifted / 146097;
    assert(era as int == z as int / 146097);
    let doe = (z - era * 146097) as u64;
    proof {
        lemma_year_of_era(doe as int);
    }
    let yoe = (doe - doe / 1460 + doe / 36524 - doe / 146096) / 365;
    let y = yoe as i64 + era * 400;
    let doy = doe - (365 * yoe + yoe / 4 - yoe / 100);
    proof {
        lemma_month_of_year(doy as int, is_leap_year(yoe + 1));
    }
    let mp = (5 * doy + 2) / 153;
    let d = doy - (153 * mp + 2) / 5 + 1;
    let m = if mp < 10 {
        mp + 3
    } else {
        mp - 9
    };
    let y = if m <= 2 {
        y + 1
    } else {
        y
    };
    proof {
        lemma_civil_steps(
            days as int,
            era as int,
            doe as int,
            yoe as int,
            doy as int,
            mp as int,
            d as int,
            m as int,
            y as int,
        );
        lemma_date_of_day(days as int, y as int, m as int, d as int);
    }
    (y, m as u32, d as u32)
}

/// The date that lies `days` days after 1970-01-01 (the unique valid date whose
/// day count is `days`; see `lemma_date_of_day`).
pub open spec fn date_of_day(days: int) -> (int, int, int) {
    choose|date: (int, int, int)|
        is_valid_date(date.0, date.1, date.2) && days_from_civil(date.0, date.1, date.2) == days
}

/// January 1st of the next year comes `days_in_year(y)` days after January 1st of `y`:
/// `days_before_year` is the running sum of the year lengths.
pub proof fn lemma_days_before_next_year(y: int)
    ensures
        days_before_year(y + 1) == days_before_year(y) + days_in_year(y),
{
    lemma_quotient_step(y, 4);
    lemma_quotient_step(y, 100);
    lemma_quotient_step(y, 400);
}

/// Going from `y - 1` to `y` raises the quotient by `k` exactly at multiples of `k`.
proof fn lemma_quotient_step(y: int, k: int)
    requires
        k > 0,
    ensures
        y / k - (y - 1) / k == if y % k == 0 {
            1int
        } else {
            0
        },
{
    vstd::arithmetic::div_mod::lemma_fundamental_div_mod(y, k);
    let q = y / k;
    let r = y % k;
    vstd::arithmetic::div_mod::lemma_mod_bound(y, k);
    if r == 0 {
        assert(y - 1 == (q - 1) * k + (k - 1)) by (nonlinear_arith)
            requires
                y == k * q + r,
                r == 0,
        ;
        lemma_fundamental_div_mod_converse_div(y - 1, k, q - 1, k - 1);
    } else {
        assert(y - 1 == q * k + (r - 1)) by (nonlinear_arith)
            requires
                y == k * q + r,
        ;
        lemma_fundamental_div_mod_converse_div(y - 1, k, q, r - 1);
    }
}

/// The first day of the next month comes `days_in_month(y, m)` days after the
/// first day of month `m`, and December ends the year.
pub proof fn lemma_days_before_next_month(y: int, m: int)
    requires
        1 <= m <= 12,
    ensures
        m < 12 ==> days_before_month(y, m + 1) == days_before_month(y, m) + days_in_month(y, m),
        m == 12 ==> days_before_month(y, m) + days_in_month(y, m) == days_in_year(y),
        days_before_month(y, 1) == 0,
{
}

/// Later years start later.
pub proof fn lemma_days_before_year_monotone(a: int, b: int)
    requires
        a <= b,
    ensures
        days_before_year(a) <= days_before_year(b),
    decreases b - a,
{
    if a < b {
        lemma_days_before_next_year(a);
        lemma_days_before_year_monotone(a + 1, b);
    }
}

/// A valid date lies within its year, ordered by month and day.
pub proof fn lemma_date_offset_in_year(y: int, m: int, d: int)
    requires
        is_valid_date(y, m, d),
    ensures
        days_before_month(y, m) <= days_from_civil(y, m, d) - days_before_year(y) < days_before_month(
            y,
            m,
        ) + days_in_month(y, m),
        days_from_civil(y, m, d) < days_before_year(y) + days_in_year(y),
{
}

/// Distinct valid dates have distinct day counts.
pub proof fn lemma_days_from_civil_injective(y1: int, m1: int, d1: int, y2: int, m2: int, d2: int)
    requires
        is_valid_date(y1, m1, d1),
        is_valid_date(y2, m2, d2),
        days_from_civil(y1, m1, d1) == days_from_civil(y2, m2, d2),
    ensures
        y1 == y2 && m1 == m2 && d1 == d2,
{
    lemma_date_offset_in_year(y1, m1, d1);
    lemma_date_offset_in_year(y2, m2, d2);
    if y1 < y2 {
        lemma_days_before_next_year(y1);
        lemma_days_before_year_monotone(y1 + 1, y2);
    } else if y2 < y1 {
        lemma_days_before_next_year(y2);
        lemma_days_before_year_monotone(y2 + 1, y1);
    } else {
        if m1 != m2 {
            assert(days_before_month(y1, m1) + days_in_month(y1, m1) <= days_before_month(y1, m2)
                || days_before_month(y1, m2) + days_in_month(y1, m2) <= days_before_month(y1, m1));
        }
    }
}

/// `date_of_day` names the one valid date with the given day count.
pub proof fn lemma_date_of_day(days: int, y: int, m: int, d: int)
    requires
        is_valid_date(y, m, d),
        days_from_civil(y, m, d) == days,
    ensures
        date_of_day(days) == (y, m, d),
{
    let date = date_of_day(days);
    assert(is_valid_date(y, m, d) && days_from_civil(y, m, d) == days);
    assert(exists|t: (int, int, int)|
        is_valid_date(t.0, t.1, t.2) && days_from_civil(t.0, t.1, t.2) == days) by {
        let t = (y, m, d);
        assert(is_valid_date(t.0, t.1, t.2) && days_from_civil(t.0, t.1, t.2) == days);
    }
    lemma_days_from_civil_injective(date.0, date.1, date.2, y, m, d);
}

} // verus!
