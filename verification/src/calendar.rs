//! UTC civil-time arithmetic on unix timestamps (proleptic Gregorian calendar).

use vstd::prelude::*;
use crate::text::{nat_text, push_char, u64_text};

verus! {

pub open spec fn spec_is_leap_year(year: int) -> bool {
    (year % 4 == 0 && year % 100 != 0) || year % 400 == 0
}

pub fn is_leap_year(year: i32) -> (r: bool)
    ensures
        r == spec_is_leap_year(year as int),
{
    let a: i64 = if year < 0 {
        -(year as i64)
    } else {
        year as i64
    };
    proof {
        lemma_divisible_abs(year as int, 4);
        lemma_divisible_abs(year as int, 100);
        lemma_divisible_abs(year as int, 400);
    }
    (a % 4 == 0 && a % 100 != 0) || a % 400 == 0
}

proof fn lemma_divisible_abs(y: int, k: int)
    requires
        k > 0,
    ensures
        (y % k == 0) == ((if y < 0 {
            -y
        } else {
            y
        }) % k == 0),
{
    if y < 0 {
        if y % k == 0 {
            assert((-y) % k == 0) by (nonlinear_arith)
                requires
                    k > 0,
                    y % k == 0,
            {
                assert(y == k * (y / k));
                assert(-y == k * (-(y / k)));
                vstd::arithmetic::div_mod::lemma_mod_multiples_basic(-(y / k), k);
            }
        }
        if (-y) % k == 0 {
            assert(y % k == 0) by (nonlinear_arith)
                requires
                    k > 0,
                    (-y) % k == 0,
            {
                assert(-y == k * ((-y) / k));
                assert(y == k * (-((-y) / k)));
                vstd::arithmetic::div_mod::lemma_mod_multiples_basic(-((-y) / k), k);
            }
        }
    }
}

/// Length of a month; months are numbered from 0 and out-of-range months count 30 days.
pub open spec fn spec_days_in_month(year: int, month_zero_based: int) -> int {
    if month_zero_based == 0 || month_zero_based == 2 || month_zero_based == 4 || month_zero_based
        == 6 || month_zero_based == 7 || month_zero_based == 9 || month_zero_based == 11 {
        31
    } else if month_zero_based == 3 || month_zero_based == 5 || month_zero_based == 8
        || month_zero_based == 10 {
        30
    } else if month_zero_based == 1 {
        if spec_is_leap_year(year) {
            29
        } else {
            28
        }
    } else {
        30
    }
}

pub fn days_in_month(year: i32, month_zero_based: i32) -> (r: i32)
    ensures
        r == spec_days_in_month(year as int, month_zero_based as int),
{
    match month_zero_based {
        0 | 2 | 4 | 6 | 7 | 9 | 11 => 31,
        3 | 5 | 8 | 10 => 30,
        1 => {
            if is_leap_year(year) {
                29
            } else {
                28
            }
        },
        _ => 30,
    }
}

/// Length of a month of a year from 0 on; months are numbered from 0.
pub fn days_in_month_of_year(year: i64, month_zero_based: i64) -> (r: i64)
    requires
        year >= 0,
    ensures
        r == spec_days_in_month(year as int, month_zero_based as int),
{
    if month_zero_based == 0 || month_zero_based == 2 || month_zero_based == 4 || month_zero_based
        == 6 || month_zero_based == 7 || month_zero_based == 9 || month_zero_based == 11 {
        31
    } else if month_zero_based == 3 || month_zero_based == 5 || month_zero_based == 8
        || month_zero_based == 10 {
        30
    } else if month_zero_based == 1 {
        if (year % 4 == 0 && year % 100 != 0) || year % 400 == 0 {
            29
        } else {
            28
        }
    } else {
        30
    }
}

/// A calendar date: year, month (1..=12) and day of month (1..=31).
pub struct CivilDate {
    pub year: i64,
    pub month: i64,
    pub day: i64,
}

/// The date `z` days after 1970-01-01 (H. Hinnant's `civil_from_days`).
pub closed spec fn civil_from_days(z: int) -> (int, int, int) {
    let zz = z + 719468;
    let era = zz / 146097;
    let doe = zz - era * 146097;
    let yoe = (doe - doe / 1460 + doe / 36524 - doe / 146096) / 365;
    let doy = doe - (365 * yoe + yoe / 4 - yoe / 100);
    let mp = (5 * doy + 2) / 153;
    let d = doy - (153 * mp + 2) / 5 + 1;
    let m = if mp < 10 {
        mp + 3
    } else {
        mp - 9
    };
    let y = yoe + era * 400 + (if m <= 2 {
        1int
    } else {
        0int
    });
    (y, m, d)
}

/// Days from 1970-01-01 to the given date (H. Hinnant's `days_from_civil`);
/// `month` is in 1..=12 and `day` may run past the end of the month.
pub closed spec fn days_from_civil(year: int, month: int, day: int) -> int {
    let y = if month <= 2 {
        year - 1
    } else {
        year
    };
    let era = y / 400;
    let yoe = y - era * 400;
    let mp = if month > 2 {
        month - 3
    } else {
        month + 9
    };
    let doy = (153 * mp + 2) / 5 + day - 1;
    let doe = yoe * 365 + yoe / 4 - yoe / 100 + doy;
    era * 146097 + doe - 719468
}

/// Day of the week of day `z` after 1970-01-01, with 0 for Sunday.
pub open spec fn weekday_of_day(z: int) -> int {
    (z + 4) % 7
}

/// Day count of 9999-12-31, the last day with a four-digit year.
pub const MAX_DAY: i64 = 2932896;

/// Largest day count the calendar arithmetic handles: the end of year
/// 4000000400.
pub const MAX_CIVIL_DAY: i64 = 1460969426934;

/// Largest year the calendar arithmetic handles.
pub const MAX_CIVIL_YEAR: i64 = 4000000400;

pub fn civil_from_days_exec(z: i64) -> (r: CivilDate)
    requires
        -719468 <= z <= MAX_CIVIL_DAY,
    ensures
        (r.year as int, r.month as int, r.day as int) == civil_from_days(z as int),
        0 <= r.year,
        0 <= z ==> 1970 <= r.year,
        z <= MAX_DAY ==> r.year <= 9999,
        r.year <= 400 * ((z + 719468) / 146097) + 400,
        1 <= r.month <= 12,
        1 <= r.day <= 31,
{
    let zz: i64 = z + 719468;
    let era: i64 = zz / 146097;
    let doe: i64 = zz - era * 146097;
    assert(0 <= doe < 146097);
    let yoe: i64 = (doe - doe / 1460 + doe / 36524 - doe / 146096) / 365;
    assert(0 <= yoe <= 399);
    let doy: i64 = doe - (365 * yoe + yoe / 4 - yoe / 100);
    assert(0 <= doy <= 365) by {
        assert(doe - doe / 1460 + doe / 36524 - doe / 146096 >= 365 * yoe);
        assert(doe - doe / 1460 + doe / 36524 - doe / 146096 < 365 * yoe + 365);
    }
    let mp: i64 = (5 * doy + 2) / 153;
    let d: i64 = doy - (153 * mp + 2) / 5 + 1;
    let m: i64 = if mp < 10 {
        mp + 3
    } else {
        mp - 9
    };
    let y: i64 = yoe + era * 400 + (if m <= 2 {
        1i64
    } else {
        0i64
    });
    CivilDate { year: y, month: m, day: d }
}


pub fn days_from_civil_exec(year: i64, month: i64, day: i64) -> (r: i64)
    requires
        1970 <= year <= MAX_CIVIL_YEAR + 1000,
        1 <= month <= 12,
        1 <= day <= 62,
    ensures
        r == days_from_civil(year as int, month as int, day as int),
        r >= 0,
        r <= 366 * (year - 1969) + 62,
{
    let y: i64 = if month <= 2 {
        year - 1
    } else {
        year
    };
    let era: i64 = y / 400;
    let yoe: i64 = y - era * 400;
    let mp: i64 = if month > 2 {
        month - 3
    } else {
        month + 9
    };
    let doy: i64 = (153 * mp + 2) / 5 + day - 1;
    let doe: i64 = yoe * 365 + yoe / 4 - yoe / 100 + doy;
    era * 146097 + doe - 719468
}

/// The first day of month `k`, months being counted from January of year 0.
pub open spec fn month_start(k: int) -> int {
    days_from_civil(k / 12, k % 12 + 1, 1)
}

/// Within an era, a March-based year reaches a 366th day only when the
/// February that closes it is a leap February.
proof fn lemma_era_last_day_is_leap(doe: u32, yoe: u32)
    by (bit_vector)
    requires
        doe < 146097,
        yoe < 400,
        365 * yoe + doe / 1460 + doe / 146096 <= doe + doe / 36524,
        doe + doe / 36524 < 365 * yoe + 365 + doe / 1460 + doe / 146096,
        365 + 365 * yoe + yoe / 4 == doe + yoe / 100,
    ensures
        yoe % 4 == 3,
        yoe % 100 != 99 || yoe == 399,
{
}

/// Leap years repeat every 400 years.
proof fn lemma_leap_year_period(k: int, era: int)
    ensures
        spec_is_leap_year(k + 400 * era) == spec_is_leap_year(k),
{
    vstd::arithmetic::div_mod::lemma_mod_multiples_vanish(100 * era, k, 4);
    vstd::arithmetic::div_mod::lemma_mod_multiples_vanish(4 * era, k, 100);
    vstd::arithmetic::div_mod::lemma_mod_multiples_vanish(era, k, 400);
    assert(4 * (100 * era) + k == k + 400 * era);
    assert(100 * (4 * era) + k == k + 400 * era);
    assert(400 * era + k == k + 400 * era);
}

/// `civil_from_days` gives a real date (its day lies within its month), and
/// `days_from_civil` takes that date back to the same day count.
pub proof fn lemma_civil_from_days_valid(z: int)
    ensures
        1 <= civil_from_days(z).1 <= 12,
        1 <= civil_from_days(z).2 <= spec_days_in_month(
            civil_from_days(z).0,
            civil_from_days(z).1 - 1,
        ),
        days_from_civil(civil_from_days(z).0, civil_from_days(z).1, civil_from_days(z).2) == z,
{
    let zz = z + 719468;
    let era = zz / 146097;
    let doe = zz - era * 146097;
    assert(0 <= doe < 146097);
    let yoe = (doe - doe / 1460 + doe / 36524 - doe / 146096) / 365;
    assert(0 <= yoe <= 399);
    let doy = doe - (365 * yoe + yoe / 4 - yoe / 100);
    assert(0 <= doy <= 365) by {
        assert(doe - doe / 1460 + doe / 36524 - doe / 146096 >= 365 * yoe);
        assert(doe - doe / 1460 + doe / 36524 - doe / 146096 < 365 * yoe + 365);
    }
    let mp = (5 * doy + 2) / 153;
    assert(0 <= mp <= 11);
    let d = doy - (153 * mp + 2) / 5 + 1;
    let m = if mp < 10 {
        mp + 3
    } else {
        mp - 9
    };
    let y = yoe + era * 400 + (if m <= 2 {
        1int
    } else {
        0int
    });
    assert(civil_from_days(z) == (y, m, d));
    let yy = if m <= 2 {
        y - 1
    } else {
        y
    };
    vstd::arithmetic::div_mod::lemma_fundamental_div_mod_converse(yy, 400, era, yoe);
    assert(days_from_civil(y, m, d) == z);
    if mp == 11 && doy == 365 {
        lemma_era_last_day_is_leap(doe as u32, yoe as u32);
        lemma_leap_year_period(yoe + 1, era);
        assert(y == yoe + 1 + 400 * era);
        assert(spec_is_leap_year(y));
    }
}

/// Month `12 * y + m - 1` is the month of the date `y-m-1`; a date lies
/// `day - 1` days after the first of its month, and each month starts as
/// many days after the previous one as that one has.
pub proof fn lemma_month_start_of_date(y: int, m: int, day: int)
    requires
        1 <= m <= 12,
    ensures
        days_from_civil(y, m, day) == month_start(12 * y + m - 1) + day - 1,
        month_start(12 * y + m) == month_start(12 * y + m - 1) + spec_days_in_month(y, m - 1),
{
    vstd::arithmetic::div_mod::lemma_fundamental_div_mod_converse(12 * y + m - 1, 12, y, m - 1);
    if m < 12 {
        vstd::arithmetic::div_mod::lemma_fundamental_div_mod_converse(12 * y + m, 12, y, m);
    } else {
        vstd::arithmetic::div_mod::lemma_fundamental_div_mod_converse(12 * y + m, 12, y + 1, 0);
    }
    if m == 2 {
        let era = y / 400;
        let k = y % 400;
        vstd::arithmetic::div_mod::lemma_fundamental_div_mod(y, 400);
        if k >= 1 {
            vstd::arithmetic::div_mod::lemma_fundamental_div_mod_converse(y - 1, 400, era, k - 1);
        } else {
            vstd::arithmetic::div_mod::lemma_fundamental_div_mod_converse(y - 1, 400, era - 1, 399);
        }
        lemma_leap_year_period(k, era);
        assert(y == k + 400 * era);
    }
}

/// Later months start later, by at least 28 days a month.
pub proof fn lemma_month_start_increasing(a: int, b: int)
    requires
        a <= b,
    ensures
        month_start(a) + 28 * (b - a) <= month_start(b),
    decreases b - a,
{
    if a < b {
        lemma_month_start_increasing(a, b - 1);
        let k = b - 1;
        vstd::arithmetic::div_mod::lemma_fundamental_div_mod(k, 12);
        lemma_month_start_of_date(k / 12, k % 12 + 1, 1);
        assert(12 * (k / 12) + (k % 12 + 1) - 1 == k);
    }
}

/// The character of a decimal digit.
pub open spec fn digit(k: int) -> char {
    (48 + k) as char
}

fn digit_exec(k: i64) -> (c: char)
    requires
        0 <= k <= 9,
    ensures
        c == digit(k as int),
{
    let b: u8 = 48u8 + (k as u8);
    b as char
}

pub open spec fn two_digits(v: int) -> Seq<char> {
    seq![digit(v / 10), digit(v % 10)]
}

pub open spec fn four_digits(v: int) -> Seq<char> {
    seq![digit(v / 1000), digit((v / 100) % 10), digit((v / 10) % 10), digit(v % 10)]
}

fn push_two_digits(s: &mut String, v: i64)
    requires
        0 <= v <= 99,
    ensures
        final(s)@ == old(s)@ + two_digits(v as int),
{
    push_char(s, digit_exec(v / 10));
    push_char(s, digit_exec(v % 10));
    assert(final(s)@ =~= old(s)@ + two_digits(v as int));
}

fn push_four_digits(s: &mut String, v: i64)
    requires
        0 <= v <= 9999,
    ensures
        final(s)@ == old(s)@ + four_digits(v as int),
{
    push_char(s, digit_exec(v / 1000));
    push_char(s, digit_exec((v / 100) % 10));
    push_char(s, digit_exec((v / 10) % 10));
    push_char(s, digit_exec(v % 10));
    assert(final(s)@ =~= old(s)@ + four_digits(v as int));
}

/// Last second of 9999-12-31, the last with a four-digit year.
pub const LAST_FOUR_DIGIT_SECOND: i64 = 253402300799;

/// First second of 1000-01-01, the first with a four-digit year.
pub const FIRST_FOUR_DIGIT_SECOND: i64 = -30610224000;

/// Latest timestamp that a C `struct tm` can hold (its year is an `int`
/// counted from 1900): the last second of year 2147485547.
pub const MAX_TIMESTAMP: i64 = 67768036191676799;

/// A year as `%Y` writes it: four digits at least.
pub open spec fn year_text(y: int) -> Seq<char> {
    if y <= 9999 {
        four_digits(y)
    } else {
        nat_text(y as nat)
    }
}

/// `t` rendered as `YYYY-MM-DD HH:MM:SS` in UTC.
pub open spec fn timestamp_text(t: int) -> Seq<char> {
    let (y, m, d) = civil_from_days(t / 86400);
    let secs = t % 86400;
    year_text(y) + seq!['-'] + two_digits(m) + seq!['-'] + two_digits(d) + seq![' ']
        + two_digits(secs / 3600) + seq![':'] + two_digits((secs % 3600) / 60) + seq![':']
        + two_digits(secs % 60)
}

/// Formats a unix timestamp as `YYYY-MM-DD HH:MM:SS` in UTC.
pub fn format_utc_timestamp(unix_secs: i64) -> (r: String)
    requires
        FIRST_FOUR_DIGIT_SECOND <= unix_secs <= MAX_TIMESTAMP,
    ensures
        r@ == timestamp_text(unix_secs as int),
        unix_secs <= LAST_FOUR_DIGIT_SECOND ==> r@.len() == 19,
{
    let (days, secs) = if unix_secs >= 0 {
        (unix_secs / 86400, unix_secs % 86400)
    } else {
        let back = -unix_secs;
        if back % 86400 == 0 {
            (-(back / 86400), 0i64)
        } else {
            (-(back / 86400) - 1, 86400 - back % 86400)
        }
    };
    assert(days == unix_secs as int / 86400 && secs == unix_secs as int % 86400) by {
        if unix_secs < 0 {
            let back = -unix_secs;
            vstd::arithmetic::div_mod::lemma_fundamental_div_mod(back as int, 86400);
            if back % 86400 == 0 {
                vstd::arithmetic::div_mod::lemma_fundamental_div_mod_converse(
                    unix_secs as int,
                    86400,
                    days as int,
                    0,
                );
            } else {
                vstd::arithmetic::div_mod::lemma_fundamental_div_mod_converse(
                    unix_secs as int,
                    86400,
                    days as int,
                    secs as int,
                );
            }
        }
    }
    let date = civil_from_days_exec(days);
    let mut s = String::new();
    if date.year <= 9999 {
        push_four_digits(&mut s, date.year);
    } else {
        let y = u64_text(date.year as u64);
        s.append(y.as_str());
    }
    push_char(&mut s, '-');
    push_two_digits(&mut s, date.month);
    push_char(&mut s, '-');
    push_two_digits(&mut s, date.day);
    push_char(&mut s, ' ');
    push_two_digits(&mut s, secs / 3600);
    push_char(&mut s, ':');
    push_two_digits(&mut s, (secs % 3600) / 60);
    push_char(&mut s, ':');
    push_two_digits(&mut s, secs % 60);
    assert(s@ =~= timestamp_text(unix_secs as int));
    s
}

pub open spec fn three_digits(v: int) -> Seq<char> {
    seq![digit(v / 100), digit((v / 10) % 10), digit(v % 10)]
}

/// `ms` (milliseconds since the epoch) rendered as
/// `YYYY-MM-DDTHH:MM:SS.mmmZ`, the form of SQLite's
/// `strftime('%Y-%m-%dT%H:%M:%fZ')`.
pub open spec fn iso_timestamp_text(ms: int) -> Seq<char> {
    let t = ms / 1000;
    let (y, m, d) = civil_from_days(t / 86400);
    let secs = t % 86400;
    four_digits(y) + seq!['-'] + two_digits(m) + seq!['-'] + two_digits(d) + seq!['T']
        + two_digits(secs / 3600) + seq![':'] + two_digits((secs % 3600) / 60) + seq![':']
        + two_digits(secs % 60) + seq!['.'] + three_digits(ms % 1000) + seq!['Z']
}

/// Formats a time in milliseconds since the epoch as an ISO-8601 UTC
/// timestamp with milliseconds.
pub fn format_iso_timestamp_ms(unix_ms: i64) -> (r: String)
    requires
        0 <= unix_ms <= LAST_FOUR_DIGIT_SECOND * 1000 + 999,
    ensures
        r@ == iso_timestamp_text(unix_ms as int),
        r@.len() == 24,
{
    let unix_secs = unix_ms / 1000;
    let millis = unix_ms % 1000;
    let days = unix_secs / 86400;
    let secs = unix_secs % 86400;
    let date = civil_from_days_exec(days);
    let mut s = String::new();
    push_four_digits(&mut s, date.year);
    push_char(&mut s, '-');
    push_two_digits(&mut s, date.month);
    push_char(&mut s, '-');
    push_two_digits(&mut s, date.day);
    push_char(&mut s, 'T');
    push_two_digits(&mut s, secs / 3600);
    push_char(&mut s, ':');
    push_two_digits(&mut s, (secs % 3600) / 60);
    push_char(&mut s, ':');
    push_two_digits(&mut s, secs % 60);
    push_char(&mut s, '.');
    push_char(&mut s, digit_exec(millis / 100));
    push_char(&mut s, digit_exec((millis / 10) % 10));
    push_char(&mut s, digit_exec(millis % 10));
    push_char(&mut s, 'Z');
    assert(s@ =~= iso_timestamp_text(unix_ms as int));
    s
}

} // verus!
