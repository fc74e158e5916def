//! When the next run of a recurring work order falls.

use vstd::prelude::*;
use crate::calendar::{
    FIRST_FOUR_DIGIT_SECOND, LAST_FOUR_DIGIT_SECOND, MAX_TIMESTAMP, civil_from_days, civil_from_days_exec,
    days_from_civil, days_from_civil_exec, days_in_month_of_year, format_utc_timestamp,
    lemma_civil_from_days_valid, lemma_month_start_increasing, lemma_month_start_of_date,
    month_start, spec_days_in_month, timestamp_text, weekday_of_day,
};
use crate::error::KernelError;
use crate::registry::RecurringWorkOrderScheduleRecord;
use crate::text::{owned, str_equals};

verus! {

pub open spec fn clamp(v: int, lo: int, hi: int) -> int {
    if v < lo {
        lo
    } else if v > hi {
        hi
    } else {
        v
    }
}

pub open spec fn or_default(o: Option<i64>, d: int) -> int {
    match o {
        Some(v) => v as int,
        None => d,
    }
}

/// Weekday numbers outside 0..=6 are pulled to the nearest end.
pub fn sanitize_schedule_day(day: i64) -> (r: i32)
    ensures
        r == clamp(day as int, 0, 6),
{
    if day < 0 {
        0
    } else if day > 6 {
        6
    } else {
        day as i32
    }
}

pub open spec fn run_interval(s: &RecurringWorkOrderScheduleRecord) -> int {
    if s.interval < 1 {
        1
    } else {
        s.interval as int
    }
}

pub open spec fn run_hour(s: &RecurringWorkOrderScheduleRecord) -> int {
    clamp(or_default(s.hour, 9), 0, 23)
}

pub open spec fn run_minute(s: &RecurringWorkOrderScheduleRecord) -> int {
    clamp(or_default(s.minute, 0), 0, 59)
}

/// Seconds after midnight at which daily, weekly and monthly runs fire.
pub open spec fn run_time_of_day(s: &RecurringWorkOrderScheduleRecord) -> int {
    run_hour(s) * 3600 + run_minute(s) * 60
}

/// Weekdays of a weekly schedule; none given means Monday.
pub open spec fn run_days(s: &RecurringWorkOrderScheduleRecord) -> Seq<i64> {
    match s.days_of_week {
        Some(v) => if v@.len() > 0 {
            v@
        } else {
            seq![1i64]
        },
        None => seq![1i64],
    }
}

pub open spec fn is_run_day(days: Seq<i64>, weekday: int) -> bool {
    exists|i: int| 0 <= i < days.len() && clamp(#[trigger] days[i] as int, 0, 6) == weekday
}

/// The remainder of `a` by `b` with the sign of `a`, as Rust's `%` gives it.
pub open spec fn truncated_rem(a: int, b: int) -> int {
    if a >= 0 {
        a % b
    } else {
        -((-a) % b)
    }
}

/// The hour is found by cutting `from` back to a multiple of 3600 towards
/// zero, as the kernel's integer arithmetic does.
pub open spec fn hourly_next(from: int, minute: int, interval: int) -> int {
    let c = from - truncated_rem(from, 3600) + minute * 60;
    if c <= from {
        c + 3600 * interval
    } else {
        c
    }
}

pub open spec fn daily_next(from: int, tod: int, interval: int) -> int {
    let c = (from / 86400) * 86400 + tod;
    if c <= from {
        c + 86400 * interval
    } else {
        c
    }
}

/// Day `k` after the day of `from` is a run day whose run time lies after `from`.
pub open spec fn weekly_ok(from: int, days: Seq<i64>, tod: int, k: int) -> bool {
    is_run_day(days, weekday_of_day(from / 86400 + k)) && (from / 86400 + k) * 86400 + tod > from
}

/// The first offset in `k..=limit` that is `weekly_ok`.
pub open spec fn weekly_first(from: int, days: Seq<i64>, tod: int, k: int, limit: int) -> Option<
    int,
>
    decreases limit - k + 1,
{
    if k > limit {
        None
    } else if weekly_ok(from, days, tod, k) {
        Some(k)
    } else {
        weekly_first(from, days, tod, k + 1, limit)
    }
}

pub open spec fn weekly_next(from: int, days: Seq<i64>, tod: int, interval: int) -> int {
    match weekly_first(from, days, tod, 0, 7 * interval) {
        Some(k) => (from / 86400 + k) * 86400 + tod,
        None => from + 7 * interval * 86400,
    }
}

pub open spec fn min_int(a: int, b: int) -> int {
    if a < b {
        a
    } else {
        b
    }
}

/// Monthly runs fire on the requested day (today's by default), cut to the
/// month's length; a month that overflows its day carries into the next one.
pub open spec fn monthly_next(from: int, day_of_month: Option<i64>, tod: int, interval: int) -> int {
    let (y, m, d) = civil_from_days(from / 86400);
    let day = clamp(or_default(day_of_month, if d > 1 { d } else { 1 }), 1, 31);
    let mday1 = min_int(day, spec_days_in_month(y, m - 1));
    let c1 = days_from_civil(y, m, mday1) * 86400 + tod;
    if c1 > from {
        c1
    } else {
        let tm = (m - 1) + interval;
        let n = days_from_civil(y + tm / 12, tm % 12 + 1, mday1);
        let (y3, m3, d3) = civil_from_days(n);
        let mday3 = min_int(day, spec_days_in_month(y3, m3 - 1));
        days_from_civil(y3, m3, mday3) * 86400 + tod
    }
}

/// The unix time of the next run after `from`.
pub open spec fn next_run(s: &RecurringWorkOrderScheduleRecord, from: int) -> int {
    if s.cadence@ == "hourly"@ {
        hourly_next(from, run_minute(s), run_interval(s))
    } else if s.cadence@ == "weekly"@ {
        weekly_next(from, run_days(s), run_time_of_day(s), run_interval(s))
    } else if s.cadence@ == "monthly"@ {
        monthly_next(from, s.day_of_month, run_time_of_day(s), run_interval(s))
    } else {
        daily_next(from, run_time_of_day(s), run_interval(s))
    }
}

/// The next run can be worked out in the kernel's 64-bit arithmetic: an
/// hourly run does not overflow; and, when `from` lies in the range a C
/// `struct tm` holds, a daily or weekly run does not overflow and a
/// monthly interval fits the C `int` month field.
pub open spec fn schedule_arithmetic_fits(s: &RecurringWorkOrderScheduleRecord, from: int) -> bool {
    if s.cadence@ == "hourly"@ {
        hourly_next(from, run_minute(s), run_interval(s)) <= i64::MAX
    } else if from > MAX_TIMESTAMP {
        true
    } else if s.cadence@ == "weekly"@ {
        from + 7 * run_interval(s) * 86400 <= i64::MAX
    } else if s.cadence@ == "monthly"@ {
        run_interval(s) <= i32::MAX - 11
    } else {
        daily_next(from, run_time_of_day(s), run_interval(s)) <= i64::MAX
    }
}

/// Error when a time lies outside what the C library's broken-down time holds.
pub open spec fn to_broken_down_error() -> Seq<char> {
    "Failed to convert unix timestamp into UTC time"@
}

/// Error when a broken-down time cannot be turned back into a timestamp.
pub open spec fn from_broken_down_error() -> Seq<char> {
    "Failed to convert UTC time into unix timestamp"@
}

fn clamp_exec(v: i64, lo: i64, hi: i64) -> (r: i64)
    requires
        lo <= hi,
    ensures
        r == clamp(v as int, lo as int, hi as int),
{
    if v < lo {
        lo
    } else if v > hi {
        hi
    } else {
        v
    }
}

fn is_run_day_exec(days: &Vec<i64>, weekday: i64) -> (r: bool)
    ensures
        r == is_run_day(days@, weekday as int),
{
    let mut i: usize = 0;
    while i < days.len()
        invariant
            i <= days.len(),
            forall|j: int| 0 <= j < i ==> clamp(#[trigger] days@[j] as int, 0, 6) != weekday,
        decreases days.len() - i,
    {
        if sanitize_schedule_day(days[i]) as i64 == weekday {
            return true;
        }
        i = i + 1;
    }
    false
}

proof fn lemma_weekly_first_skip(from: int, days: Seq<i64>, tod: int, k: int, limit: int)
    requires
        k <= limit,
        !weekly_ok(from, days, tod, k),
    ensures
        weekly_first(from, days, tod, k, limit) == weekly_first(from, days, tod, k + 1, limit),
{
}

/// Offset of the first run day within a week from `from`'s day always exists.
proof fn lemma_weekly_found_within_week(from: int, days: Seq<i64>, tod: int, k: int)
    requires
        0 <= k <= 7,
        from >= 0,
        0 <= tod < 86400,
        days.len() > 0,
        forall|j: int| 0 <= j < k ==> !weekly_ok(from, days, tod, j),
    ensures
        k < 7 || weekly_ok(from, days, tod, 7),
{
    if k == 7 {
        let w = clamp(days[0] as int, 0, 6);
        let d0 = from / 86400;
        let j = (w - (d0 + 4) % 7 + 7) % 7;
        assert(0 <= j < 7);
        assert(weekday_of_day(d0 + j) == w);
        assert(is_run_day(days, weekday_of_day(d0 + j)));
        assert(!weekly_ok(from, days, tod, j));
        assert((d0 + j) * 86400 + tod <= from);
        assert(weekday_of_day(d0 + 7) == weekday_of_day(d0 + j) || j != 0);
        assert(j == 0);
        assert(weekday_of_day(d0 + 7) == w);
        assert((d0 + 7) * 86400 + tod > from);
    }
}

fn weekly_next_exec(from: i64, days: &Vec<i64>, tod: i64, interval: i64) -> (r: i64)
    requires
        0 <= from <= MAX_TIMESTAMP,
        1 <= interval,
        from + 7 * interval * 86400 <= i64::MAX,
        0 <= tod < 86400,
        days@.len() > 0,
    ensures
        r == weekly_next(from as int, days@, tod as int, interval as int),
        from < r <= from + 8 * 86400,
{
    let day0 = from / 86400;
    let limit = 7 * interval;
    let mut k: i64 = 0;
    while k <= limit
        invariant
            0 <= k <= limit + 1,
            k <= 7,
            limit == 7 * interval,
            1 <= interval,
            from + 7 * interval * 86400 <= i64::MAX,
            0 <= from <= MAX_TIMESTAMP,
            0 <= tod < 86400,
            day0 == from / 86400,
            days@.len() > 0,
            weekly_first(from as int, days@, tod as int, 0, limit as int) == weekly_first(
                from as int,
                days@,
                tod as int,
                k as int,
                limit as int,
            ),
            forall|j: int| 0 <= j < k ==> !weekly_ok(from as int, days@, tod as int, j),
        decreases limit - k + 1,
    {
        proof {
            lemma_weekly_found_within_week(from as int, days@, tod as int, k as int);
        }
        let candidate = (day0 + k) * 86400 + tod;
        if is_run_day_exec(days, (day0 + k + 4) % 7) && candidate > from {
            assert(weekly_ok(from as int, days@, tod as int, k as int));
            return candidate;
        }
        proof {
            lemma_weekly_first_skip(from as int, days@, tod as int, k as int, limit as int);
        }
        k = k + 1;
    }
    assert(false);
    from + 7 * interval * 86400
}

fn min_i64(a: i64, b: i64) -> (r: i64)
    ensures
        r == min_int(a as int, b as int),
{
    if a < b {
        a
    } else {
        b
    }
}

fn monthly_next_exec(from: i64, day_of_month: Option<i64>, tod: i64, interval: i64) -> (r: i64)
    requires
        0 <= from <= MAX_TIMESTAMP,
        1 <= interval <= i32::MAX - 11,
        0 <= tod < 86400,
    ensures
        r == monthly_next(from as int, day_of_month, tod as int, interval as int),
        0 <= r,
{
    let date = civil_from_days_exec(from / 86400);
    let default_day = if date.day > 1 {
        date.day
    } else {
        1
    };
    let requested = match day_of_month {
        Some(v) => v,
        None => default_day,
    };
    let day = clamp_exec(requested, 1, 31);
    assert(from / 86400 <= 784352270736);
    let dim = days_in_month_of_year(date.year, date.month - 1);
    let mday1 = min_i64(day, dim);
    let c1 = days_from_civil_exec(date.year, date.month, mday1) * 86400 + tod;
    if c1 > from {
        return c1;
    }
    let tm = (date.month - 1) + interval;
    let n = days_from_civil_exec(date.year + tm / 12, tm % 12 + 1, mday1);
    let date3 = civil_from_days_exec(n);
    let dim3 = days_in_month_of_year(date3.year, date3.month - 1);
    let mday3 = min_i64(day, dim3);
    days_from_civil_exec(date3.year, date3.month, mday3) * 86400 + tod
}

/// Unix time of the next run of `schedule` after `from_unix_secs`.
pub fn next_run_unix(schedule: &RecurringWorkOrderScheduleRecord, from_unix_secs: i64) -> (r: i64)
    requires
        from_unix_secs <= MAX_TIMESTAMP,
        0 <= from_unix_secs || schedule.cadence@ == "hourly"@,
        from_unix_secs > i64::MIN,
        schedule_arithmetic_fits(schedule, from_unix_secs as int),
    ensures
        r == next_run(schedule, from_unix_secs as int),
        0 <= from_unix_secs ==> 0 <= r,
{
    let interval = if schedule.interval < 1 {
        1
    } else {
        schedule.interval
    };
    let hour = clamp_exec(
        match schedule.hour {
            Some(h) => h,
            None => 9,
        },
        0,
        23,
    );
    let minute = clamp_exec(
        match schedule.minute {
            Some(m) => m,
            None => 0,
        },
        0,
        59,
    );
    let from = from_unix_secs;
    let cadence = schedule.cadence.as_str();
    if str_equals(cadence, "hourly") {
        let rem = if from >= 0 {
            from % 3600
        } else {
            -((-from) % 3600)
        };
        assert(rem == truncated_rem(from as int, 3600));
        let candidate = from - rem + minute * 60;
        assert(minute == run_minute(schedule) && interval == run_interval(schedule));
        if candidate <= from {
            let later: i128 = candidate as i128 + 3600i128 * (interval as i128);
            assert(later == hourly_next(from as int, minute as int, interval as int));
            later as i64
        } else {
            candidate
        }
    } else if str_equals(cadence, "weekly") {
        let tod = hour * 3600 + minute * 60;
        match &schedule.days_of_week {
            Some(v) if v.len() > 0 => weekly_next_exec(from, v, tod, interval),
            _ => {
                let fallback = vec![1i64];
                assert(fallback@ =~= seq![1i64]);
                weekly_next_exec(from, &fallback, tod, interval)
            },
        }
    } else if str_equals(cadence, "monthly") {
        monthly_next_exec(from, schedule.day_of_month, hour * 3600 + minute * 60, interval)
    } else {
        let tod = hour * 3600 + minute * 60;
        let candidate = (from / 86400) * 86400 + tod;
        if candidate <= from {
            candidate + 86400 * interval
        } else {
            candidate
        }
    }
}

/// The next run of `schedule` after `from_unix_secs`, as `YYYY-MM-DD HH:MM:SS` UTC.
/// It fails when the start or the run lies beyond what a C `struct tm`
/// holds, and for a start before 1970 unless the schedule is hourly (the
/// times `timegm` then gives back are negative, which count as failures);
/// which of the two conversion errors comes is not stated.
pub fn compute_next_recurring_run_at(
    schedule: &RecurringWorkOrderScheduleRecord,
    from_unix_secs: i64,
) -> (r: Result<String, KernelError>)
    requires
        schedule_arithmetic_fits(schedule, from_unix_secs as int),
        schedule.cadence@ == "hourly"@ ==> FIRST_FOUR_DIGIT_SECOND <= next_run(
            schedule,
            from_unix_secs as int,
        ),
    ensures
        r is Ok <==> (from_unix_secs <= MAX_TIMESTAMP && (0 <= from_unix_secs
            || schedule.cadence@ == "hourly"@) && next_run(schedule, from_unix_secs as int)
            <= MAX_TIMESTAMP),
        r matches Ok(s) ==> s@ == timestamp_text(next_run(schedule, from_unix_secs as int)),
        r matches Ok(s) ==> (next_run(schedule, from_unix_secs as int) <= LAST_FOUR_DIGIT_SECOND
            ==> s@.len() == 19),
        r matches Err(e) ==> (e matches KernelError::Internal(m) && (m@ == to_broken_down_error()
            || m@ == from_broken_down_error())),
{
    if from_unix_secs > MAX_TIMESTAMP {
        return Err(KernelError::Internal(owned("Failed to convert unix timestamp into UTC time")));
    }
    let hourly = str_equals(schedule.cadence.as_str(), "hourly");
    if from_unix_secs < 0 && !hourly {
        return Err(KernelError::Internal(owned("Failed to convert UTC time into unix timestamp")));
    }
    assert(from_unix_secs > i64::MIN);
    let next = next_run_unix(schedule, from_unix_secs);
    if next > MAX_TIMESTAMP {
        let cadence = schedule.cadence.as_str();
        if str_equals(cadence, "weekly") || str_equals(cadence, "monthly") {
            return Err(KernelError::Internal(owned("Failed to convert UTC time into unix timestamp")));
        }
        return Err(KernelError::Internal(owned("Failed to convert unix timestamp into UTC time")));
    }
    proof {
        if 0 <= from_unix_secs {
            lemma_next_run_is_in_the_future(schedule, from_unix_secs as int);
        }
    }
    Ok(format_utc_timestamp(next))
}


proof fn lemma_weekly_first_sound(from: int, days: Seq<i64>, tod: int, k: int, limit: int)
    ensures
        weekly_first(from, days, tod, k, limit) matches Some(j) ==> k <= j <= limit && weekly_ok(
            from,
            days,
            tod,
            j,
        ),
    decreases limit - k + 1,
{
    if k <= limit && !weekly_ok(from, days, tod, k) {
        lemma_weekly_first_sound(from, days, tod, k + 1, limit);
    }
}

proof fn lemma_weekly_first_some(from: int, days: Seq<i64>, tod: int, k: int, limit: int, w: int)
    requires
        k <= w <= limit,
        weekly_ok(from, days, tod, w),
    ensures
        weekly_first(from, days, tod, k, limit) is Some,
    decreases w - k,
{
    if !weekly_ok(from, days, tod, k) {
        lemma_weekly_first_some(from, days, tod, k + 1, limit, w);
    }
}

/// A weekly schedule always finds a run day within the first week.
proof fn lemma_weekly_first_exists(from: int, days: Seq<i64>, tod: int, limit: int)
    requires
        from >= 0,
        0 <= tod < 86400,
        days.len() > 0,
        limit >= 7,
    ensures
        weekly_first(from, days, tod, 0, limit) is Some,
{
    if exists|j: int| 0 <= j < 7 && weekly_ok(from, days, tod, j) {
        let j = choose|j: int| 0 <= j < 7 && weekly_ok(from, days, tod, j);
        lemma_weekly_first_some(from, days, tod, 0, limit, j);
    } else {
        lemma_weekly_found_within_week(from, days, tod, 7);
        lemma_weekly_first_some(from, days, tod, 0, limit, 7);
    }
}

/// A monthly run lands at least one day after the day of `from`: the
/// month it is moved to starts after the month of `from` ends.
proof fn lemma_monthly_next_after(from: int, day_of_month: Option<i64>, tod: int, interval: int)
    requires
        0 <= from,
        0 <= tod < 86400,
        interval >= 1,
    ensures
        monthly_next(from, day_of_month, tod, interval) > from,
{
    let dd = from / 86400;
    let (y, m, d) = civil_from_days(dd);
    lemma_civil_from_days_valid(dd);
    let day = clamp(or_default(day_of_month, if d > 1 { d } else { 1 }), 1, 31);
    let mday1 = min_int(day, spec_days_in_month(y, m - 1));
    let c1 = days_from_civil(y, m, mday1) * 86400 + tod;
    if c1 <= from {
        let tm = (m - 1) + interval;
        let y2 = y + tm / 12;
        let m2 = tm % 12 + 1;
        let n = days_from_civil(y2, m2, mday1);
        let (y3, m3, d3) = civil_from_days(n);
        lemma_civil_from_days_valid(n);
        let mday3 = min_int(day, spec_days_in_month(y3, m3 - 1));
        let r = days_from_civil(y3, m3, mday3);
        let k = 12 * y + m - 1;
        let k2 = 12 * y2 + m2 - 1;
        let k3 = 12 * y3 + m3 - 1;
        vstd::arithmetic::div_mod::lemma_fundamental_div_mod(tm, 12);
        assert(k2 == k + interval);
        lemma_month_start_of_date(y, m, d);
        lemma_month_start_of_date(y2, m2, mday1);
        lemma_month_start_of_date(y3, m3, d3);
        lemma_month_start_of_date(y3, m3, mday3);
        assert(dd < month_start(k + 1));
        assert(month_start(k2) <= n);
        assert(n < month_start(k3 + 1));
        if k3 < k2 {
            lemma_month_start_increasing(k3 + 1, k2);
            assert(false);
        }
        lemma_month_start_increasing(k + 1, k2);
        lemma_month_start_increasing(k2, k3);
        assert(r >= dd + 1);
        vstd::arithmetic::div_mod::lemma_fundamental_div_mod(from, 86400);
        assert(r * 86400 >= (dd + 1) * 86400) by (nonlinear_arith)
            requires
                r >= dd + 1,
        ;
    }
}

/// Every schedule fires strictly after the time it is computed from.
pub proof fn lemma_next_run_is_in_the_future(s: &RecurringWorkOrderScheduleRecord, from: int)
    requires
        0 <= from || s.cadence@ == "hourly"@,
    ensures
        next_run(s, from) > from,
{
    let tod = run_time_of_day(s);
    let interval = run_interval(s);
    reveal_strlit("hourly");
    reveal_strlit("weekly");
    reveal_strlit("monthly");
    assert("weekly"@[0] != "hourly"@[0]);
    assert("monthly"@[0] != "hourly"@[0]);
    if s.cadence@ == "weekly"@ {
        lemma_weekly_first_exists(from, run_days(s), tod, 7 * interval);
        lemma_weekly_first_sound(from, run_days(s), tod, 0, 7 * interval);
    } else if s.cadence@ == "monthly"@ {
        lemma_monthly_next_after(from, s.day_of_month, tod, interval);
    }
}

proof fn lemma_hourly_time(from: int, minute: int, interval: int)
    requires
        0 <= from,
        0 <= minute < 60,
        interval >= 1,
    ensures
        hourly_next(from, minute, interval) % 3600 == minute * 60,
{
    let c = from - from % 3600 + minute * 60;
    vstd::arithmetic::div_mod::lemma_fundamental_div_mod(from, 3600);
    assert(c == (from / 3600) * 3600 + minute * 60);
    vstd::arithmetic::div_mod::lemma_fundamental_div_mod_converse(c, 3600, from / 3600, minute * 60);
    assert(c + 3600 * interval == (from / 3600 + interval) * 3600 + minute * 60) by (nonlinear_arith)
        requires
            c == (from / 3600) * 3600 + minute * 60,
    ;
    vstd::arithmetic::div_mod::lemma_fundamental_div_mod_converse(
        c + 3600 * interval,
        3600,
        from / 3600 + interval,
        minute * 60,
    );
}

proof fn lemma_day_time(d: int, tod: int)
    requires
        0 <= tod < 86400,
    ensures
        (d * 86400 + tod) % 86400 == tod,
        (d * 86400 + tod) / 86400 == d,
{
    vstd::arithmetic::div_mod::lemma_fundamental_div_mod_converse(d * 86400 + tod, 86400, d, tod);
}

proof fn lemma_daily_time(from: int, tod: int, interval: int)
    requires
        0 <= from,
        0 <= tod < 86400,
        interval >= 1,
    ensures
        daily_next(from, tod, interval) % 86400 == tod,
{
    lemma_day_time(from / 86400, tod);
    lemma_day_time(from / 86400 + interval, tod);
    assert((from / 86400) * 86400 + tod + 86400 * interval == (from / 86400 + interval) * 86400
        + tod) by (nonlinear_arith);
}

proof fn lemma_weekly_time(from: int, days: Seq<i64>, tod: int, interval: int)
    requires
        0 <= from,
        0 <= tod < 86400,
        interval >= 1,
        days.len() > 0,
    ensures
        weekly_next(from, days, tod, interval) % 86400 == tod,
        is_run_day(days, weekday_of_day(weekly_next(from, days, tod, interval) / 86400)),
{
    lemma_weekly_first_exists(from, days, tod, 7 * interval);
    lemma_weekly_first_sound(from, days, tod, 0, 7 * interval);
    let k = weekly_first(from, days, tod, 0, 7 * interval)->0;
    lemma_day_time(from / 86400 + k, tod);
}

proof fn lemma_monthly_time(from: int, day_of_month: Option<i64>, tod: int, interval: int)
    requires
        0 <= from,
        0 <= tod < 86400,
    ensures
        monthly_next(from, day_of_month, tod, interval) % 86400 == tod,
{
    let (y, m, d) = civil_from_days(from / 86400);
    let day = clamp(or_default(day_of_month, if d > 1 { d } else { 1 }), 1, 31);
    let mday1 = min_int(day, spec_days_in_month(y, m - 1));
    lemma_day_time(days_from_civil(y, m, mday1), tod);
    let tm = (m - 1) + interval;
    let n = days_from_civil(y + tm / 12, tm % 12 + 1, mday1);
    let (y3, m3, d3) = civil_from_days(n);
    let mday3 = min_int(day, spec_days_in_month(y3, m3 - 1));
    lemma_day_time(days_from_civil(y3, m3, mday3), tod);
}

/// Daily, weekly, monthly and custom runs fire at the scheduled hour and
/// minute; hourly runs fire at the scheduled minute of the hour.
pub proof fn lemma_next_run_time_of_day(s: &RecurringWorkOrderScheduleRecord, from: int)
    requires
        0 <= from,
    ensures
        s.cadence@ == "hourly"@ ==> next_run(s, from) % 3600 == run_minute(s) * 60,
        s.cadence@ != "hourly"@ ==> next_run(s, from) % 86400 == run_time_of_day(s),
{
    let tod = run_time_of_day(s);
    let interval = run_interval(s);
    if s.cadence@ == "hourly"@ {
        lemma_hourly_time(from, run_minute(s), interval);
    } else if s.cadence@ == "weekly"@ {
        lemma_weekly_time(from, run_days(s), tod, interval);
    } else if s.cadence@ == "monthly"@ {
        lemma_monthly_time(from, s.day_of_month, tod, interval);
    } else {
        lemma_daily_time(from, tod, interval);
    }
}

/// A weekly schedule only fires on one of its run days.
pub proof fn lemma_weekly_run_on_run_day(s: &RecurringWorkOrderScheduleRecord, from: int)
    requires
        0 <= from,
        s.cadence@ == "weekly"@,
    ensures
        is_run_day(run_days(s), weekday_of_day(next_run(s, from) / 86400)),
{
    let tod = run_time_of_day(s);
    let interval = run_interval(s);
    let days = run_days(s);
    assert(0 <= tod < 86400);
    assert(days.len() > 0);
    reveal_strlit("hourly");
    reveal_strlit("weekly");
    assert("weekly"@[0] != "hourly"@[0]);
    assert("weekly"@ != "hourly"@);
    assert(next_run(s, from) == weekly_next(from, days, tod, interval));
    lemma_weekly_time(from, days, tod, interval);
}

} // verus!
