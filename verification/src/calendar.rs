//! Dates of the Gregorian calendar and timestamps in their text form.

use crate::decimal::{decimal, padded_decimal, zero_padded};
use vstd::prelude::*;

verus! {

/// Whether `year` has a 29th of February.
pub open spec fn is_leap_year(year: int) -> bool {
    year % 4 == 0 && (year % 100 != 0 || year % 400 == 0)
}

/// The number of days of a month.
pub open spec fn days_in_month(year: int, month: int) -> int {
    if month == 2 {
        if is_leap_year(year) {
            29
        } else {
            28
        }
    } else if month == 4 || month == 6 || month == 9 || month == 11 {
        30
    } else {
        31
    }
}

/// Whether the calendar has this day.
pub open spec fn is_date(year: int, month: int, day: int) -> bool {
    1 <= month <= 12 && 1 <= day <= days_in_month(year, month)
}

/// The number of days of the year that come before a month.
pub open spec fn days_before_month(year: int, month: int) -> int
    decreases month,
{
    if month <= 1 {
        0
    } else {
        days_before_month(year, month - 1) + days_in_month(year, month - 1)
    }
}

/// The number of days from the first of January of the year 1 to that of `year`.
pub open spec fn days_before_year(year: int) -> int {
    365 * (year - 1) + (year - 1) / 4 - (year - 1) / 100 + (year - 1) / 400
}

/// The number of days from the first of January 1970 to a date.
pub open spec fn days_since_1970(year: int, month: int, day: int) -> int {
    days_before_year(year) - days_before_year(1970) + days_before_month(year, month) + day - 1
}

proof fn months_unrolled(year: int)
    ensures
        days_before_month(year, 1) == 0,
        days_before_month(year, 2) == 31,
        days_before_month(year, 3) == 31 + days_in_month(year, 2),
        days_before_month(year, 4) == 62 + days_in_month(year, 2),
        days_before_month(year, 5) == 92 + days_in_month(year, 2),
        days_before_month(year, 6) == 123 + days_in_month(year, 2),
        days_before_month(year, 7) == 153 + days_in_month(year, 2),
        days_before_month(year, 8) == 184 + days_in_month(year, 2),
        days_before_month(year, 9) == 215 + days_in_month(year, 2),
        days_before_month(year, 10) == 245 + days_in_month(year, 2),
        days_before_month(year, 11) == 276 + days_in_month(year, 2),
        days_before_month(year, 12) == 306 + days_in_month(year, 2),
{
    reveal_with_fuel(days_before_month, 13);
}

/// The days before a year grow by the length of the year.
proof fn next_year(year: int)
    ensures
        days_before_year(year + 1) == days_before_year(year) + if is_leap_year(year) {
            366int
        } else {
            365
        },
{
}

/// The number of days in the first `years` years of a cycle of 400 that starts on a first of
/// March.
spec fn cycle_days(years: int) -> int {
    365 * years + years / 4 - years / 100 + years / 400
}

/// Which year of the cycle holds a day of the cycle.
proof fn year_of_cycle(day: int, year: int)
    requires
        0 <= day < 146_097,
        year == (day - day / 1_460 + day / 36_524 - day / 146_096) / 365,
    ensures
        0 <= year < 400,
        cycle_days(year) <= day < cycle_days(year + 1),
{
    let c = if day / 36_524 == 4 {
        3
    } else {
        day / 36_524
    };
    let r = day - 36_524 * c;
    let q = r / 1_461;
    let t = r - 1_461 * q;
    let y = if t / 365 == 4 {
        3
    } else {
        t / 365
    };
    let e = (24 * c + q + t) / 1_460;
    assert(0 <= c <= 3 && 0 <= q <= 24 && 0 <= t <= 1_460 && 0 <= y <= 3);
    assert(day / 1_460 == 25 * c + q + e);
    assert(e == 0 || e == 1);
    assert(t - 365 * y == 365 ==> t == 1_460);
    assert(t == 1_460 ==> e == 1);
    assert(t - 365 * y == 0 ==> e == 0);
    assert(day / 36_524 - day / 146_096 == c);
    assert(year == 100 * c + 4 * q + y);
    let n = 100 * c + 4 * q + y;
    assert(n / 4 == 25 * c + q);
    assert(n / 100 == c);
    assert(n / 400 == 0);
    assert(cycle_days(n) == 36_524 * c + 1_461 * q + 365 * y);
    if y < 3 {
        assert((n + 1) / 4 == 25 * c + q);
        assert((n + 1) / 100 == c);
    } else {
        assert((n + 1) / 4 == 25 * c + q + 1);
        if q == 24 {
            assert((n + 1) / 100 == c + 1);
        } else {
            assert((n + 1) / 100 == c);
        }
    }
}

/// Which month, counted from March, holds a day of a year that starts on a first of March.
proof fn month_of_year(day: int, month: int)
    requires
        0 <= day <= 365,
        month == (5 * day + 2) / 153,
    ensures
        0 <= month <= 11,
        month == 0 ==> 0 <= day <= 30,
        month == 1 ==> 31 <= day <= 60,
        month == 2 ==> 61 <= day <= 91,
        month == 3 ==> 92 <= day <= 121,
        month == 4 ==> 122 <= day <= 152,
        month == 5 ==> 153 <= day <= 183,
        month == 6 ==> 184 <= day <= 213,
        month == 7 ==> 214 <= day <= 244,
        month == 8 ==> 245 <= day <= 274,
        month == 9 ==> 275 <= day <= 305,
        month == 10 ==> 306 <= day <= 336,
        month == 11 ==> 337 <= day <= 365,
{
}

/// The day number of a date whose year of the cycle is `year` and whose month counted from
/// March is `month`.
proof fn date_of_cycle(era: int, year: int, day_of_year: int, month: int)
    requires
        0 <= year < 400,
        0 <= day_of_year,
        cycle_days(year) + day_of_year < cycle_days(year + 1),
        month == (5 * day_of_year + 2) / 153,
    ensures
        0 <= month <= 11,
        ({
            let m = if month < 10 {
                month + 3
            } else {
                month - 9
            };
            let y = if m <= 2 {
                year + era * 400 + 1
            } else {
                year + era * 400
            };
            let d = day_of_year - (153 * month + 2) / 5 + 1;
            &&& is_date(y, m, d)
            &&& days_since_1970(y, m, d) == era * 146_097 + cycle_days(year) + day_of_year
                - 719_468
        }),
{
    let full = year + era * 400;
    assert(full / 4 == year / 4 + era * 100);
    assert(full / 100 == year / 100 + era * 4);
    assert(full / 400 == year / 400 + era);
    assert((full + 1) / 4 == (year + 1) / 4 + era * 100);
    assert((full + 1) / 100 == (year + 1) / 100 + era * 4);
    assert((full + 1) / 400 == (year + 1) / 400 + era);
    assert(days_before_year(full + 1) == era * 146_097 + cycle_days(year));
    assert(days_before_year(full + 2) == era * 146_097 + cycle_days(year + 1) + 0);
    next_year(full);
    next_year(full + 1);
    assert(days_before_year(1970) == 719_162);
    month_of_year(day_of_year, month);
    months_unrolled(full);
    months_unrolled(full + 1);
}

/// The date that is `days_since_epoch` days after the first of January 1970.
pub fn civil_from_days(days_since_epoch: i64) -> (r: (i64, u64, u64))
    requires
        days_since_epoch <= i64::MAX - 719_468,
    ensures
        is_date(r.0 as int, r.1 as int, r.2 as int),
        days_since_1970(r.0 as int, r.1 as int, r.2 as int) == days_since_epoch,
{
    let days: i64 = days_since_epoch + 719_468;
    let era: i64 = days.checked_div_euclid(146_097).unwrap();
    let day_of_era: i64 = days - era * 146_097;
    assert(0 <= day_of_era < 146_097);
    let year_of_era: i64 = (day_of_era - day_of_era / 1_460 + day_of_era / 36_524 - day_of_era
        / 146_096) / 365;
    proof {
        year_of_cycle(day_of_era as int, year_of_era as int);
    }
    let mut year: i64 = year_of_era + era * 400;
    let day_of_year: i64 = day_of_era - (365 * year_of_era + year_of_era / 4 - year_of_era / 100);
    proof {
        date_of_cycle(
            era as int,
            year_of_era as int,
            day_of_year as int,
            (5 * day_of_year + 2) / 153,
        );
    }
    let month_prime: i64 = (5 * day_of_year + 2) / 153;
    let day: i64 = day_of_year - (153 * month_prime + 2) / 5 + 1;
    let month: i64 = month_prime + if month_prime < 10 {
        3
    } else {
        -9
    };
    if month <= 2 {
        year += 1;
    }
    (year, month as u64, day as u64)
}

proof fn year_start_monotone(a: int, b: int)
    requires
        a <= b,
    ensures
        days_before_year(a) <= days_before_year(b),
{
}

proof fn day_within_year(year: int, month: int, day: int)
    requires
        is_date(year, month, day),
    ensures
        0 <= days_before_month(year, month) + day - 1 < days_before_year(year + 1)
            - days_before_year(year),
{
    months_unrolled(year);
    next_year(year);
}

/// No two dates have the same number of days.
pub proof fn days_determine_date(y: int, m: int, d: int, y2: int, m2: int, d2: int)
    requires
        is_date(y, m, d),
        is_date(y2, m2, d2),
        days_since_1970(y, m, d) == days_since_1970(y2, m2, d2),
    ensures
        y == y2 && m == m2 && d == d2,
{
    day_within_year(y, m, d);
    day_within_year(y2, m2, d2);
    if y < y2 {
        year_start_monotone(y + 1, y2);
    } else if y2 < y {
        year_start_monotone(y2 + 1, y);
    }
    months_unrolled(y);
}

/// The date that is `days` days after the first of January 1970: year, month and day.
pub open spec fn date_of(days: int) -> (int, int, int) {
    choose|t: (int, int, int)|
        is_date(t.0, t.1, t.2) && #[trigger] days_since_1970(t.0, t.1, t.2) == days
}

/// The text of a time of day in milliseconds: hours, minutes, seconds and milliseconds.
pub open spec fn clock_text(ms_of_day: nat) -> Seq<char> {
    zero_padded(decimal(ms_of_day / 3_600_000), 2) + seq![':'] + zero_padded(
        decimal(ms_of_day / 60_000 % 60),
        2,
    ) + seq![':'] + zero_padded(decimal(ms_of_day / 1_000 % 60), 2) + seq!['.'] + zero_padded(
        decimal(ms_of_day % 1_000),
        3,
    )
}

/// The text of a date: year, month and day.
pub open spec fn date_text(date: (int, int, int)) -> Seq<char> {
    zero_padded(decimal(date.0 as nat), 4) + seq!['-'] + zero_padded(decimal(date.1 as nat), 2)
        + seq!['-'] + zero_padded(decimal(date.2 as nat), 2)
}

/// The text of a time in milliseconds since the start of 1970, as in
/// `2024-02-29T12:34:56.789Z`.
pub open spec fn timestamp_text(timestamp_ms: nat) -> Seq<char> {
    date_text(date_of(timestamp_ms as int / 86_400_000)) + seq!['T'] + clock_text(
        timestamp_ms % 86_400_000,
    ) + seq!['Z']
}

fn render_date(year: u64, month: u64, day: u64) -> (r: String)
    ensures
        r@ == date_text((year as int, month as int, day as int)),
{
    let mut r = padded_decimal(year, 4);
    r.append("-");
    r.append(padded_decimal(month, 2).as_str());
    r.append("-");
    r.append(padded_decimal(day, 2).as_str());
    proof {
        reveal_strlit("-");
        assert("-"@ =~= seq!['-']);
    }
    r
}

fn render_clock(ms_of_day: u64) -> (r: String)
    ensures
        r@ == clock_text(ms_of_day as nat),
{
    let mut r = padded_decimal(ms_of_day / 3_600_000, 2);
    r.append(":");
    r.append(padded_decimal(ms_of_day / 60_000 % 60, 2).as_str());
    r.append(":");
    r.append(padded_decimal(ms_of_day / 1_000 % 60, 2).as_str());
    r.append(".");
    r.append(padded_decimal(ms_of_day % 1_000, 3).as_str());
    proof {
        reveal_strlit(":");
        reveal_strlit(".");
        assert(":"@ =~= seq![':']);
        assert("."@ =~= seq!['.']);
    }
    r
}

/// The text of a time in milliseconds since the start of 1970.
pub fn format_timestamp_ms(timestamp_ms: u64) -> (r: String)
    ensures
        r@ == timestamp_text(timestamp_ms as nat),
{
    let days: i64 = (timestamp_ms / 86_400_000) as i64;
    let (year, month, day) = civil_from_days(days);
    proof {
        let chosen = date_of(days as int);
        assert(days_since_1970(year as int, month as int, day as int) == days);
        days_determine_date(
            year as int,
            month as int,
            day as int,
            chosen.0,
            chosen.1,
            chosen.2,
        );
        if year < 1970 {
            day_within_year(year as int, month as int, day as int);
            year_start_monotone(year + 1, 1970);
        }
        reveal_strlit("T");
        reveal_strlit("Z");
        assert("T"@ =~= seq!['T']);
        assert("Z"@ =~= seq!['Z']);
    }
    let mut r = render_date(year as u64, month, day);
    r.append("T");
    r.append(render_clock(timestamp_ms % 86_400_000).as_str());
    r.append("Z");
    r
}

proof fn clock_parts(days: int, hour: nat, minute: nat, second: nat, ms: nat)
    requires
        days >= 0,
        hour < 24,
        minute < 60,
        second < 60,
        ms < 1000,
    ensures
        ({
            let whole = (days * 86_400_000 + hour * 3_600_000 + minute * 60_000 + second * 1_000
                + ms) as nat;
            let of_day = whole % 86_400_000;
            &&& whole as int / 86_400_000 == days
            &&& of_day / 3_600_000 == hour
            &&& of_day / 60_000 % 60 == minute
            &&& of_day / 1_000 % 60 == second
            &&& of_day % 1_000 == ms
        }),
{
    let of_day = (hour * 3_600_000 + minute * 60_000 + second * 1_000 + ms) as nat;
    let whole = (days * 86_400_000 + of_day) as nat;
    assert(whole as int / 86_400_000 == days && whole % 86_400_000 == of_day);
}

proof fn date_is_found(year: int, month: int, day: int)
    requires
        is_date(year, month, day),
    ensures
        date_of(days_since_1970(year, month, day)) == (year, month, day),
{
    let days = days_since_1970(year, month, day);
    let t = (year, month, day);
    assert(is_date(t.0, t.1, t.2) && days_since_1970(t.0, t.1, t.2) == days);
    let chosen = date_of(days);
    days_determine_date(chosen.0, chosen.1, chosen.2, year, month, day);
}

/// A time is written as its date and its clock, year first and milliseconds last.
#[verifier::rlimit(50)]
pub proof fn time_is_written(
    year: int,
    month: int,
    day: int,
    hour: nat,
    minute: nat,
    second: nat,
    ms: nat,
)
    requires
        is_date(year, month, day),
        days_since_1970(year, month, day) >= 0,
        hour < 24,
        minute < 60,
        second < 60,
        ms < 1000,
    ensures
        timestamp_text(
            (days_since_1970(year, month, day) * 86_400_000 + hour * 3_600_000 + minute * 60_000
                + second * 1_000 + ms) as nat,
        ) == zero_padded(decimal(year as nat), 4) + seq!['-'] + zero_padded(
            decimal(month as nat),
            2,
        ) + seq!['-'] + zero_padded(decimal(day as nat), 2) + seq!['T'] + (zero_padded(
            decimal(hour),
            2,
        ) + seq![':'] + zero_padded(decimal(minute), 2) + seq![':'] + zero_padded(
            decimal(second),
            2,
        ) + seq!['.'] + zero_padded(decimal(ms), 3)) + seq!['Z'],
{
    let days = days_since_1970(year, month, day);
    clock_parts(days, hour, minute, second, ms);
    date_is_found(year, month, day);
}

/// Days are counted one by one from the first of January 1970: through a month, from its end into the
/// next, and from the end of the year into the next. February has a day more in every fourth year,
/// but not in the last of a century, unless that is every fourth such.
pub proof fn days_are_counted(year: int, month: int, day: int)
    ensures
        days_since_1970(1970, 1, 1) == 0,
        is_date(year, month, day + 1) ==> days_since_1970(year, month, day + 1) == days_since_1970(
            year,
            month,
            day,
        ) + 1,
        1 <= month < 12 ==> days_since_1970(year, month + 1, 1) == days_since_1970(
            year,
            month,
            days_in_month(year, month),
        ) + 1,
        days_since_1970(year + 1, 1, 1) == days_since_1970(year, 12, 31) + 1,
        month == 1 || month == 3 || month == 5 || month == 7 || month == 8 || month == 10 || month
            == 12 ==> days_in_month(year, month) == 31,
        month == 4 || month == 6 || month == 9 || month == 11 ==> days_in_month(year, month) == 30,
        year % 400 == 0 || (year % 4 == 0 && year % 100 != 0) ==> days_in_month(year, 2) == 29,
        !(year % 400 == 0 || (year % 4 == 0 && year % 100 != 0)) ==> days_in_month(year, 2) == 28,
        is_date(year, month, day) <==> 1 <= month <= 12 && 1 <= day <= days_in_month(year, month),
{
    months_unrolled(year);
    months_unrolled(year + 1);
    next_year(year);
}

} // verus!
