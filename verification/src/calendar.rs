//! Timestamps as UTC dates of the proleptic Gregorian calendar.

use vstd::prelude::*;

use crate::text::{dec, dec_text, pad_left, padded_left};

verus! {

/// A day of the calendar.
pub struct Date {
    pub year: int,
    pub month: int,
    pub day: int,
}

/// Whether a year has 366 days.
pub open spec fn is_leap(year: int) -> bool {
    year % 4 == 0 && (year % 100 != 0 || year % 400 == 0)
}

/// How many leap years there are from year 1 up to `year`; negative before.
pub open spec fn leaps_through(year: int) -> int {
    year / 4 - year / 100 + year / 400
}

/// The days from 1970-01-01 to the first day of `year`.
pub open spec fn year_start(year: int) -> int {
    365 * (year - 1970) + leaps_through(year - 1) - leaps_through(1969)
}

/// How many days a month has.
pub open spec fn month_days(year: int, month: int) -> int {
    if month == 2 {
        if is_leap(year) {
            29
        } else {
            28
        }
    } else if month == 4 || month == 6 || month == 9 || month == 11 {
        30
    } else {
        31
    }
}

/// The days from the first day of a year to the first day of a month.
pub open spec fn month_start(year: int, month: int) -> int
    decreases month,
{
    if month <= 1 {
        0
    } else {
        month_start(year, month - 1) + month_days(year, month - 1)
    }
}

/// Whether the day that lies `days` days behind 1970-01-01 is the given date.
pub open spec fn falls_on(days: int, date: Date) -> bool {
    &&& 1 <= date.month <= 12
    &&& 1 <= date.day <= month_days(date.year, date.month)
    &&& days == year_start(date.year) + month_start(date.year, date.month) + date.day - 1
}

/// The date of the day that lies `days` days behind 1970-01-01.
pub open spec fn date_of(days: int) -> Date {
    choose|date: Date| falls_on(days, date)
}

/// A year with at least four characters, its sign among them.
pub open spec fn year_text(year: int) -> Seq<char> {
    if year < 0 {
        "-"@ + pad_left(dec((-year) as nat), 3, '0')
    } else {
        pad_left(dec(year as nat), 4, '0')
    }
}

/// A number with at least two digits.
pub open spec fn two_digits(n: int) -> Seq<char> {
    pad_left(dec(n as nat), 2, '0')
}

/// A point in time, given in seconds since 1970, as text.
pub open spec fn time_text(secs: int) -> Seq<char> {
    let date = date_of(secs / 86400);
    let second = secs % 86400;
    year_text(date.year) + "-"@ + two_digits(date.month) + "-"@ + two_digits(date.day) + "T"@
        + two_digits(second / 3600) + ":"@ + two_digits(second / 60 % 60) + ":"@ + two_digits(
        second % 60,
    ) + "Z"@
}

proof fn lemma_year_length(year: int)
    ensures
        year_start(year + 1) == year_start(year) + if is_leap(year) {
            366int
        } else {
            365
        },
{
}

proof fn lemma_years_in_order(a: int, b: int)
    requires
        a < b,
    ensures
        year_start(a + 1) <= year_start(b),
    decreases b - a,
{
    if a + 1 < b {
        lemma_years_in_order(a, b - 1);
        lemma_year_length(b - 1);
    }
}

proof fn lemma_months_fill_the_year(year: int)
    ensures
        month_start(year, 13) == year_start(year + 1) - year_start(year),
{
    lemma_year_length(year);
    reveal_with_fuel(month_start, 14);
}

proof fn lemma_months_in_order(year: int, a: int, b: int)
    requires
        1 <= a < b,
    ensures
        0 <= month_start(year, a),
        month_start(year, a) + month_days(year, a) <= month_start(year, b),
    decreases b,
{
    if a > 1 {
        lemma_months_in_order(year, a - 1, a);
    }
    if a + 1 < b {
        lemma_months_in_order(year, a, b - 1);
    }
}

proof fn lemma_day_in_year(days: int, date: Date)
    requires
        falls_on(days, date),
    ensures
        year_start(date.year) <= days < year_start(date.year + 1),
{
    lemma_months_in_order(date.year, date.month, 13);
    lemma_months_fill_the_year(date.year);
}

/// No day has two dates.
pub proof fn law_dates_are_unambiguous(days: int, a: Date, b: Date)
    requires
        falls_on(days, a),
        falls_on(days, b),
    ensures
        a == b,
{
    lemma_day_in_year(days, a);
    lemma_day_in_year(days, b);
    if a.year < b.year {
        lemma_years_in_order(a.year, b.year);
    } else if b.year < a.year {
        lemma_years_in_order(b.year, a.year);
    }
    if a.month < b.month {
        lemma_months_in_order(a.year, a.month, b.month);
    } else if b.month < a.month {
        lemma_months_in_order(a.year, b.month, a.month);
    }
}

/// The day after the given one.
pub open spec fn next_date(date: Date) -> Date {
    if date.day < month_days(date.year, date.month) {
        Date { day: date.day + 1, ..date }
    } else if date.month < 12 {
        Date { year: date.year, month: date.month + 1, day: 1 }
    } else {
        Date { year: date.year + 1, month: 1, day: 1 }
    }
}

/// The calendar runs on day by day: behind the day with a date comes the day
/// with the next date.
pub proof fn law_days_follow_each_other(days: int, date: Date)
    requires
        falls_on(days, date),
    ensures
        falls_on(days + 1, next_date(date)),
{
    lemma_months_fill_the_year(date.year);
    if date.day == month_days(date.year, date.month) && date.month == 12 {
        assert(month_start(date.year, 13) == month_start(date.year, 12) + month_days(
            date.year,
            12,
        ));
    }
}

/// 1970-01-01 is day zero.
pub proof fn law_epoch()
    ensures
        falls_on(0, Date { year: 1970, month: 1, day: 1 }),
{
}

proof fn lemma_four_centuries(year: int, eras: int)
    ensures
        is_leap(year + 400 * eras) == is_leap(year),
        year_start(year + 400 * eras) == year_start(year) + 146097 * eras,
{
    assert((year + 400 * eras) % 4 == year % 4);
    assert((year + 400 * eras) % 100 == year % 100);
    assert((year + 400 * eras) % 400 == year % 400);
    let y = year - 1;
    assert((y + 400 * eras) / 4 == y / 4 + 100 * eras);
    assert((y + 400 * eras) / 100 == y / 100 + 4 * eras);
    assert((y + 400 * eras) / 400 == y / 400 + eras);
}

proof fn lemma_same_months(a: int, b: int, month: int)
    requires
        is_leap(a) == is_leap(b),
    ensures
        month_start(a, month) == month_start(b, month),
    decreases month,
{
    if month > 1 {
        lemma_same_months(a, b, month - 1);
    }
}

fn leap(year: u32) -> (out: bool)
    ensures
        out == is_leap(year as int),
{
    year % 4 == 0 && (year % 100 != 0 || year % 400 == 0)
}

fn days_of_month(year: u32, month: u32) -> (n: u32)
    ensures
        n == month_days(year as int, month as int),
{
    if month == 2 {
        if leap(year) {
            29
        } else {
            28
        }
    } else if month == 4 || month == 6 || month == 9 || month == 11 {
        30
    } else {
        31
    }
}

/// The quotient towards minus infinity and the remainder that goes with it.
fn floor_div(n: i64, d: u32) -> (out: (i64, u32))
    requires
        d >= 2,
    ensures
        out.0 == n as int / d as int,
        out.1 == n as int % d as int,
        out.1 < d,
{
    let w: u64 = d as u64;
    if n >= 0 {
        let m: u64 = n as u64;
        proof {
            assert(m / w <= m) by (nonlinear_arith)
                requires
                    w >= 1,
            ;
            assert(m % w < w) by (nonlinear_arith)
                requires
                    w >= 1,
            ;
        }
        ((m / w) as i64, (m % w) as u32)
    } else {
        let m: u64 = (-(n + 1)) as u64;
        proof {
            assert(m / w <= m) by (nonlinear_arith)
                requires
                    w >= 1,
            ;
            assert(m % w < w) by (nonlinear_arith)
                requires
                    w >= 1,
            ;
            let q = m as int / w as int;
            let r = m as int % w as int;
            assert(m == q * w + r) by {
                vstd::arithmetic::div_mod::lemma_fundamental_div_mod(m as int, w as int);
                vstd::arithmetic::mul::lemma_mul_is_commutative(q, w as int);
            }
            let back = -1 - q;
            assert(n == back * w + (w - 1 - r)) by (nonlinear_arith)
                requires
                    m == q * w + r,
                    m == -(n + 1),
                    back == -1 - q,
            ;
            vstd::arithmetic::div_mod::lemma_fundamental_div_mod_converse(
                n as int,
                w as int,
                back,
                w - 1 - r,
            );
        }
        (-1 - (m / w) as i64, (w - 1 - m % w) as u32)
    }
}

/// The date of a day of the four centuries that start with 1970: year, month
/// and day.
fn date_in_cycle(day: u32) -> (out: (u32, u32, u32))
    requires
        day < 146097,
    ensures
        falls_on(day as int, Date { year: out.0 as int, month: out.1 as int, day: out.2 as int }),
        1970 <= out.0 < 2400,
        1 <= out.1 <= 12,
        1 <= out.2 <= 31,
{
    let mut year: u32 = 1970;
    let mut rest: u32 = day;
    proof {
        assert(year_start(1970) == 0);
    }
    while rest >= 366 || (rest == 365 && !leap(year))
        invariant
            day < 146097,
            1970 <= year,
            year_start(year as int) + rest == day,
            (year - 1970) * 365 <= day,
        decreases rest,
    {
        proof {
            lemma_year_length(year as int);
        }
        rest = rest - if leap(year) {
            366
        } else {
            365
        };
        year = year + 1;
    }
    proof {
        lemma_year_length(year as int);
        lemma_months_fill_the_year(year as int);
        if year >= 2400 {
            lemma_years_in_order(2369, year as int);
        }
    }
    let ghost in_year = rest;
    let mut month: u32 = 1;
    while rest >= days_of_month(year, month)
        invariant
            1 <= month <= 12,
            month_start(year as int, month as int) + rest == in_year,
            in_year < month_start(year as int, 13),
        decreases rest,
    {
        rest = rest - days_of_month(year, month);
        proof {
            if month == 12 {
                assert(month_start(year as int, 13) == month_start(year as int, 12) + month_days(
                    year as int,
                    12,
                ));
            }
        }
        month = month + 1;
    }
    (year, month, rest + 1)
}

fn year_str(year: i64) -> (out: String)
    requires
        year > i64::MIN,
    ensures
        out@ == year_text(year as int),
{
    if year < 0 {
        let mut out = "-".to_owned();
        out.append(padded_left(dec_text((-year) as u64).as_str(), 3, '0').as_str());
        out
    } else {
        padded_left(dec_text(year as u64).as_str(), 4, '0')
    }
}

fn two(n: u32) -> (out: String)
    ensures
        out@ == two_digits(n as int),
{
    padded_left(dec_text(n as u64).as_str(), 2, '0')
}

/// A point in time, given in seconds since 1970, as a compact UTC text.
pub fn format_unix_time(secs: i64) -> (out: String)
    ensures
        out@ == time_text(secs as int),
{
    let (days, second) = floor_div(secs, 86400);
    let (eras, day) = floor_div(days, 146097);
    let (cycle_year, month, mday) = date_in_cycle(day);
    proof {
        assert(-0x1_0000_0000_0000 < days < 0x1_0000_0000_0000);
        assert(-0x1_0000_0000_0000 < eras < 0x1_0000_0000_0000);
    }
    let year: i64 = cycle_year as i64 + 400 * eras;
    proof {
        lemma_four_centuries(cycle_year as int, eras as int);
        lemma_same_months(cycle_year as int, year as int, month as int);
        let date = Date { year: year as int, month: month as int, day: mday as int };
        assert(falls_on(days as int, date));
        law_dates_are_unambiguous(days as int, date, date_of(days as int));
    }
    let mut out = year_str(year);
    out.append("-");
    out.append(two(month).as_str());
    out.append("-");
    out.append(two(mday).as_str());
    out.append("T");
    out.append(two(second / 3600).as_str());
    out.append(":");
    out.append(two(second / 60 % 60).as_str());
    out.append(":");
    out.append(two(second % 60).as_str());
    out.append("Z");
    out
}

/// The months have their lengths, and February is longer in every fourth year,
/// of whole centuries only in every fourth.
pub proof fn law_months_have_their_lengths(year: int, month: int)
    requires
        1 <= month <= 12,
    ensures
        month != 2 ==> month_days(year, month) == seq![
            31int,
            28,
            31,
            30,
            31,
            30,
            31,
            31,
            30,
            31,
            30,
            31,
        ][month - 1],
        year % 4 != 0 ==> month_days(year, 2) == 28,
        year % 4 == 0 && year % 100 != 0 ==> month_days(year, 2) == 29,
        year % 100 == 0 && year % 400 != 0 ==> month_days(year, 2) == 28,
        year % 400 == 0 ==> month_days(year, 2) == 29,
{
}

/// Each month starts where the one before it ends, and each year where the last
/// December does. Four centuries have 146097 days.
#[verifier::rlimit(40)]
pub proof fn law_months_and_years_follow_each_other(year: int, month: int, day: int)
    requires
        1 <= month <= 12,
        1 <= day <= month_days(year, month),
    ensures
        falls_on(
            year_start(year) + month_start(year, month) + day - 1,
            Date { year, month, day },
        ),
        year_start(1970) == 0,
        month_start(year, 1) == 0,
        month_start(year, month + 1) == month_start(year, month) + month_days(year, month),
        year_start(year + 1) == year_start(year) + month_start(year, 13),
        year_start(year + 400) == year_start(year) + 146097,
{
    lemma_year_length(year);
    lemma_months_fill_the_year(year);
    lemma_four_centuries(year, 1);
}

/// A moment is told by its date and its time of day: the day that it falls on,
/// with two digits for the month and the day, and then hours, minutes and
/// seconds of two digits each.
#[verifier::rlimit(40)]
pub proof fn law_moments_are_told(days: int, date: Date, h: int, m: int, s: int)
    requires
        falls_on(days, date),
        0 <= h < 24,
        0 <= m < 60,
        0 <= s < 60,
    ensures
        time_text(86400 * days + 3600 * h + 60 * m + s) == (if date.year < 0 {
            seq!['-'] + pad_left(dec((-date.year) as nat), 3, '0')
        } else {
            pad_left(dec(date.year as nat), 4, '0')
        }) + seq!['-'] + pad_left(dec(date.month as nat), 2, '0') + seq!['-'] + pad_left(
            dec(date.day as nat),
            2,
            '0',
        ) + seq!['T'] + pad_left(dec(h as nat), 2, '0') + seq![':'] + pad_left(
            dec(m as nat),
            2,
            '0',
        ) + seq![':'] + pad_left(dec(s as nat), 2, '0') + seq!['Z'],
{
    reveal_strlit("-");
    reveal_strlit("T");
    reveal_strlit(":");
    reveal_strlit("Z");
    assert("-"@ =~= seq!['-']);
    assert("T"@ =~= seq!['T']);
    assert(":"@ =~= seq![':']);
    assert("Z"@ =~= seq!['Z']);
    let second = 3600 * h + 60 * m + s;
    let secs = 86400 * days + second;
    assert(0 <= second < 86400);
    assert(secs / 86400 == days && secs % 86400 == second);
    assert(second / 3600 == h);
    assert(second / 60 == 60 * h + m);
    assert(second / 60 % 60 == m);
    assert(second % 60 == s);
    law_dates_are_unambiguous(days, date, date_of(days));
}

}
