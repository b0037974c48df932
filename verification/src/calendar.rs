//! Dates in UTC and their RFC 3339 form.
use vstd::prelude::*;
use vstd::string::*;
use crate::text::{decimal, decimal_text, digit_char};

verus! {

// ---------------------------------------------------------------------------
// The calendar

/// Whether a year has a leap day.
pub open spec fn is_leap(year: nat) -> bool {
    year % 4 == 0 && (year % 100 != 0 || year % 400 == 0)
}

/// How many days a year has.
pub open spec fn year_days(year: nat) -> nat {
    if is_leap(year) {
        366
    } else {
        365
    }
}

/// How many days a month has.
pub open spec fn month_days(year: nat, month: nat) -> nat {
    if month == 2 {
        if is_leap(year) {
            29
        } else {
            28
        }
    } else if month == 4 || month == 6 || month == 9 || month == 11 {
        30
    } else {
        31
    }
}

/// How many days lie between the start of 1970 and that of a year.
pub open spec fn days_before_year(year: nat) -> nat
    decreases year,
{
    if year <= 1970 {
        0
    } else {
        days_before_year((year - 1) as nat) + year_days((year - 1) as nat)
    }
}

/// How many days of a year lie before a month.
pub open spec fn days_before_month(year: nat, month: nat) -> nat
    decreases month,
{
    if month <= 1 {
        0
    } else {
        days_before_month(year, (month - 1) as nat) + month_days(year, (month - 1) as nat)
    }
}

/// A day of the calendar.
#[derive(Debug, PartialEq, Eq, Clone, Copy)]
pub struct Date {
    pub year: u64,
    pub month: u64,
    pub day: u64,
}

/// Whether there is such a day, 1970 or later.
pub open spec fn is_date(d: Date) -> bool {
    &&& 1970 <= d.year
    &&& 1 <= d.month <= 12
    &&& 1 <= d.day <= month_days(d.year as nat, d.month as nat)
}

/// How many days lie between the start of 1970 and a day.
pub open spec fn day_number(d: Date) -> int {
    days_before_year(d.year as nat) + days_before_month(d.year as nat, d.month as nat) + d.day - 1
}

/// The months of a year have all its days.
proof fn lemma_months_add_up(year: nat)
    ensures
        days_before_month(year, 13) == year_days(year),
{
    reveal_with_fuel(days_before_month, 14);
}

proof fn lemma_years_grow(a: nat, b: nat)
    requires
        1970 <= a <= b,
    ensures
        days_before_year(a) + 365 * (b - a) <= days_before_year(b),
        a < b ==> days_before_year(a) + year_days(a) <= days_before_year(b),
    decreases b,
{
    if a < b {
        lemma_years_grow(a, (b - 1) as nat);
    }
}

proof fn lemma_months_grow(year: nat, a: nat, b: nat)
    requires
        1 <= a <= b,
    ensures
        days_before_month(year, a) <= days_before_month(year, b),
        a < b ==> days_before_month(year, a) + month_days(year, a) <= days_before_month(year, b),
    decreases b,
{
    if a < b {
        lemma_months_grow(year, a, (b - 1) as nat);
    }
}

/// No two days have the same number.
pub proof fn law_day_numbers_differ(a: Date, b: Date)
    requires
        is_date(a),
        is_date(b),
        day_number(a) == day_number(b),
    ensures
        a == b,
{
    if a.year < b.year {
        lemma_year_of_day(a, b);
    }
    if b.year < a.year {
        lemma_year_of_day(b, a);
    }
    let year = a.year as nat;
    if a.month < b.month {
        lemma_months_grow(year, a.month as nat, b.month as nat);
    }
    if b.month < a.month {
        lemma_months_grow(year, b.month as nat, a.month as nat);
    }
}

/// A day lies before the years after its own.
proof fn lemma_year_of_day(a: Date, b: Date)
    requires
        is_date(a),
        is_date(b),
        a.year < b.year,
    ensures
        day_number(a) < day_number(b),
{
    lemma_years_grow(a.year as nat, b.year as nat);
    lemma_months_add_up(a.year as nat);
    lemma_months_grow(a.year as nat, a.month as nat, 13);
}

/// Tells whether a year has a leap day.
fn leap(year: u64) -> (yes: bool)
    ensures
        yes == is_leap(year as nat),
{
    year % 4 == 0 && (year % 100 != 0 || year % 400 == 0)
}

/// Counts the days of a month.
fn count_days(year: u64, month: u64) -> (n: u64)
    ensures
        n == month_days(year as nat, month as nat),
{
    if month == 2 {
        if leap(year) {
            29
        } else {
            28
        }
    } else if month == 4 || month == 6 || month == 9 || month == 11 {
        30
    } else {
        31
    }
}

/// Finds the day with a number.
pub fn date_of(number: u64) -> (d: Date)
    ensures
        is_date(d),
        day_number(d) == number,
{
    let mut year: u64 = 1970;
    let mut left: u64 = number;
    let mut days: u64 = 365;
    while left >= days
        invariant
            1970 <= year,
            days == year_days(year as nat),
            days_before_year(year as nat) + left == number,
            365 * (year - 1970) <= days_before_year(year as nat),
        decreases left,
    {
        left = left - days;
        year = year + 1;
        days = if leap(year) {
            366
        } else {
            365
        };
    }
    let mut month: u64 = 1;
    proof {
        lemma_months_add_up(year as nat);
    }
    while month < 12 && left >= count_days(year, month)
        invariant
            1970 <= year,
            1 <= month <= 12,
            days_before_year(year as nat) + days_before_month(year as nat, month as nat) + left
                == number,
            days_before_month(year as nat, month as nat) + left < year_days(year as nat),
        decreases 12 - month,
    {
        left = left - count_days(year, month);
        month = month + 1;
    }
    proof {
        if month == 12 {
            lemma_months_add_up(year as nat);
        }
    }
    Date { year, month, day: left + 1 }
}

// ---------------------------------------------------------------------------
// RFC 3339

/// The day with a number.
pub open spec fn date_on(number: int) -> Date {
    choose|d: Date| is_date(d) && #[trigger] day_number(d) == number
}

/// A number below a hundred in two digits.
pub open spec fn two_digits(n: nat) -> Seq<char> {
    seq![digit_char(n / 10), digit_char(n % 10)]
}

/// A moment, given in milliseconds since 1970 in UTC, in the form of RFC 3339.
pub open spec fn timestamp_text(millis: u64) -> Seq<char> {
    let d = date_on(millis as int / 86_400_000);
    let in_day = millis as nat % 86_400_000;
    let part = in_day % 1000;
    decimal_text(d.year as nat) + "-"@ + two_digits(d.month as nat) + "-"@ + two_digits(
        d.day as nat,
    ) + "T"@ + two_digits(in_day / 3_600_000) + ":"@ + two_digits(in_day / 60_000 % 60) + ":"@
        + two_digits(in_day / 1000 % 60) + "."@ + seq![digit_char(part / 100)] + two_digits(
        part % 100,
    ) + "Z"@
}

/// Writes a number below a hundred in two digits.
fn push_two(s: &mut String, n: u64)
    requires
        n < 100,
    ensures
        final(s)@ == old(s)@ + two_digits(n as nat),
{
    let ghost before = s@;
    s.push((48 + (n / 10) as u8) as char);
    s.push((48 + (n % 10) as u8) as char);
    assert(s@ =~= before + two_digits(n as nat));
}

/// Writes a moment, given in milliseconds since 1970 in UTC, in the form of RFC 3339.
pub fn timestamp(millis: u64) -> (s: String)
    ensures
        s@ == timestamp_text(millis),
{
    let d = date_of(millis / 86_400_000);
    proof {
        let number = millis as int / 86_400_000;
        let e = date_on(number);
        assert(is_date(d) && day_number(d) == number);
        law_day_numbers_differ(d, e);
    }
    let in_day: u64 = millis % 86_400_000;
    let part: u64 = in_day % 1000;
    let mut s = decimal(d.year);
    s.append("-");
    push_two(&mut s, d.month);
    s.append("-");
    push_two(&mut s, d.day);
    s.append("T");
    push_two(&mut s, in_day / 3_600_000);
    s.append(":");
    push_two(&mut s, in_day / 60_000 % 60);
    s.append(":");
    push_two(&mut s, in_day / 1000 % 60);
    s.append(".");
    let ghost before = s@;
    s.push((48 + (part / 100) as u8) as char);
    assert(s@ =~= before + seq![digit_char(part as nat / 100)]);
    push_two(&mut s, part % 100);
    s.append("Z");
    s
}

// ---------------------------------------------------------------------------
// Laws

/// Every fourth year has a leap day, but of the full centuries only every fourth.
pub proof fn law_leap_years(year: nat)
    ensures
        year % 4 != 0 ==> !is_leap(year),
        year % 4 == 0 && year % 100 != 0 ==> is_leap(year),
        year % 100 == 0 ==> (is_leap(year) <==> year % 400 == 0),
        is_leap(year + 400) == is_leap(year),
        year_days(year) == 365 + (if is_leap(year) { 1int } else { 0int }),
        month_days(year, 2) == 28 + (if is_leap(year) { 1int } else { 0int }),
{
}

/// The months of a year have all its days, and each has its own number.
pub proof fn law_months(year: nat)
    ensures
        days_before_month(year, 13) == year_days(year),
        days_before_month(year, 1) == 0,
        month_days(year, 1) == 31 && month_days(year, 3) == 31 && month_days(year, 5) == 31
            && month_days(year, 7) == 31 && month_days(year, 8) == 31 && month_days(year, 10) == 31
            && month_days(year, 12) == 31,
        month_days(year, 4) == 30 && month_days(year, 6) == 30 && month_days(year, 9) == 30
            && month_days(year, 11) == 30,
{
    lemma_months_add_up(year);
}

/// Days follow on each other: within a month, over the end of a month, and over the end of
/// a year.
pub proof fn law_next_day(d: Date)
    requires
        is_date(d),
        d.year < u64::MAX,
    ensures
        day_number(Date { year: 1970, month: 1, day: 1 }) == 0,
        d.day < month_days(d.year as nat, d.month as nat) ==> day_number(
            Date { day: (d.day + 1) as u64, ..d },
        ) == day_number(d) + 1,
        d.day == month_days(d.year as nat, d.month as nat) && d.month < 12 ==> day_number(
            Date { year: d.year, month: (d.month + 1) as u64, day: 1 },
        ) == day_number(d) + 1,
        d.day == 31 && d.month == 12 ==> day_number(
            Date { year: (d.year + 1) as u64, month: 1, day: 1 },
        ) == day_number(d) + 1,
{
    lemma_months_add_up(d.year as nat);
    reveal_with_fuel(days_before_month, 2);
}

/// Two digits stand for the number they were written for.
pub proof fn law_two_digits(n: nat)
    requires
        n < 100,
    ensures
        two_digits(n).len() == 2,
        crate::text::digits_value(two_digits(n)) == n,
{
    reveal_with_fuel(crate::text::digits_value, 3);
    let s = two_digits(n);
    assert(s.drop_last().drop_last() =~= Seq::<char>::empty());
}

/// The parts of a moment: the day is the one with the number of days gone by, and hours,
/// minutes, seconds and milliseconds make up the rest.
pub proof fn law_timestamp_parts(millis: u64, d: Date, hours: nat, minutes: nat, seconds: nat, part: nat)
    requires
        is_date(d),
        hours < 24,
        minutes < 60,
        seconds < 60,
        part < 1000,
        millis == day_number(d) * 86_400_000 + hours * 3_600_000 + minutes * 60_000 + seconds * 1000
            + part,
    ensures
        timestamp_text(millis) == decimal_text(d.year as nat) + "-"@ + two_digits(d.month as nat)
            + "-"@ + two_digits(d.day as nat) + "T"@ + two_digits(hours) + ":"@ + two_digits(minutes)
            + ":"@ + two_digits(seconds) + "."@ + seq![digit_char(part / 100)] + two_digits(
            part % 100,
        ) + "Z"@,
{
    let number = millis as int / 86_400_000;
    let in_day = millis as nat % 86_400_000;
    lemma_parts(day_number(d), hours as int, minutes as int, seconds as int, part as int);
    let e = date_on(number);
    assert(is_date(d) && day_number(d) == number);
    law_day_numbers_differ(d, e);
    assert(in_day / 3_600_000 == hours);
    assert(in_day / 60_000 % 60 == minutes);
    assert(in_day / 1000 % 60 == seconds);
    assert(in_day % 1000 == part);
}

proof fn lemma_parts(days: int, hours: int, minutes: int, seconds: int, part: int)
    requires
        0 <= days,
        0 <= hours < 24,
        0 <= minutes < 60,
        0 <= seconds < 60,
        0 <= part < 1000,
    ensures
        ({
            let in_day = hours * 3_600_000 + minutes * 60_000 + seconds * 1000 + part;
            let millis = days * 86_400_000 + in_day;
            &&& millis / 86_400_000 == days
            &&& millis % 86_400_000 == in_day
            &&& in_day / 3_600_000 == hours
            &&& in_day / 60_000 % 60 == minutes
            &&& in_day / 1000 % 60 == seconds
            &&& in_day % 1000 == part
        }),
{
    let in_day = hours * 3_600_000 + minutes * 60_000 + seconds * 1000 + part;
    assert(in_day / 60_000 == hours * 60 + minutes);
    assert(in_day / 1000 == (hours * 60 + minutes) * 60 + seconds);
}

} // verus!
