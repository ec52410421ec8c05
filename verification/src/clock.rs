//! Dates and times of day in Japan Standard Time. Instants are milliseconds of Unix time.

use crate::binary64::pow10;
use crate::text::{
    decimal, digits, digits_value, law_padded_digits_read_back, padded_decimal, padded_digits,
};
use chrono::{Datelike, Timelike};
use vstd::prelude::*;

verus! {

/// Japan Standard Time is nine hours ahead of UTC, all year.
pub const JST_OFFSET_SECS: i32 = 32_400;

/// A date and a time of day.
#[derive(Clone, Copy, Debug, PartialEq, Eq, Structural)]
pub struct CivilTime {
    pub year: i32,
    pub month: u32,
    pub day: u32,
    pub hour: u32,
    pub minute: u32,
    pub second: u32,
}

/// The instants that have a date: those from the year -262143 to 262142, less a day at each end
/// for the time zones.
pub open spec fn has_date(ms: int) -> bool {
    -8_334_601_142_400_000 <= ms <= 8_210_266_790_399_999
}

/// `year` is a leap year of the Gregorian calendar.
pub open spec fn is_leap(year: int) -> bool {
    (year % 4 == 0 && year % 100 != 0) || year % 400 == 0
}

/// How many days a month has.
pub open spec fn month_len(year: int, month: int) -> int {
    if month == 2 {
        if is_leap(year) {
            29
        } else {
            28
        }
    } else if month == 4 || month == 6 || month == 9 || month == 11 {
        30
    } else {
        31
    }
}

/// How many days of a year lie before a month.
pub open spec fn days_before_month(year: int, month: int) -> int
    decreases month,
{
    if month <= 1 {
        0
    } else {
        days_before_month(year, month - 1) + month_len(year, month - 1)
    }
}

/// How many days lie before a year, counted from the year 1.
pub open spec fn days_before_year(year: int) -> int {
    365 * (year - 1) + (year - 1) / 4 - (year - 1) / 100 + (year - 1) / 400
}

/// How many days lie between 1 January 1970 and a date.
pub open spec fn date_number(year: int, month: int, day: int) -> int {
    days_before_year(year) + days_before_month(year, month) + day - 1 - 719_162
}

/// The date exists.
pub open spec fn is_date(year: int, month: int, day: int) -> bool {
    1 <= month <= 12 && 1 <= day <= month_len(year, month)
}

impl CivilTime {
    /// The date and the time of day exist.
    pub open spec fn wf(self) -> bool {
        &&& is_date(self.year as int, self.month as int, self.day as int)
        &&& self.hour < 24
        &&& self.minute < 60
        &&& self.second < 60
    }

    /// Seconds between 1 January 1970, 0:00, and this date and time of day.
    pub open spec fn seconds(self) -> int {
        date_number(self.year as int, self.month as int, self.day as int) * 86_400 + self.hour
            * 3_600 + self.minute * 60 + self.second
    }
}

/// The date and the time of day of an instant, `offset_secs` seconds ahead of UTC.
///
/// Calls `chrono::DateTime::from_timestamp_millis`, turns the result with `with_timezone` to the
/// fixed offset, and reads its fields. They are those of the proleptic Gregorian calendar for the
/// whole second that the instant lies in.
#[verifier::external_body]
fn civil_time(ms: i64, offset_secs: i32) -> (r: CivilTime)
    requires
        has_date(ms as int),
        -86_400 < offset_secs < 86_400,
    ensures
        r.wf(),
        r.seconds() == ms as int / 1000 + offset_secs,
{
    let zone = chrono::FixedOffset::east_opt(offset_secs).unwrap();
    let t = chrono::DateTime::from_timestamp_millis(ms).unwrap().with_timezone(&zone);
    CivilTime {
        year: t.year(),
        month: t.month(),
        day: t.day(),
        hour: t.hour(),
        minute: t.minute(),
        second: t.second(),
    }
}

/// `c` is the date and the time of day of an instant in Japan.
pub open spec fn is_jst_time(c: CivilTime, ms: int) -> bool {
    c.wf() && c.seconds() == ms / 1000 + 32_400
}

/// The date and the time of day of an instant in Japan.
pub open spec fn jst_of(ms: int) -> CivilTime {
    choose|c: CivilTime| is_jst_time(c, ms)
}

/// The number of the day in Japan that an instant lies in, counted from 1 January 1970.
pub open spec fn day_of(ms: int) -> int {
    (ms + 32_400_000) / 86_400_000
}

/// Whether an instant has a date.
pub fn is_dated(ms: i64) -> (r: bool)
    ensures
        r == has_date(ms as int),
{
    -8_334_601_142_400_000 <= ms && ms <= 8_210_266_790_399_999
}

/// The date and the time of day of an instant in Japan.
pub fn jst_time(ms: i64) -> (r: CivilTime)
    requires
        has_date(ms as int),
    ensures
        r == jst_of(ms as int),
        is_jst_time(r, ms as int),
{
    let r: CivilTime = civil_time(ms, JST_OFFSET_SECS);
    proof {
        assert(is_jst_time(r, ms as int));
        law_fields_are_unique(r, jst_of(ms as int));
    }
    r
}

/// The number of the day in Japan that an instant lies in, counted from 1 January 1970.
pub fn jst_day(ms: i64) -> (r: i64)
    ensures
        r == day_of(ms as int),
{
    let whole: i128 = 200_000_000_000;
    let shifted: i128 = ms as i128 + 32_400_000 + whole * 86_400_000;
    proof {
        vstd::arithmetic::div_mod::lemma_div_multiples_vanish_fancy(
            day_of(ms as int) + whole,
            (ms + 32_400_000) % 86_400_000,
            86_400_000,
        );
        assert(shifted == 86_400_000 * (day_of(ms as int) + whole) + (ms + 32_400_000)
            % 86_400_000);
    }
    (shifted / 86_400_000 - whole) as i64
}

/// A later year begins at least as many days later as the years between have.
proof fn lemma_days_before_year(a: int, b: int)
    requires
        a < b,
    ensures
        days_before_year(a) + 365 + (if is_leap(a) { 1int } else { 0int }) <= days_before_year(b),
    decreases b - a,
{
    if b == a + 1 {
        assert(days_before_year(a + 1) == days_before_year(a) + 365 + (if is_leap(a) {
            1int
        } else {
            0int
        }));
    } else {
        lemma_days_before_year(a, b - 1);
        lemma_days_before_year(b - 1, b);
    }
}

/// A later month begins at least as many days later as the months between have; a year has 365
/// days or 366.
proof fn lemma_days_before_month(year: int, a: int, b: int)
    requires
        1 <= a < b <= 13,
    ensures
        0 <= days_before_month(year, a),
        days_before_month(year, a) + month_len(year, a) <= days_before_month(year, b),
        days_before_month(year, b) <= 365 + (if is_leap(year) { 1int } else { 0int }),
{
    reveal_with_fuel(days_before_month, 14);
}

/// Two dates with the same number are the same date.
proof fn lemma_date_number_injective(y1: int, m1: int, d1: int, y2: int, m2: int, d2: int)
    requires
        is_date(y1, m1, d1),
        is_date(y2, m2, d2),
        date_number(y1, m1, d1) == date_number(y2, m2, d2),
    ensures
        y1 == y2,
        m1 == m2,
        d1 == d2,
{
    lemma_days_before_month(y1, m1, 13);
    lemma_days_before_month(y2, m2, 13);
    if y1 < y2 {
        lemma_days_before_year(y1, y2);
    } else if y2 < y1 {
        lemma_days_before_year(y2, y1);
    } else if m1 < m2 {
        lemma_days_before_month(y1, m1, m2);
    } else if m2 < m1 {
        lemma_days_before_month(y1, m2, m1);
    }
}

/// A date and a time of day are determined by the second that they name.
pub proof fn law_fields_are_unique(a: CivilTime, b: CivilTime)
    requires
        a.wf(),
        b.wf(),
        a.seconds() == b.seconds(),
    ensures
        a == b,
{
    let x = date_number(a.year as int, a.month as int, a.day as int);
    let y = date_number(b.year as int, b.month as int, b.day as int);
    assert(x == a.seconds() / 86_400);
    assert(y == b.seconds() / 86_400);
    lemma_date_number_injective(
        a.year as int,
        a.month as int,
        a.day as int,
        b.year as int,
        b.month as int,
        b.day as int,
    );
}

/// Two instants lie in the same day in Japan exactly where they have the same date there.
pub proof fn law_same_day_is_same_date(p: int, q: int, a: CivilTime, b: CivilTime)
    requires
        is_jst_time(a, p),
        is_jst_time(b, q),
    ensures
        day_of(p) == day_of(q) <==> (a.year == b.year && a.month == b.month && a.day == b.day),
{
    let x = date_number(a.year as int, a.month as int, a.day as int);
    let y = date_number(b.year as int, b.month as int, b.day as int);
    assert(x == a.seconds() / 86_400);
    assert(y == b.seconds() / 86_400);
    assert(day_of(p) == x);
    assert(day_of(q) == y);
    if x == y {
        lemma_date_number_injective(
            a.year as int,
            a.month as int,
            a.day as int,
            b.year as int,
            b.month as int,
            b.day as int,
        );
    }
}

/// Hour and minute, as in "07:05".
pub open spec fn hm_text(c: CivilTime) -> Seq<char> {
    padded_digits(c.hour as nat, 2) + ":"@ + padded_digits(c.minute as nat, 2)
}

/// Hour, minute and second, as in "07:05:30".
pub open spec fn hms_text(c: CivilTime) -> Seq<char> {
    hm_text(c) + ":"@ + padded_digits(c.second as nat, 2)
}

/// Month, day, hour and minute, as in "09/05 07:05".
pub open spec fn md_hm_text(c: CivilTime) -> Seq<char> {
    padded_digits(c.month as nat, 2) + "/"@ + padded_digits(c.day as nat, 2) + " "@ + hm_text(c)
}

/// A year with at least four digits; one before 0 or after 9999 has a sign.
pub open spec fn year_text(year: int) -> Seq<char> {
    if 0 <= year <= 9999 {
        padded_digits(year as nat, 4)
    } else if year > 9999 {
        "+"@ + digits(year as nat)
    } else if year >= -9999 {
        "-"@ + padded_digits((-year) as nat, 4)
    } else {
        "-"@ + digits((-year) as nat)
    }
}

/// A date, as in "2026-09-05".
pub open spec fn date_text(c: CivilTime) -> Seq<char> {
    year_text(c.year as int) + "-"@ + padded_digits(c.month as nat, 2) + "-"@ + padded_digits(
        c.day as nat,
        2,
    )
}

/// A date and a time of day, as in "2026-09-05 07:05:30".
pub open spec fn date_time_text(c: CivilTime) -> Seq<char> {
    date_text(c) + " "@ + hms_text(c)
}

impl CivilTime {
    /// Hour and minute.
    pub fn format_hm(&self) -> (r: String)
        ensures
            r@ == hm_text(*self),
    {
        let mut r: String = padded_decimal(self.hour as u64, 2);
        r.append(":");
        r.append(padded_decimal(self.minute as u64, 2).as_str());
        r
    }

    /// Hour, minute and second.
    pub fn format_hms(&self) -> (r: String)
        ensures
            r@ == hms_text(*self),
    {
        let mut r: String = self.format_hm();
        r.append(":");
        r.append(padded_decimal(self.second as u64, 2).as_str());
        r
    }

    /// Month, day, hour and minute.
    pub fn format_md_hm(&self) -> (r: String)
        ensures
            r@ == md_hm_text(*self),
    {
        let mut r: String = padded_decimal(self.month as u64, 2);
        r.append("/");
        r.append(padded_decimal(self.day as u64, 2).as_str());
        r.append(" ");
        r.append(self.format_hm().as_str());
        r
    }

    /// The year.
    pub fn format_year(&self) -> (r: String)
        ensures
            r@ == year_text(self.year as int),
    {
        if 0 <= self.year && self.year <= 9999 {
            padded_decimal(self.year as u64, 4)
        } else if self.year > 9999 {
            let mut y: String = "+".to_owned();
            y.append(decimal(self.year as u64).as_str());
            y
        } else {
            let mut y: String = "-".to_owned();
            let n: u64 = (-(self.year as i64)) as u64;
            if self.year >= -9999 {
                y.append(padded_decimal(n, 4).as_str());
            } else {
                y.append(decimal(n).as_str());
            }
            y
        }
    }

    /// The date.
    pub fn format_date(&self) -> (r: String)
        ensures
            r@ == date_text(*self),
    {
        let mut r: String = self.format_year();
        r.append("-");
        r.append(padded_decimal(self.month as u64, 2).as_str());
        r.append("-");
        r.append(padded_decimal(self.day as u64, 2).as_str());
        r
    }

    /// The date and the time of day.
    pub fn format_date_time(&self) -> (r: String)
        ensures
            r@ == date_time_text(*self),
    {
        let mut r: String = self.format_date();
        r.append(" ");
        r.append(self.format_hms().as_str());
        r
    }
}

/// Clocks in Japan are nine hours ahead: hour, minute and second are those of the instant nine
/// hours later in UTC.
pub proof fn law_clocks_are_nine_hours_ahead(c: CivilTime, ms: int)
    requires
        is_jst_time(c, ms),
    ensures
        c.hour == (ms / 1000 + 9 * 3_600) / 3_600 % 24,
        c.minute == (ms / 1000 + 9 * 3_600) / 60 % 60,
        c.second == (ms / 1000 + 9 * 3_600) % 60,
        date_number(c.year as int, c.month as int, c.day as int) == (ms / 1000 + 9 * 3_600) / 86_400,
{
    let days = date_number(c.year as int, c.month as int, c.day as int);
    let t = ms / 1000 + 32_400;
    assert(t == days * 86_400 + c.hour * 3_600 + c.minute * 60 + c.second);
    assert(t / 86_400 == days);
    assert(t / 3_600 == days * 24 + c.hour);
    assert(t / 60 == days * 1_440 + c.hour * 60 + c.minute);
}

/// A day in Japan begins nine hours before it begins in UTC, and lasts 24 hours.
pub proof fn law_days_begin_at_midnight_in_japan(ms: int)
    ensures
        day_of(ms) * 86_400_000 <= ms + 9 * 3_600_000 < (day_of(ms) + 1) * 86_400_000,
        day_of(ms + 86_400_000) == day_of(ms) + 1,
{
}

/// Dates follow one another as in the calendar: day after day, month after month and year after
/// year, from 1 January 1970; February has a 29th in every fourth year, but of the full centuries
/// only in every fourth.
pub proof fn law_dates_follow_the_calendar(year: int, month: int, day: int)
    requires
        is_date(year, month, day),
    ensures
        date_number(1970, 1, 1) == 0,
        is_date(year, month, day + 1) ==> date_number(year, month, day + 1) == date_number(
            year,
            month,
            day,
        ) + 1,
        !is_date(year, month, day + 1) && month < 12 ==> date_number(year, month + 1, 1)
            == date_number(year, month, day) + 1,
        month == 12 && day == 31 ==> date_number(year + 1, 1, 1) == date_number(year, month, day)
            + 1,
        is_date(year, 2, 29) <==> (year % 4 == 0 && year % 100 != 0) || year % 400 == 0,
        is_date(year, month, 28),
        is_date(year, month, 30) <==> month != 2,
        is_date(year, month, 31) <==> month != 2 && month != 4 && month != 6 && month != 9 && month
            != 11,
{
    reveal_with_fuel(days_before_month, 14);
    if month == 12 {
        lemma_days_before_month(year, 12, 13);
        lemma_days_before_year(year, year + 1);
        assert(days_before_year(year + 1) == days_before_year(year) + 365 + (if is_leap(year) {
            1int
        } else {
            0int
        }));
    }
}

/// A time of day reads back from its text: two digits each for hour, minute and second.
pub proof fn law_times_read_back(c: CivilTime)
    requires
        c.wf(),
    ensures
        hms_text(c).len() == 8,
        digits_value(hms_text(c).subrange(0, 2)) == c.hour,
        hms_text(c)[2] == ':',
        digits_value(hms_text(c).subrange(3, 5)) == c.minute,
        hms_text(c)[5] == ':',
        digits_value(hms_text(c).subrange(6, 8)) == c.second,
        hm_text(c) == hms_text(c).take(5),
{
    lemma_two_digits(c.hour as nat);
    lemma_two_digits(c.minute as nat);
    lemma_two_digits(c.second as nat);
    reveal_strlit(":");
    let h = padded_digits(c.hour as nat, 2);
    let m = padded_digits(c.minute as nat, 2);
    let s = padded_digits(c.second as nat, 2);
    let t = hms_text(c);
    assert(t.subrange(0, 2) =~= h);
    assert(t.subrange(3, 5) =~= m);
    assert(t.subrange(6, 8) =~= s);
    assert(t.take(5) =~= hm_text(c));
}

/// Two digits read back.
pub proof fn lemma_two_digits(n: nat)
    requires
        n < 100,
    ensures
        padded_digits(n, 2).len() == 2,
        digits_value(padded_digits(n, 2)) == n,
{
    law_padded_digits_read_back(n, 2);
    assert(pow10(2) == 100) by {
        reveal_with_fuel(pow10, 3);
    }
}

/// Four digits read back.
pub proof fn lemma_four_digits(n: nat)
    requires
        n < 10_000,
    ensures
        padded_digits(n, 4).len() == 4,
        digits_value(padded_digits(n, 4)) == n,
{
    law_padded_digits_read_back(n, 4);
    assert(pow10(4) == 10_000) by {
        reveal_with_fuel(pow10, 5);
    }
}

/// A date reads back from its text: four digits for the year, then two each for month and day.
pub proof fn law_dates_read_back(c: CivilTime)
    requires
        c.wf(),
        0 <= c.year <= 9999,
    ensures
        date_text(c).len() == 10,
        digits_value(date_text(c).subrange(0, 4)) == c.year,
        date_text(c)[4] == '-',
        digits_value(date_text(c).subrange(5, 7)) == c.month,
        date_text(c)[7] == '-',
        digits_value(date_text(c).subrange(8, 10)) == c.day,
        date_time_text(c).len() == 19,
        date_time_text(c).take(10) == date_text(c),
        date_time_text(c)[10] == ' ',
        date_time_text(c).skip(11) == hms_text(c),
        md_hm_text(c).len() == 11,
        digits_value(md_hm_text(c).subrange(0, 2)) == c.month,
        md_hm_text(c)[2] == '/',
        digits_value(md_hm_text(c).subrange(3, 5)) == c.day,
        md_hm_text(c)[5] == ' ',
        md_hm_text(c).skip(6) == hm_text(c),
{
    law_times_read_back(c);
    lemma_four_digits(c.year as nat);
    lemma_two_digits(c.month as nat);
    lemma_two_digits(c.day as nat);
    reveal_strlit("-");
    reveal_strlit("/");
    reveal_strlit(" ");
    let y = padded_digits(c.year as nat, 4);
    let m = padded_digits(c.month as nat, 2);
    let d = padded_digits(c.day as nat, 2);
    let t = date_text(c);
    assert(t.subrange(0, 4) =~= y);
    assert(t.subrange(5, 7) =~= m);
    assert(t.subrange(8, 10) =~= d);
    let u = date_time_text(c);
    assert(u.take(10) =~= t);
    assert(u.skip(11) =~= hms_text(c));
    let w = md_hm_text(c);
    assert(w.subrange(0, 2) =~= m);
    assert(w.subrange(3, 5) =~= d);
    assert(w.skip(6) =~= hm_text(c));
}

} // verus!
