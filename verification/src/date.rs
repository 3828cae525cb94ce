//! Calendar dates as plain values: the form in which the contact screens
//! read and write follow-up and contact dates (`YYYY-MM-DD`).
use vstd::prelude::*;
use vstd::string::StrSliceExecFns;

use crate::text::chars_to_string;

verus! {

/// A calendar date.  A value is meaningful only when [`Date::valid`]
/// holds: a real day of the proleptic Gregorian calendar with a
/// four-digit year.
#[derive(Clone, Copy, Debug, PartialEq, Eq, Structural)]
#[verifier::ext_equal]
pub struct Date {
    pub year: i32,
    pub month: u8,
    pub day: u8,
}

/// The Gregorian leap-year rule.
pub open spec fn spec_is_leap_year(y: int) -> bool {
    y % 4 == 0 && (y % 100 != 0 || y % 400 == 0)
}

/// How many days the given month of the given year has.
pub open spec fn spec_days_in_month(y: int, m: int) -> int {
    if m == 2 {
        if spec_is_leap_year(y) {
            29
        } else {
            28
        }
    } else if m == 4 || m == 6 || m == 9 || m == 11 {
        30
    } else {
        31
    }
}

impl Date {
    /// A real day of the calendar, within the four-digit years.
    pub open spec fn valid(self) -> bool {
        0 <= self.year <= 9999 && 1 <= self.month <= 12 && 1 <= self.day <= spec_days_in_month(
            self.year as int,
            self.month as int,
        )
    }

    /// Whether this is a real day of the calendar.
    pub fn is_valid(&self) -> (r: bool)
        ensures
            r == self.valid(),
    {
        0 <= self.year && self.year <= 9999 && 1 <= self.month && self.month <= 12 && 1 <= self.day
            && self.day <= days_in_month(self.year, self.month)
    }
}

/// The Gregorian leap-year rule.
pub fn is_leap_year(y: i32) -> (r: bool)
    ensures
        r == spec_is_leap_year(y as int),
{
    y % 4 == 0 && (y % 100 != 0 || y % 400 == 0)
}

/// How many days the given month has; months outside 1 to 12 are treated
/// as long months.
pub fn days_in_month(y: i32, m: u8) -> (r: u8)
    ensures
        r as int == spec_days_in_month(y as int, m as int),
{
    if m == 2 {
        if is_leap_year(y) {
            29
        } else {
            28
        }
    } else if m == 4 || m == 6 || m == 9 || m == 11 {
        30
    } else {
        31
    }
}

/// The decimal digit character for a value below 10.
pub open spec fn digit_char(v: int) -> char {
    if v == 0 {
        '0'
    } else if v == 1 {
        '1'
    } else if v == 2 {
        '2'
    } else if v == 3 {
        '3'
    } else if v == 4 {
        '4'
    } else if v == 5 {
        '5'
    } else if v == 6 {
        '6'
    } else if v == 7 {
        '7'
    } else if v == 8 {
        '8'
    } else {
        '9'
    }
}

/// The value of a decimal digit character, or -1.
pub open spec fn digit_val(c: char) -> int {
    let v = c as u32;
    if 48 <= v && v <= 57 {
        v - 48
    } else {
        -1
    }
}

/// A date written as `YYYY-MM-DD`, zero-padded.
pub open spec fn spec_format_date(d: Date) -> Seq<char> {
    let y = d.year as int;
    let m = d.month as int;
    let dd = d.day as int;
    seq![
        digit_char(y / 1000),
        digit_char(y / 100 % 10),
        digit_char(y / 10 % 10),
        digit_char(y % 10),
        '-',
        digit_char(m / 10),
        digit_char(m % 10),
        '-',
        digit_char(dd / 10),
        digit_char(dd % 10),
    ]
}

/// The date a `YYYY-MM-DD` text denotes, if it is exactly that shape and
/// a real day of the calendar.
pub open spec fn spec_parse_date(s: Seq<char>) -> Option<Date> {
    if s.len() != 10 {
        None
    } else if digit_val(s[0]) < 0 || digit_val(s[1]) < 0 || digit_val(s[2]) < 0 || digit_val(s[3])
        < 0 || s[4] != '-' || digit_val(s[5]) < 0 || digit_val(s[6]) < 0 || s[7] != '-'
        || digit_val(s[8]) < 0 || digit_val(s[9]) < 0 {
        None
    } else {
        let y = digit_val(s[0]) * 1000 + digit_val(s[1]) * 100 + digit_val(s[2]) * 10 + digit_val(
            s[3],
        );
        let m = digit_val(s[5]) * 10 + digit_val(s[6]);
        let dd = digit_val(s[8]) * 10 + digit_val(s[9]);
        let date = Date { year: y as i32, month: m as u8, day: dd as u8 };
        if date.valid() {
            Some(date)
        } else {
            None
        }
    }
}

/// The decimal digit character for a value below 10.
fn digit_char_of(v: u32) -> (r: char)
    requires
        v < 10,
    ensures
        r == digit_char(v as int),
{
    if v == 0 {
        '0'
    } else if v == 1 {
        '1'
    } else if v == 2 {
        '2'
    } else if v == 3 {
        '3'
    } else if v == 4 {
        '4'
    } else if v == 5 {
        '5'
    } else if v == 6 {
        '6'
    } else if v == 7 {
        '7'
    } else if v == 8 {
        '8'
    } else {
        '9'
    }
}

/// The value of a decimal digit character, if it is one.
fn digit_val_of(c: char) -> (r: Option<u32>)
    ensures
        match r {
            Some(v) => v < 10 && digit_val(c) == v as int,
            None => digit_val(c) == -1,
        },
{
    let u = c as u32;
    if 48 <= u && u <= 57 {
        Some(u - 48)
    } else {
        None
    }
}

/// Writes a date as `YYYY-MM-DD`, zero-padded.
pub fn format_date(d: &Date) -> (r: String)
    requires
        d.valid(),
    ensures
        r@ == spec_format_date(*d),
{
    let y = d.year as u32;
    let m = d.month as u32;
    let dd = d.day as u32;
    let mut out: Vec<char> = Vec::new();
    out.push(digit_char_of(y / 1000));
    out.push(digit_char_of(y / 100 % 10));
    out.push(digit_char_of(y / 10 % 10));
    out.push(digit_char_of(y % 10));
    out.push('-');
    out.push(digit_char_of(m / 10));
    out.push(digit_char_of(m % 10));
    out.push('-');
    out.push(digit_char_of(dd / 10));
    out.push(digit_char_of(dd % 10));
    proof {
        assert(out@ =~= spec_format_date(*d));
    }
    chars_to_string(&out)
}

/// Reads a date written as `YYYY-MM-DD`.
///
/// Returns the date exactly when the text has that shape and names a real
/// day of the calendar.
pub fn parse_date(s: &str) -> (r: Option<Date>)
    ensures
        r == spec_parse_date(s@),
{
    if s.unicode_len() != 10 {
        return None;
    }
    let d0 = digit_val_of(s.get_char(0));
    let d1 = digit_val_of(s.get_char(1));
    let d2 = digit_val_of(s.get_char(2));
    let d3 = digit_val_of(s.get_char(3));
    let d5 = digit_val_of(s.get_char(5));
    let d6 = digit_val_of(s.get_char(6));
    let d8 = digit_val_of(s.get_char(8));
    let d9 = digit_val_of(s.get_char(9));
    if s.get_char(4) != '-' || s.get_char(7) != '-' {
        return None;
    }
    match (d0, d1, d2, d3, d5, d6, d8, d9) {
        (
            Some(v0),
            Some(v1),
            Some(v2),
            Some(v3),
            Some(v5),
            Some(v6),
            Some(v8),
            Some(v9),
        ) => {
            let y: u32 = v0 * 1000 + v1 * 100 + v2 * 10 + v3;
            let m: u32 = v5 * 10 + v6;
            let dd: u32 = v8 * 10 + v9;
            let date = Date { year: y as i32, month: m as u8, day: dd as u8 };
            if date.is_valid() {
                Some(date)
            } else {
                None
            }
        },
        _ => None,
    }
}

/// Round trip: a valid date, written as `YYYY-MM-DD`, reads back as
/// itself.
pub proof fn lemma_date_round_trip(d: Date)
    requires
        d.valid(),
    ensures
        spec_parse_date(spec_format_date(d)) == Some(d),
{
    let s = spec_format_date(d);
    let y = d.year as int;
    let m = d.month as int;
    let dd = d.day as int;
    assert(s.len() == 10);
    assert(digit_val(digit_char(y / 1000)) == y / 1000);
    assert(digit_val(digit_char(y / 100 % 10)) == y / 100 % 10);
    assert(digit_val(digit_char(y / 10 % 10)) == y / 10 % 10);
    assert(digit_val(digit_char(y % 10)) == y % 10);
    assert(digit_val(digit_char(m / 10)) == m / 10);
    assert(digit_val(digit_char(m % 10)) == m % 10);
    assert(digit_val(digit_char(dd / 10)) == dd / 10);
    assert(digit_val(digit_char(dd % 10)) == dd % 10);
    assert((y / 1000) * 1000 + (y / 100 % 10) * 100 + (y / 10 % 10) * 10 + y % 10 == y);
    assert((m / 10) * 10 + m % 10 == m);
    assert((dd / 10) * 10 + dd % 10 == dd);
    let parsed = Date { year: y as i32, month: m as u8, day: dd as u8 };
    assert(parsed =~= d);
}

/// How many days the given year has.
pub open spec fn spec_year_len(y: int) -> int {
    if spec_is_leap_year(y) {
        366
    } else {
        365
    }
}

/// How many days lie before the first day of the given year, counted
/// from the first day of year 0.
pub open spec fn spec_days_before_year(y: int) -> int
    decreases y,
{
    if y <= 0 {
        0
    } else {
        spec_days_before_year(y - 1) + spec_year_len(y - 1)
    }
}

/// How many days of the given year lie before the first day of the given
/// month.
pub open spec fn spec_days_before_month(y: int, m: int) -> int
    decreases m,
{
    if m <= 1 {
        0
    } else {
        spec_days_before_month(y, m - 1) + spec_days_in_month(y, m - 1)
    }
}

/// A date's day number: how many days lie before it, counted from the
/// first day of year 0.
pub open spec fn spec_day_number(d: Date) -> int {
    spec_days_before_year(d.year as int) + spec_days_before_month(d.year as int, d.month as int)
        + d.day - 1
}

/// Day numbers are bounded by a year of the longest kind.
proof fn lemma_days_before_year_bound(y: int)
    requires
        0 <= y,
    ensures
        0 <= spec_days_before_year(y) <= 366 * y,
    decreases y,
{
    if y > 0 {
        lemma_days_before_year_bound(y - 1);
    }
}

/// Day numbers grow with the year.
proof fn lemma_days_before_year_mono(a: int, b: int)
    requires
        0 <= a <= b,
    ensures
        spec_days_before_year(a) <= spec_days_before_year(b),
    decreases b,
{
    if a < b {
        lemma_days_before_year_mono(a, b - 1);
    }
}

/// The twelve months of a year hold exactly its days.
proof fn lemma_months_sum(y: int)
    ensures
        spec_days_before_month(y, 13) == spec_year_len(y),
{
    reveal_with_fuel(spec_days_before_month, 13);
}

/// How many days the given year has.
fn year_length(y: i32) -> (r: u32)
    ensures
        r as int == spec_year_len(y as int),
{
    if is_leap_year(y) {
        366
    } else {
        365
    }
}

/// How many days lie before the first day of the given year.
fn days_before_year(y: i32) -> (r: u64)
    requires
        0 <= y <= 10000,
    ensures
        r as int == spec_days_before_year(y as int),
{
    let mut total: u64 = 0;
    let mut i: i32 = 0;
    while i < y
        invariant
            0 <= i <= y <= 10000,
            total as int == spec_days_before_year(i as int),
            total <= 366 * (i as u64),
        decreases y - i,
    {
        total = total + year_length(i) as u64;
        i = i + 1;
    }
    total
}

/// The date with the given day number, counted from the first day of
/// year 0.
pub fn date_of_day_number(days: u64) -> (r: Date)
    requires
        days < spec_days_before_year(10000),
    ensures
        r.valid(),
        spec_day_number(r) == days,
{
    let mut y: i32 = 0;
    let mut rem: u64 = days;
    while rem >= year_length(y) as u64
        invariant
            0 <= y <= 9999,
            rem as int == days - spec_days_before_year(y as int),
            days < spec_days_before_year(10000),
        decreases 9999 - y,
    {
        proof {
            if y == 9999 {
                assert(spec_days_before_year(10000) == spec_days_before_year(9999) + spec_year_len(
                    9999,
                ));
                assert(false);
            }
        }
        rem = rem - year_length(y) as u64;
        y = y + 1;
    }
    let ghost rem_year = rem as int;
    let mut m: u8 = 1;
    while rem >= days_in_month(y, m) as u64
        invariant
            1 <= m <= 12,
            0 <= y <= 9999,
            rem as int == rem_year - spec_days_before_month(y as int, m as int),
            rem_year < spec_year_len(y as int),
            rem_year == days - spec_days_before_year(y as int),
        decreases 12 - m,
    {
        proof {
            if m == 12 {
                lemma_months_sum(y as int);
                assert(spec_days_before_month(y as int, 13) == spec_days_before_month(y as int, 12)
                    + spec_days_in_month(y as int, 12));
                assert(false);
            }
        }
        rem = rem - days_in_month(y, m) as u64;
        m = m + 1;
    }
    let day = (rem + 1) as u8;
    Date { year: y, month: m, day }
}

/// Day numbers grow with the month, within a year.
proof fn lemma_days_before_month_mono(y: int, a: int, b: int)
    requires
        1 <= a <= b,
    ensures
        spec_days_before_month(y, a) <= spec_days_before_month(y, b),
    decreases b,
{
    if a < b {
        lemma_days_before_month_mono(y, a, b - 1);
    }
}

/// A valid date's day number falls inside its own year.
proof fn lemma_day_number_in_year(d: Date)
    requires
        d.valid(),
    ensures
        spec_days_before_year(d.year as int) <= spec_day_number(d) < spec_days_before_year(
            d.year as int,
        ) + spec_year_len(d.year as int),
{
    let y = d.year as int;
    let m = d.month as int;
    lemma_days_before_month_mono(y, 1, m);
    assert(spec_days_before_month(y, m + 1) == spec_days_before_month(y, m) + spec_days_in_month(
        y,
        m,
    ));
    lemma_days_before_month_mono(y, m + 1, 13);
    lemma_months_sum(y);
}

/// No two valid dates share a day number.
pub proof fn lemma_day_number_injective(d1: Date, d2: Date)
    requires
        d1.valid(),
        d2.valid(),
        spec_day_number(d1) == spec_day_number(d2),
    ensures
        d1 == d2,
{
    lemma_day_number_in_year(d1);
    lemma_day_number_in_year(d2);
    let y1 = d1.year as int;
    let y2 = d2.year as int;
    if y1 < y2 {
        lemma_days_before_year_mono(y1 + 1, y2);
        assert(false);
    }
    if y2 < y1 {
        lemma_days_before_year_mono(y2 + 1, y1);
        assert(false);
    }
    let m1 = d1.month as int;
    let m2 = d2.month as int;
    if m1 < m2 {
        assert(spec_days_before_month(y1, m1 + 1) == spec_days_before_month(y1, m1)
            + spec_days_in_month(y1, m1));
        lemma_days_before_month_mono(y1, m1 + 1, m2);
        assert(false);
    }
    if m2 < m1 {
        assert(spec_days_before_month(y1, m2 + 1) == spec_days_before_month(y1, m2)
            + spec_days_in_month(y1, m2));
        lemma_days_before_month_mono(y1, m2 + 1, m1);
        assert(false);
    }
    assert(d1 =~= d2);
}

/// How many days of the given year lie before the given month.
fn days_before_month(y: i32, m: u8) -> (r: u32)
    requires
        1 <= m <= 12,
    ensures
        r as int == spec_days_before_month(y as int, m as int),
{
    let mut total: u32 = 0;
    let mut i: u8 = 1;
    while i < m
        invariant
            1 <= i <= m <= 12,
            total as int == spec_days_before_month(y as int, i as int),
            total <= 31 * (i as u32),
        decreases m - i,
    {
        total = total + days_in_month(y, i) as u32;
        i = i + 1;
    }
    total
}

/// A valid date's day number, counted from the first day of year 0.
pub fn day_number_of_date(d: &Date) -> (r: u64)
    requires
        d.valid(),
    ensures
        r as int == spec_day_number(*d),
{
    let before_year = days_before_year(d.year);
    let before_month = days_before_month(d.year, d.month);
    proof {
        lemma_days_before_year_bound(d.year as int);
        lemma_days_before_month_mono(d.year as int, d.month as int, 13);
        lemma_months_sum(d.year as int);
    }
    before_year + before_month as u64 + (d.day - 1) as u64
}

/// The Unix timestamp of a valid date's first moment, in UTC.  A date
/// before 1970 is refused.
pub fn timestamp_of_date(d: &Date) -> (r: Option<i64>)
    requires
        d.valid(),
    ensures
        match r {
            Some(ts) => ts == (spec_day_number(*d) - spec_days_before_year(1970)) * 86400 && ts
                >= 0,
            None => spec_day_number(*d) < spec_days_before_year(1970),
        },
{
    let number = day_number_of_date(d);
    let epoch = days_before_year(1970);
    if number < epoch {
        return None;
    }
    let days = number - epoch;
    proof {
        lemma_days_before_year_mono(d.year as int + 1, 10000);
        lemma_day_number_in_year(*d);
        lemma_days_before_year_bound(10000);
        assert(days < 3700000);
    }
    Some((days as i64) * 86400)
}

/// The calendar date and clock time a non-negative Unix timestamp
/// denotes, in UTC: the date, the hour, the minute and the second.
/// Refuses a negative timestamp and one past the four-digit years.
pub fn try_date_time_of_timestamp(ts: i64) -> (r: Option<(Date, u8, u8, u8)>)
    ensures
        match r {
            Some(p) => {
                &&& 0 <= ts
                &&& p.0.valid()
                &&& spec_day_number(p.0) == spec_days_before_year(1970) + ts / 86400
                &&& p.1 as int == ts % 86400 / 3600
                &&& p.2 as int == ts % 86400 % 3600 / 60
                &&& p.3 as int == ts % 86400 % 60
            },
            None => ts < 0 || spec_days_before_year(1970) + ts / 86400 >= spec_days_before_year(
                10000,
            ),
        },
{
    if ts < 0 {
        return None;
    }
    let epoch = days_before_year(1970);
    let limit = days_before_year(10000);
    proof {
        lemma_days_before_year_mono(1970, 10000);
    }
    let day_offset = (ts / 86400) as u64;
    if day_offset >= limit - epoch {
        return None;
    }
    let date = date_of_day_number(epoch + day_offset);
    let in_day = (ts % 86400) as u32;
    let hour = (in_day / 3600) as u8;
    let minute = (in_day % 3600 / 60) as u8;
    let second = (in_day % 60) as u8;
    Some((date, hour, minute, second))
}

/// Writes a date and a clock time as `YYYY-MM-DD HH:MM`, zero-padded.
pub fn format_date_time(d: &Date, hour: u8, minute: u8) -> (r: String)
    requires
        d.valid(),
        hour < 24,
        minute < 60,
    ensures
        r@ == spec_format_date(*d) + seq![
            ' ',
            digit_char(hour as int / 10),
            digit_char(hour as int % 10),
            ':',
            digit_char(minute as int / 10),
            digit_char(minute as int % 10),
        ],
{
    let mut out: Vec<char> = crate::text::str_to_chars(format_date(d).as_str());
    out.push(' ');
    out.push(digit_char_of(hour as u32 / 10));
    out.push(digit_char_of(hour as u32 % 10));
    out.push(':');
    out.push(digit_char_of(minute as u32 / 10));
    out.push(digit_char_of(minute as u32 % 10));
    proof {
        assert(out@ =~= spec_format_date(*d) + seq![
            ' ',
            digit_char(hour as int / 10),
            digit_char(hour as int % 10),
            ':',
            digit_char(minute as int / 10),
            digit_char(minute as int % 10),
        ]);
    }
    chars_to_string(&out)
}

/// Writing a digit's value yields the digit character back.
proof fn lemma_digit_char_inverse(c: char)
    requires
        digit_val(c) >= 0,
    ensures
        digit_char(digit_val(c)) == c,
{
    let u = c as u32;
    vstd::utf8::char_u32_cast(c, u);
    vstd::utf8::char_u32_cast('0', '0' as u32);
    vstd::utf8::char_u32_cast('1', '1' as u32);
    vstd::utf8::char_u32_cast('2', '2' as u32);
    vstd::utf8::char_u32_cast('3', '3' as u32);
    vstd::utf8::char_u32_cast('4', '4' as u32);
    vstd::utf8::char_u32_cast('5', '5' as u32);
    vstd::utf8::char_u32_cast('6', '6' as u32);
    vstd::utf8::char_u32_cast('7', '7' as u32);
    vstd::utf8::char_u32_cast('8', '8' as u32);
    vstd::utf8::char_u32_cast('9', '9' as u32);
}

/// Round trip the other way: a text that parses as a date is exactly that
/// date written out again.
#[verifier::rlimit(100)]
pub proof fn lemma_date_parse_then_format(s: Seq<char>, d: Date)
    requires
        spec_parse_date(s) == Some(d),
    ensures
        spec_format_date(d) == s,
{
    let y = d.year as int;
    let m = d.month as int;
    let dd = d.day as int;
    assert(y == digit_val(s[0]) * 1000 + digit_val(s[1]) * 100 + digit_val(s[2]) * 10 + digit_val(
        s[3],
    ));
    assert(y / 1000 == digit_val(s[0]));
    assert(y / 100 % 10 == digit_val(s[1]));
    assert(y / 10 % 10 == digit_val(s[2]));
    assert(y % 10 == digit_val(s[3]));
    assert(m / 10 == digit_val(s[5]));
    assert(m % 10 == digit_val(s[6]));
    assert(dd / 10 == digit_val(s[8]));
    assert(dd % 10 == digit_val(s[9]));
    lemma_digit_char_inverse(s[0]);
    lemma_digit_char_inverse(s[1]);
    lemma_digit_char_inverse(s[2]);
    lemma_digit_char_inverse(s[3]);
    lemma_digit_char_inverse(s[5]);
    lemma_digit_char_inverse(s[6]);
    lemma_digit_char_inverse(s[8]);
    lemma_digit_char_inverse(s[9]);
    assert(spec_format_date(d) =~= s);
}

} // verus!
