//! Plain calendar and clock values: dates, minute-resolution times of day,
//! weekdays, and timestamps. The surrounding process reads the wall clock and
//! hands these in as plain values.

use vstd::prelude::*;

verus! {

/// A calendar date. Well-formed dates satisfy [`Date::wf`].
#[derive(Clone, Copy, PartialEq, Eq, Structural, Debug)]
pub struct Date {
    pub year: u16,
    pub month: u8,
    pub day: u8,
}

/// A minute-resolution time of day. Well-formed times satisfy [`TimeOfDay::wf`].
#[derive(Clone, Copy, PartialEq, Eq, Structural, Debug)]
pub struct TimeOfDay {
    pub hour: u8,
    pub minute: u8,
}

/// A day of the week.
#[derive(Clone, Copy, PartialEq, Eq, Structural, Debug)]
pub enum Weekday {
    Mon,
    Tue,
    Wed,
    Thu,
    Fri,
    Sat,
    Sun,
}

/// A minute-resolution timestamp.
#[derive(Clone, Copy, PartialEq, Eq, Structural, Debug)]
pub struct Stamp {
    pub date: Date,
    pub time: TimeOfDay,
}

pub open spec fn spec_is_leap_year(y: int) -> bool {
    (y % 4 == 0 && y % 100 != 0) || y % 400 == 0
}

pub open spec fn spec_days_in_month(y: int, m: int) -> int {
    if m == 2 {
        if spec_is_leap_year(y) {
            29
        } else {
            28
        }
    } else if m == 4 || m == 6 || m == 9 || m == 11 {
        30
    } else {
        31
    }
}

impl Date {
    /// A proper date of the Gregorian calendar, with a four-digit year.
    pub open spec fn wf(self) -> bool {
        &&& self.year <= 9999
        &&& 1 <= self.month <= 12
        &&& 1 <= self.day <= spec_days_in_month(self.year as int, self.month as int)
    }
}

impl TimeOfDay {
    pub open spec fn wf(self) -> bool {
        self.hour < 24 && self.minute < 60
    }
}

impl Stamp {
    pub open spec fn wf(self) -> bool {
        self.date.wf() && self.time.wf()
    }
}

/// Dates ordered by (year, month, day).
pub open spec fn spec_date_lt(a: Date, b: Date) -> bool {
    ||| a.year < b.year
    ||| (a.year == b.year && a.month < b.month)
    ||| (a.year == b.year && a.month == b.month && a.day < b.day)
}

pub open spec fn spec_date_le(a: Date, b: Date) -> bool {
    spec_date_lt(a, b) || a == b
}

/// Whether `a` precedes `b`.
pub fn date_lt(a: &Date, b: &Date) -> (r: bool)
    ensures
        r == spec_date_lt(*a, *b),
{
    if a.year != b.year {
        a.year < b.year
    } else if a.month != b.month {
        a.month < b.month
    } else {
        a.day < b.day
    }
}

pub fn days_in_month(year: u16, month: u8) -> (r: u8)
    ensures
        r as int == spec_days_in_month(year as int, month as int),
{
    if month == 2 {
        if (year % 4 == 0 && year % 100 != 0) || year % 400 == 0 {
            29
        } else {
            28
        }
    } else if month == 4 || month == 6 || month == 9 || month == 11 {
        30
    } else {
        31
    }
}

/// Days of the months before month `m` in a year `y` (0 for January).
pub open spec fn spec_days_before_month(y: int, m: int) -> int {
    let base: int = if m == 1 {
        0
    } else if m == 2 {
        31
    } else if m == 3 {
        59
    } else if m == 4 {
        90
    } else if m == 5 {
        120
    } else if m == 6 {
        151
    } else if m == 7 {
        181
    } else if m == 8 {
        212
    } else if m == 9 {
        243
    } else if m == 10 {
        273
    } else if m == 11 {
        304
    } else {
        334
    };
    base + if m >= 3 && spec_is_leap_year(y) {
        1int
    } else {
        0int
    }
}

/// Days from the proleptic Gregorian epoch (the first of January of year 1,
/// a Monday) to the given date.
pub open spec fn spec_day_number(d: Date) -> int {
    let y1 = d.year - 1;
    365 * y1 + y1 / 4 - y1 / 100 + y1 / 400 + spec_days_before_month(
        d.year as int,
        d.month as int,
    ) + d.day - 1
}

/// The weekday of a date.
pub open spec fn spec_weekday_of(d: Date) -> Weekday {
    let w = spec_day_number(d) % 7;
    if w == 0 {
        Weekday::Mon
    } else if w == 1 {
        Weekday::Tue
    } else if w == 2 {
        Weekday::Wed
    } else if w == 3 {
        Weekday::Thu
    } else if w == 4 {
        Weekday::Fri
    } else if w == 5 {
        Weekday::Sat
    } else {
        Weekday::Sun
    }
}

/// Computes the weekday of a date of the common era.
pub fn weekday_of(d: &Date) -> (r: Weekday)
    requires
        d.wf(),
        d.year >= 1,
    ensures
        r == spec_weekday_of(*d),
{
    let y1: u32 = (d.year - 1) as u32;
    let base: u32 = if d.month == 1 {
        0
    } else if d.month == 2 {
        31
    } else if d.month == 3 {
        59
    } else if d.month == 4 {
        90
    } else if d.month == 5 {
        120
    } else if d.month == 6 {
        151
    } else if d.month == 7 {
        181
    } else if d.month == 8 {
        212
    } else if d.month == 9 {
        243
    } else if d.month == 10 {
        273
    } else if d.month == 11 {
        304
    } else {
        334
    };
    let leap_extra: u32 = if d.month >= 3 && ((d.year % 4 == 0 && d.year % 100 != 0) || d.year
        % 400 == 0) {
        1
    } else {
        0
    };
    proof {
        vstd::arithmetic::div_mod::lemma_div_nonincreasing(y1 as int, 100);
        vstd::arithmetic::div_mod::lemma_div_pos_is_pos(y1 as int, 4);
        vstd::arithmetic::div_mod::lemma_div_pos_is_pos(y1 as int, 400);
    }
    let dn: u32 = 365 * y1 + y1 / 4 - y1 / 100 + y1 / 400 + base + leap_extra + (d.day as u32)
        - 1;
    let w: u32 = dn % 7;
    if w == 0 {
        Weekday::Mon
    } else if w == 1 {
        Weekday::Tue
    } else if w == 2 {
        Weekday::Wed
    } else if w == 3 {
        Weekday::Thu
    } else if w == 4 {
        Weekday::Fri
    } else if w == 5 {
        Weekday::Sat
    } else {
        Weekday::Sun
    }
}

/// The value of a decimal digit character, or -1 for any other character.
pub open spec fn spec_digit_val(c: char) -> int {
    if c == '0' {
        0
    } else if c == '1' {
        1
    } else if c == '2' {
        2
    } else if c == '3' {
        3
    } else if c == '4' {
        4
    } else if c == '5' {
        5
    } else if c == '6' {
        6
    } else if c == '7' {
        7
    } else if c == '8' {
        8
    } else if c == '9' {
        9
    } else {
        -1
    }
}

fn digit_val(c: char) -> (r: i8)
    ensures
        r as int == spec_digit_val(c),
{
    if c == '0' {
        0
    } else if c == '1' {
        1
    } else if c == '2' {
        2
    } else if c == '3' {
        3
    } else if c == '4' {
        4
    } else if c == '5' {
        5
    } else if c == '6' {
        6
    } else if c == '7' {
        7
    } else if c == '8' {
        8
    } else if c == '9' {
        9
    } else {
        -1
    }
}

/// The digit character for a value in [0, 10).
pub open spec fn spec_digit_char(d: int) -> char {
    if d == 0 {
        '0'
    } else if d == 1 {
        '1'
    } else if d == 2 {
        '2'
    } else if d == 3 {
        '3'
    } else if d == 4 {
        '4'
    } else if d == 5 {
        '5'
    } else if d == 6 {
        '6'
    } else if d == 7 {
        '7'
    } else if d == 8 {
        '8'
    } else {
        '9'
    }
}

fn digit_str(d: u16) -> (r: &'static str)
    requires
        d < 10,
    ensures
        r@ =~= seq![spec_digit_char(d as int)],
{
    proof {
        reveal_strlit("0");
        reveal_strlit("1");
        reveal_strlit("2");
        reveal_strlit("3");
        reveal_strlit("4");
        reveal_strlit("5");
        reveal_strlit("6");
        reveal_strlit("7");
        reveal_strlit("8");
        reveal_strlit("9");
    }
    if d == 0 {
        "0"
    } else if d == 1 {
        "1"
    } else if d == 2 {
        "2"
    } else if d == 3 {
        "3"
    } else if d == 4 {
        "4"
    } else if d == 5 {
        "5"
    } else if d == 6 {
        "6"
    } else if d == 7 {
        "7"
    } else if d == 8 {
        "8"
    } else {
        "9"
    }
}

/// The ISO-8601 rendering `YYYY-MM-DD` of a date.
pub open spec fn spec_iso_date(d: Date) -> Seq<char> {
    seq![
        spec_digit_char(d.year as int / 1000),
        spec_digit_char((d.year as int / 100) % 10),
        spec_digit_char((d.year as int / 10) % 10),
        spec_digit_char(d.year as int % 10),
        '-',
        spec_digit_char(d.month as int / 10),
        spec_digit_char(d.month as int % 10),
        '-',
        spec_digit_char(d.day as int / 10),
        spec_digit_char(d.day as int % 10),
    ]
}

/// Renders a date as `YYYY-MM-DD`.
pub fn iso_date(d: &Date) -> (r: String)
    requires
        d.wf(),
    ensures
        r@ == spec_iso_date(*d),
{
    proof {
        reveal_strlit("-");
    }
    let mut s = String::new();
    s.append(digit_str(d.year / 1000));
    s.append(digit_str((d.year / 100) % 10));
    s.append(digit_str((d.year / 10) % 10));
    s.append(digit_str(d.year % 10));
    s.append("-");
    s.append(digit_str((d.month / 10) as u16));
    s.append(digit_str((d.month % 10) as u16));
    s.append("-");
    s.append(digit_str((d.day / 10) as u16));
    s.append(digit_str((d.day % 10) as u16));
    proof {
        assert(s@ =~= spec_iso_date(*d));
    }
    s
}

/// The date encoded by a ten-character `YYYY-MM-DD` sequence, if the
/// sequence has that shape and names a proper calendar date.
pub open spec fn spec_parse_iso_date(s: Seq<char>) -> Option<Date> {
    if s.len() == 10 && spec_digit_val(s[0]) >= 0 && spec_digit_val(s[1]) >= 0 && spec_digit_val(
        s[2],
    ) >= 0 && spec_digit_val(s[3]) >= 0 && s[4] == '-' && spec_digit_val(s[5]) >= 0
        && spec_digit_val(s[6]) >= 0 && s[7] == '-' && spec_digit_val(s[8]) >= 0 && spec_digit_val(
        s[9],
    ) >= 0 {
        let y = spec_digit_val(s[0]) * 1000 + spec_digit_val(s[1]) * 100 + spec_digit_val(s[2]) * 10
            + spec_digit_val(s[3]);
        let m = spec_digit_val(s[5]) * 10 + spec_digit_val(s[6]);
        let d = spec_digit_val(s[8]) * 10 + spec_digit_val(s[9]);
        if 1 <= m <= 12 && 1 <= d <= spec_days_in_month(y, m) {
            Some(Date { year: y as u16, month: m as u8, day: d as u8 })
        } else {
            None
        }
    } else {
        None
    }
}

/// Law: rendering a date and parsing it back yields the date itself — no
/// information is lost between a generation's date and its object name.
pub proof fn lemma_iso_date_round_trip(d: Date)
    requires
        d.wf(),
    ensures
        spec_parse_iso_date(spec_iso_date(d)) == Some(d),
{
    let s = spec_iso_date(d);
    let y = d.year as int;
    let m = d.month as int;
    let dd = d.day as int;
    assert(spec_digit_val(spec_digit_char(y / 1000)) == y / 1000);
    assert(spec_digit_val(spec_digit_char((y / 100) % 10)) == (y / 100) % 10);
    assert(spec_digit_val(spec_digit_char((y / 10) % 10)) == (y / 10) % 10);
    assert(spec_digit_val(spec_digit_char(y % 10)) == y % 10);
    assert(spec_digit_val(spec_digit_char(m / 10)) == m / 10);
    assert(spec_digit_val(spec_digit_char(m % 10)) == m % 10);
    assert(spec_digit_val(spec_digit_char(dd / 10)) == dd / 10);
    assert(spec_digit_val(spec_digit_char(dd % 10)) == dd % 10);
    assert((y / 1000) * 1000 + ((y / 100) % 10) * 100 + ((y / 10) % 10) * 10 + y % 10 == y)
        by (nonlinear_arith)
        requires 0 <= y <= 9999;
    assert((m / 10) * 10 + m % 10 == m) by (nonlinear_arith)
        requires 0 <= m <= 12;
    assert((dd / 10) * 10 + dd % 10 == dd) by (nonlinear_arith)
        requires 0 <= dd <= 31;
}

/// Parses a `YYYY-MM-DD` string into a date; any other input yields `None`.
pub fn parse_iso_date(s: &str) -> (r: Option<Date>)
    ensures
        r == spec_parse_iso_date(s@),
        r is Some ==> r->Some_0.wf(),
{
    let len = s.unicode_len();
    if len != 10 {
        return None;
    }
    let d0 = digit_val(s.get_char(0));
    let d1 = digit_val(s.get_char(1));
    let d2 = digit_val(s.get_char(2));
    let d3 = digit_val(s.get_char(3));
    let d5 = digit_val(s.get_char(5));
    let d6 = digit_val(s.get_char(6));
    let d8 = digit_val(s.get_char(8));
    let d9 = digit_val(s.get_char(9));
    if d0 < 0 || d1 < 0 || d2 < 0 || d3 < 0 || d5 < 0 || d6 < 0 || d8 < 0 || d9 < 0 {
        return None;
    }
    if s.get_char(4) != '-' || s.get_char(7) != '-' {
        return None;
    }
    let y: u16 = (d0 as u16) * 1000 + (d1 as u16) * 100 + (d2 as u16) * 10 + (d3 as u16);
    let m: u8 = (d5 as u8) * 10 + (d6 as u8);
    let d: u8 = (d8 as u8) * 10 + (d9 as u8);
    if 1 <= m && m <= 12 && 1 <= d && d <= days_in_month(y, m) {
        Some(Date { year: y, month: m, day: d })
    } else {
        None
    }
}

} // verus!
