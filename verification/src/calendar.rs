//! Calendar dates of the proleptic Gregorian calendar, as `chrono` knows them.
use vstd::prelude::*;

use chrono::{Datelike, NaiveDate};

verus! {

/// Earliest year that `chrono::NaiveDate` can hold.
pub open spec fn min_year() -> int {
    -262143
}

/// Latest year that `chrono::NaiveDate` can hold.
pub open spec fn max_year() -> int {
    262142
}

/// Leap years of the proleptic Gregorian calendar (year 0 is 1 BCE and is a leap year).
pub open spec fn is_leap_year(year: int) -> bool {
    year % 4 == 0 && (year % 100 != 0 || year % 400 == 0)
}

pub open spec fn days_in_month(year: int, month: int) -> int {
    if month == 2 {
        if is_leap_year(year) {
            29
        } else {
            28
        }
    } else if month == 4 || month == 6 || month == 9 || month == 11 {
        30
    } else {
        31
    }
}

/// A year, month and day that name a day `chrono` can represent.
pub open spec fn valid_ymd(year: int, month: int, day: int) -> bool {
    &&& min_year() <= year <= max_year()
    &&& 1 <= month <= 12
    &&& 1 <= day <= days_in_month(year, month)
}

/// Number of days of the year that come before the first of `month`.
pub open spec fn days_before_month(year: int, month: int) -> int {
    let common: int = if month == 1 {
        0
    } else if month == 2 {
        31
    } else if month == 3 {
        59
    } else if month == 4 {
        90
    } else if month == 5 {
        120
    } else if month == 6 {
        151
    } else if month == 7 {
        181
    } else if month == 8 {
        212
    } else if month == 9 {
        243
    } else if month == 10 {
        273
    } else if month == 11 {
        304
    } else {
        334
    };
    if is_leap_year(year) && month > 2 {
        common + 1
    } else {
        common
    }
}

/// Day number counted from 0001-01-01, which is day 1.
pub open spec fn days_from_ce(year: int, month: int, day: int) -> int {
    let py = year - 1;
    365 * py + py / 4 - py / 100 + py / 400 + days_before_month(year, month) + day
}

/// Day of the week, counted from Monday (0) to Sunday (6); 0001-01-01 was a Monday.
pub open spec fn weekday_from_monday(year: int, month: int, day: int) -> int {
    (days_from_ce(year, month, day) + 6) % 7
}

/// Saturday and Sunday.
pub open spec fn is_weekend_day(weekday: int) -> bool {
    weekday == 5 || weekday == 6
}

/// The mathematical content of a `Date`.
pub struct DateView {
    pub year: int,
    pub month: int,
    pub day: int,
}

impl DateView {
    pub open spec fn valid(self) -> bool {
        valid_ymd(self.year, self.month, self.day)
    }

    pub open spec fn weekday(self) -> int {
        weekday_from_monday(self.year, self.month, self.day)
    }

    /// The integer under which a day is filed in a holiday index.
    pub open spec fn key(self) -> int {
        (self.year + 0x8000_0000) * 512 + self.month * 32 + self.day
    }
}

/// Distinct valid days are filed under distinct keys.
pub proof fn lemma_date_key_injective(a: DateView, b: DateView)
    requires
        a.valid(),
        b.valid(),
        a.key() == b.key(),
    ensures
        a == b,
{
}

/// A calendar day (year, month, day) that `chrono::NaiveDate` can represent.
#[derive(Debug, Clone, Copy)]
pub struct Date {
    year: i32,
    month: u32,
    day: u32,
}

/// Whether `chrono::NaiveDate::from_ymd_opt` accepts the year, month and day.
///
/// Its documentation and source: `None` exactly when the day does not exist in the
/// proleptic Gregorian calendar, or the year lies outside `MIN_YEAR..=MAX_YEAR`
/// (`(i32::MIN >> 13) + 1` and `(i32::MAX >> 13) - 1`).
#[verifier::external_body]
fn chrono_accepts_ymd(year: i32, month: u32, day: u32) -> (r: bool)
    ensures
        r == valid_ymd(year as int, month as int, day as int),
{
    NaiveDate::from_ymd_opt(year, month, day).is_some()
}

/// The day of the week that `chrono`'s `Datelike::weekday` gives, as
/// `Weekday::num_days_from_monday`.
///
/// `chrono::NaiveDate` is documented as a date of the proleptic Gregorian calendar, so
/// its weekday is the Gregorian one; the input is a valid date, so `from_ymd_opt` does
/// not return `None`.
#[verifier::external_body]
fn chrono_weekday_from_monday(year: i32, month: u32, day: u32) -> (r: u32)
    requires
        valid_ymd(year as int, month as int, day as int),
    ensures
        r as int == weekday_from_monday(year as int, month as int, day as int),
{
    NaiveDate::from_ymd_opt(year, month, day).unwrap().weekday().num_days_from_monday()
}

/// What `chrono::NaiveDate::parse_from_str(text, format)` yields, as year, month and day.
pub uninterp spec fn chrono_parsed_date(text: Seq<char>, format: Seq<char>) -> Option<(i32, u32, u32)>;

/// An ASCII decimal digit.
pub open spec fn is_digit(c: char) -> bool {
    48 <= (c as int) <= 57
}

/// The value of a decimal digit.
pub open spec fn digit_value(c: char) -> int {
    (c as int) - 48
}

/// The character of the decimal digit `k` (0 to 9).
pub open spec fn digit_char(k: int) -> char {
    (k + 48) as char
}

/// The year, month and day that a text of exactly the form `DDDD-DD-DD` (ten characters,
/// ASCII digits, dashes at positions 4 and 7) writes, read as decimal numbers.
pub open spec fn canonical_ymd(text: Seq<char>) -> Option<(int, int, int)> {
    if text.len() == 10 && text[4] == '-' && text[7] == '-' && is_digit(text[0]) && is_digit(
        text[1],
    ) && is_digit(text[2]) && is_digit(text[3]) && is_digit(text[5]) && is_digit(text[6])
        && is_digit(text[8]) && is_digit(text[9]) {
        Some(
            (
                1000 * digit_value(text[0]) + 100 * digit_value(text[1]) + 10 * digit_value(text[2])
                    + digit_value(text[3]),
                10 * digit_value(text[5]) + digit_value(text[6]),
                10 * digit_value(text[8]) + digit_value(text[9]),
            ),
        )
    } else {
        None
    }
}

/// A day written `YYYY-MM-DD`, zero-padded (for years 0 to 9999).
pub open spec fn ymd_text(year: int, month: int, day: int) -> Seq<char> {
    seq![
        digit_char(year / 1000),
        digit_char((year / 100) % 10),
        digit_char((year / 10) % 10),
        digit_char(year % 10),
        '-',
        digit_char(month / 10),
        digit_char(month % 10),
        '-',
        digit_char(day / 10),
        digit_char(day % 10),
    ]
}

/// `chrono::NaiveDate::parse_from_str`: the year, month and day it parses, or `None` where
/// it returns an error. The result is named (`chrono_parsed_date`). Its source
/// (`format::parse`, `format::scan::number`, `Parsed::set_month`/`set_day`/`to_naive_date`)
/// shows that with the format `%Y-%m-%d` a text of exactly the form `DDDD-DD-DD` is read as
/// four year digits, a dash, two month digits, a dash and two day digits, and gives that
/// day where it exists and an error where it does not. Of other texts the contract says
/// only that a parsed day is one `NaiveDate` can hold, which every `NaiveDate` is.
#[verifier::external_body]
fn chrono_parse_date(text: &str, format: &str) -> (r: Option<(i32, u32, u32)>)
    ensures
        r == chrono_parsed_date(text@, format@),
        r matches Some(t) ==> valid_ymd(t.0 as int, t.1 as int, t.2 as int),
        format@ == ymd_format() && canonical_ymd(text@) is Some ==> r == (if valid_ymd(
            canonical_ymd(text@)->Some_0.0,
            canonical_ymd(text@)->Some_0.1,
            canonical_ymd(text@)->Some_0.2,
        ) {
            Some(
                (
                    canonical_ymd(text@)->Some_0.0 as i32,
                    canonical_ymd(text@)->Some_0.1 as u32,
                    canonical_ymd(text@)->Some_0.2 as u32,
                ),
            )
        } else {
            None
        }),
{
    match NaiveDate::parse_from_str(text, format) {
        Ok(d) => Some((d.year(), d.month(), d.day())),
        Err(_) => None,
    }
}

/// The format in which holiday files and the command line write a day.
pub open spec fn ymd_format() -> Seq<char> {
    "%Y-%m-%d"@
}

/// The day that `text` names in the `YYYY-MM-DD` format, as `chrono` reads it: a text of
/// exactly the form `DDDD-DD-DD` names the day it writes, where that day exists; other
/// texts are read as `chrono` reads them.
pub open spec fn parsed_ymd(text: Seq<char>) -> Option<DateView> {
    match canonical_ymd(text) {
        Some(t) => if valid_ymd(t.0, t.1, t.2) {
            Some(DateView { year: t.0, month: t.1, day: t.2 })
        } else {
            None
        },
        None => match chrono_parsed_date(text, ymd_format()) {
            Some(t) => Some(DateView { year: t.0 as int, month: t.1 as int, day: t.2 as int }),
            None => None,
        },
    }
}

/// A decimal digit's character is a digit of that value.
pub proof fn lemma_digit_char(k: int)
    requires
        0 <= k <= 9,
    ensures
        is_digit(digit_char(k)),
        digit_value(digit_char(k)) == k,
{
    assert(((k + 48) as char) as int == k + 48);
}

/// The four decimal digits of a year from 0 to 9999 make it up again.
pub proof fn lemma_four_digits(y: int)
    requires
        0 <= y <= 9999,
    ensures
        0 <= y / 1000 <= 9,
        0 <= (y / 100) % 10 <= 9,
        0 <= (y / 10) % 10 <= 9,
        0 <= y % 10 <= 9,
        1000 * (y / 1000) + 100 * ((y / 100) % 10) + 10 * ((y / 10) % 10) + y % 10 == y,
{
    let a = y / 1000;
    let r1 = y % 1000;
    assert(y == 1000 * a + r1 && 0 <= r1 < 1000);
    let b = r1 / 100;
    let r2 = r1 % 100;
    assert(r1 == 100 * b + r2 && 0 <= r2 < 100);
    let c = r2 / 10;
    let e = r2 % 10;
    assert(r2 == 10 * c + e && 0 <= e < 10);
    assert(y / 100 == 10 * a + b);
    assert((y / 100) % 10 == b);
    assert(y / 10 == 100 * a + 10 * b + c);
    assert((y / 10) % 10 == c);
    assert(y % 10 == e);
}

/// The two decimal digits of a number from 0 to 99 make it up again.
pub proof fn lemma_two_digits(n: int)
    requires
        0 <= n <= 99,
    ensures
        0 <= n / 10 <= 9,
        0 <= n % 10 <= 9,
        10 * (n / 10) + n % 10 == n,
{
}

/// The text of a day, written `YYYY-MM-DD`, is read back as that day.
pub proof fn lemma_ymd_text_reads_back(year: int, month: int, day: int)
    requires
        0 <= year <= 9999,
        1 <= month <= 12,
        1 <= day <= 31,
    ensures
        canonical_ymd(ymd_text(year, month, day)) == Some((year, month, day)),
{
    let t = ymd_text(year, month, day);
    lemma_four_digits(year);
    lemma_two_digits(month);
    lemma_two_digits(day);
    lemma_digit_char(year / 1000);
    lemma_digit_char((year / 100) % 10);
    lemma_digit_char((year / 10) % 10);
    lemma_digit_char(year % 10);
    lemma_digit_char(month / 10);
    lemma_digit_char(month % 10);
    lemma_digit_char(day / 10);
    lemma_digit_char(day % 10);
    assert(t.len() == 10);
    assert(t[0] == digit_char(year / 1000));
    assert(t[1] == digit_char((year / 100) % 10));
    assert(t[2] == digit_char((year / 10) % 10));
    assert(t[3] == digit_char(year % 10));
    assert(t[4] == '-');
    assert(t[5] == digit_char(month / 10));
    assert(t[6] == digit_char(month % 10));
    assert(t[7] == '-');
    assert(t[8] == digit_char(day / 10));
    assert(t[9] == digit_char(day % 10));
}

impl View for Date {
    type V = DateView;

    closed spec fn view(&self) -> DateView {
        DateView { year: self.year as int, month: self.month as int, day: self.day as int }
    }
}

impl Date {
    #[verifier::type_invariant]
    pub closed spec fn inv(self) -> bool {
        valid_ymd(self.year as int, self.month as int, self.day as int)
    }

    /// The invariant of a `Date` is that its view is a valid day.
    pub proof fn lemma_inv_valid(self)
        requires
            self.inv(),
        ensures
            self@.valid(),
    {
    }

    /// The day with this year, month and day, where it exists.
    pub fn from_ymd_opt(year: i32, month: u32, day: u32) -> (r: Option<Date>)
        ensures
            r is Some <==> valid_ymd(year as int, month as int, day as int),
            r matches Some(d) ==> d@ == (DateView { year: year as int, month: month as int, day: day as int }),
    {
        if chrono_accepts_ymd(year, month, day) {
            Some(Date { year, month, day })
        } else {
            None
        }
    }

    /// Reads a day written as `YYYY-MM-DD`, as `chrono`'s `%Y-%m-%d` reads it.
    pub fn parse_ymd(text: &str) -> (r: Option<Date>)
        ensures
            r is Some <==> parsed_ymd(text@) is Some,
            r matches Some(d) ==> Some(d@) == parsed_ymd(text@),
            canonical_ymd(text@) matches Some(t) ==> (r is Some <==> valid_ymd(t.0, t.1, t.2)),
            canonical_ymd(text@) matches Some(t) ==> (r is Some ==> r->Some_0@ == (DateView {
                year: t.0,
                month: t.1,
                day: t.2,
            })),
    {
        let format = "%Y-%m-%d";
        proof {
            reveal_strlit("%Y-%m-%d");
        }
        assert(format@ == ymd_format());
        match chrono_parse_date(text, format) {
            Some((year, month, day)) => Some(Date { year, month, day }),
            None => None,
        }
    }

    pub fn year(&self) -> (r: i32)
        ensures
            r as int == self@.year,
    {
        self.year
    }

    pub fn month(&self) -> (r: u32)
        ensures
            r as int == self@.month,
    {
        self.month
    }

    pub fn day(&self) -> (r: u32)
        ensures
            r as int == self@.day,
    {
        self.day
    }

    /// Day of the week, Monday = 0 to Sunday = 6.
    pub fn weekday_from_monday(&self) -> (r: u32)
        ensures
            r as int == self@.weekday(),
            r < 7,
    {
        proof {
            use_type_invariant(self);
        }
        chrono_weekday_from_monday(self.year, self.month, self.day)
    }

    /// The integer under which this day is filed in a holiday index.
    pub fn key(&self) -> (r: u64)
        ensures
            r as int == self@.key(),
    {
        proof {
            use_type_invariant(self);
        }
        let shifted: u64 = (self.year as i64 + 0x8000_0000i64) as u64;
        shifted * 512 + (self.month as u64) * 32 + (self.day as u64)
    }
}

} // verus!
