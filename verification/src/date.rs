//! Calendar dates without a time of day, as the service's date filters use
//! them.

use vstd::prelude::*;
use vstd::string::*;
use crate::error::QuandlError;
use crate::text::{decimal, push_decimal, push_two_digits, two_digits};

verus! {

/// The earliest year that a date can have.
pub const MIN_YEAR: i32 = -262143;

/// The latest year that a date can have.
pub const MAX_YEAR: i32 = 262142;

/// Whether the year `y` of the proleptic Gregorian calendar has a 29th of
/// February.
pub open spec fn is_leap_year(y: int) -> bool {
    y % 4 == 0 && (y % 100 != 0 || y % 400 == 0)
}

/// The number of days of month `m` in year `y`.
pub open spec fn days_in_month(y: int, m: int) -> int {
    if m == 2 {
        if is_leap_year(y) {
            29
        } else {
            28
        }
    } else if m == 4 || m == 6 || m == 9 || m == 11 {
        30
    } else {
        31
    }
}

/// Whether year `y`, month `m`, day `d` name a day of the calendar.
pub open spec fn is_calendar_date(y: int, m: int, d: int) -> bool {
    &&& MIN_YEAR <= y <= MAX_YEAR
    &&& 1 <= m <= 12
    &&& 1 <= d <= days_in_month(y, m)
}

/// The year as it is written in a date: four digits from 0 to 9999, else a
/// sign and at least four digits.
pub open spec fn year_text(y: int) -> Seq<char> {
    if 0 <= y <= 9999 {
        two_digits((y / 100) as nat) + two_digits((y % 100) as nat)
    } else if y > 9999 {
        seq!['+'] + decimal(y as nat)
    } else if y >= -9999 {
        seq!['-'] + two_digits(((-y) / 100) as nat) + two_digits(((-y) % 100) as nat)
    } else {
        seq!['-'] + decimal((-y) as nat)
    }
}

/// A date in the form `yyyy-mm-dd`.
pub open spec fn date_text(y: int, m: int, d: int) -> Seq<char> {
    year_text(y) + seq!['-'] + two_digits(m as nat) + seq!['-'] + two_digits(d as nat)
}

/// A day of the proleptic Gregorian calendar.
#[derive(Clone, Copy, Debug, PartialEq, Eq, Structural)]
pub struct Date {
    year: i32,
    month: u8,
    day: u8,
}

impl Date {
    #[verifier::type_invariant]
    closed spec fn is_valid(self) -> bool {
        is_calendar_date(self.year as int, self.month as int, self.day as int)
    }

    /// The year of this date.
    pub closed spec fn spec_year(self) -> int {
        self.year as int
    }

    /// The month of this date, from 1.
    pub closed spec fn spec_month(self) -> int {
        self.month as int
    }

    /// The day of the month of this date, from 1.
    pub closed spec fn spec_day(self) -> int {
        self.day as int
    }

    /// The date with the given year, month and day.
    pub closed spec fn of_ymd(ymd: (int, int, int)) -> Date {
        Date { year: ymd.0 as i32, month: ymd.1 as u8, day: ymd.2 as u8 }
    }

    /// The date that the date parser reads from `s`; `None` where it reads
    /// none.
    pub open spec fn parsed(s: Seq<char>) -> Option<Date> {
        match parsed_date(s) {
            Some(ymd) => Some(Date::of_ymd(ymd)),
            None => None,
        }
    }

    /// Whether this date comes later in the calendar than `other`.
    pub open spec fn is_after(self, other: Date) -> bool {
        ||| self.spec_year() > other.spec_year()
        ||| (self.spec_year() == other.spec_year() && self.spec_month() > other.spec_month())
        ||| (self.spec_year() == other.spec_year() && self.spec_month() == other.spec_month()
            && self.spec_day() > other.spec_day())
    }

    /// This date in the form `yyyy-mm-dd`.
    pub open spec fn text(self) -> Seq<char> {
        date_text(self.spec_year(), self.spec_month(), self.spec_day())
    }

    /// Two dates with the same year, month and day are the same date.
    pub proof fn lemma_same_fields(self, other: Date)
        requires
            self.spec_year() == other.spec_year(),
            self.spec_month() == other.spec_month(),
            self.spec_day() == other.spec_day(),
        ensures
            self == other,
    {
    }

    /// The date of the given year, month and day, if the calendar has it.
    pub fn from_ymd_opt(year: i32, month: u32, day: u32) -> (r: Option<Date>)
        ensures
            r.is_some() == is_calendar_date(year as int, month as int, day as int),
            r matches Some(date) ==> date == Date::of_ymd((year as int, month as int, day as int))
                && date.spec_year() == year && date.spec_month() == month && date.spec_day()
                == day,
    {
        if year < MIN_YEAR || year > MAX_YEAR || month < 1 || month > 12 || day < 1 || day > 31 {
            return None;
        }
        let limit: u32 = month_length(year, month);
        if day > limit {
            return None;
        }
        Some(Date { year, month: month as u8, day: day as u8 })
    }

    /// The date written in `s` in the form `yyyy-mm-dd`, or the parser's
    /// error where `s` holds no calendar date.
    pub fn parse(s: &str) -> (r: Result<Date, QuandlError>)
        ensures
            match parsed_date(s@) {
                Some(ymd) => r == Ok::<Date, QuandlError>(Date::of_ymd(ymd)) && ymd == (
                    Date::of_ymd(ymd).spec_year(),
                    Date::of_ymd(ymd).spec_month(),
                    Date::of_ymd(ymd).spec_day(),
                ) && is_calendar_date(ymd.0, ymd.1, ymd.2),
                None => r matches Err(QuandlError::Chrono(_)),
            },
    {
        match parse_ymd(s) {
            Ok(ymd) => Ok(Date { year: ymd.0, month: ymd.1 as u8, day: ymd.2 as u8 }),
            Err(e) => Err(QuandlError::Chrono(e)),
        }
    }

    /// The year of this date.
    pub fn year(&self) -> (y: i32)
        ensures
            y == self.spec_year(),
            MIN_YEAR <= y <= MAX_YEAR,
    {
        proof {
            use_type_invariant(self);
        }
        self.year
    }

    /// The month of this date, from 1.
    pub fn month(&self) -> (m: u32)
        ensures
            m == self.spec_month(),
            1 <= m <= 12,
    {
        proof {
            use_type_invariant(self);
        }
        self.month as u32
    }

    /// The day of the month of this date, from 1.
    pub fn day(&self) -> (d: u32)
        ensures
            d == self.spec_day(),
            1 <= d <= days_in_month(self.spec_year(), self.spec_month()),
    {
        proof {
            use_type_invariant(self);
        }
        self.day as u32
    }

    /// Whether this date comes later in the calendar than `other`.
    pub fn after(&self, other: &Date) -> (r: bool)
        ensures
            r == self.is_after(*other),
    {
        if self.year != other.year {
            self.year > other.year
        } else if self.month != other.month {
            self.month > other.month
        } else {
            self.day > other.day
        }
    }

    /// This date in the form `yyyy-mm-dd`.
    pub fn to_string(&self) -> (s: String)
        ensures
            s@ == self.text(),
    {
        proof {
            use_type_invariant(self);
            reveal_strlit("-");
            reveal_strlit("+");
        }
        let mut s = String::new();
        let year: i32 = self.year;
        if 0 <= year && year <= 9999 {
            push_two_digits(&mut s, (year / 100) as u8);
            push_two_digits(&mut s, (year % 100) as u8);
        } else if year > 9999 {
            s.append("+");
            push_decimal(&mut s, year as u64);
        } else if year >= -9999 {
            let size: i32 = -year;
            s.append("-");
            push_two_digits(&mut s, (size / 100) as u8);
            push_two_digits(&mut s, (size % 100) as u8);
        } else {
            let size: i32 = -year;
            s.append("-");
            push_decimal(&mut s, size as u64);
        }
        assert(s@ =~= year_text(year as int));
        s.append("-");
        push_two_digits(&mut s, self.month);
        s.append("-");
        push_two_digits(&mut s, self.day);
        assert(s@ =~= self.text());
        s
    }
}

/// The year, month and day that the date parser reads from `s`; `None` where
/// it reads no date from it.
pub uninterp spec fn parsed_date(s: Seq<char>) -> Option<(int, int, int)>;

/// Calls chrono's `FromStr` for `NaiveDate`, which reads a year, a month and a
/// day with `-` between them, and takes the three numbers out of the date with
/// `Datelike`'s `year`, `month` and `day`. The contract claims that the outcome
/// depends on the characters of `s` alone, and that a date which was read is a
/// day of the calendar, as every `NaiveDate` is.
#[verifier::external_body]
fn parse_ymd(s: &str) -> (r: Result<(i32, u32, u32), chrono::format::ParseError>)
    ensures
        match r {
            Ok(ymd) => parsed_date(s@) == Some((ymd.0 as int, ymd.1 as int, ymd.2 as int))
                && is_calendar_date(ymd.0 as int, ymd.1 as int, ymd.2 as int),
            Err(_) => parsed_date(s@).is_none(),
        },
{
    let date = s.parse::<chrono::NaiveDate>()?;
    Ok((chrono::Datelike::year(&date), chrono::Datelike::month(&date), chrono::Datelike::day(&date)))
}

/// The number of days of the given month of the given year.
fn month_length(year: i32, month: u32) -> (n: u32)
    requires
        MIN_YEAR <= year <= MAX_YEAR,
        1 <= month <= 12,
    ensures
        n == days_in_month(year as int, month as int),
{
    if month == 2 {
        let shifted: u32 = (year + 400000) as u32;
        assert(is_leap_year(year as int) == is_leap_year(shifted as int)) by {
            assert(shifted as int == year as int + 400000);
        }
        if shifted % 4 == 0 && (shifted % 100 != 0 || shifted % 400 == 0) {
            29
        } else {
            28
        }
    } else if month == 4 || month == 6 || month == 9 || month == 11 {
        30
    } else {
        31
    }
}

} // verus!
