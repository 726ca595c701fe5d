//! Calendar dates written as day, month and year.

use vstd::prelude::*;

use crate::text::{
    i32_of_text, i32_text, int_text, lower_of, lowercase, nat_text, parse_i32, parse_u8,
    same_text, u8_of_text, u8_text,
};

verus! {

/// Why a date could not be read from text.
#[derive(Clone, Copy, Debug, PartialEq, Eq, Structural)]
pub enum DateError {
    MonthParseError,
    YearParseError,
    DayParseError,
    DayRangeError,
    WrongLenError,
}

/// A month of the Gregorian calendar.
#[derive(Clone, Copy, Debug, PartialEq, Eq, Structural)]
pub enum Month {
    Jan,
    Feb,
    Mar,
    Apr,
    May,
    Jun,
    Jul,
    Aug,
    Sep,
    Oct,
    Nov,
    Dec,
}

/// A valid calendar date.
#[derive(Clone, Copy, Debug, PartialEq, Eq, Structural)]
pub struct Date {
    year: i32,
    month: Month,
    day: u8,
}

/// Gregorian leap year rule.
pub open spec fn leap(year: int) -> bool {
    year % 400 == 0 || (year % 4 == 0 && year % 100 != 0)
}

/// Number of days in `month` of `year`.
pub open spec fn month_length(year: int, month: Month) -> int {
    match month {
        Month::Feb => if leap(year) { 29 } else { 28 },
        Month::Apr | Month::Jun | Month::Sep | Month::Nov => 30,
        _ => 31,
    }
}

/// `day` names a day of `month` in `year`.
pub open spec fn day_in_month(year: int, month: Month, day: int) -> bool {
    1 <= day <= month_length(year, month)
}

/// Whether `d` divides `y`.
fn divides(y: i32, d: i32) -> (r: bool)
    requires
        d > 0,
    ensures
        r == (y as int % d as int == 0),
{
    match y.checked_rem_euclid(d) {
        Some(m) => m == 0,
        None => false,
    }
}

pub fn is_leap_year(year: &i32) -> (r: bool)
    ensures
        r == leap(*year as int),
{
    let y = *year;
    divides(y, 400) || (divides(y, 4) && !divides(y, 100))
}

pub fn valid_day(year: &i32, month: &Month, day: &u8) -> (r: bool)
    ensures
        r == day_in_month(*year as int, *month, *day as int),
{
    let is_leap = is_leap_year(year);
    let max_day: u8 = match month {
        Month::Jan => 31,
        Month::Feb => if is_leap { 29 } else { 28 },
        Month::Mar => 31,
        Month::Apr => 30,
        Month::May => 31,
        Month::Jun => 30,
        Month::Jul => 31,
        Month::Aug => 31,
        Month::Sep => 30,
        Month::Oct => 31,
        Month::Nov => 30,
        Month::Dec => 31,
    };
    !(*day == 0 || *day > max_day)
}

impl DateError {
    /// Text shown for the error.
    pub open spec fn text(self) -> Seq<char> {
        match self {
            DateError::MonthParseError => "Month Error"@,
            DateError::YearParseError => "Year Parsing Error"@,
            DateError::DayParseError => "Day Parsing Error"@,
            DateError::DayRangeError => "Day range error"@,
            DateError::WrongLenError => "Wrong Lenght Error"@,
        }
    }

    pub fn to_string(&self) -> (r: String)
        ensures
            r@ == self.text(),
    {
        let s = match self {
            DateError::MonthParseError => "Month Error",
            DateError::YearParseError => "Year Parsing Error",
            DateError::DayParseError => "Day Parsing Error",
            DateError::DayRangeError => "Day range error",
            DateError::WrongLenError => "Wrong Lenght Error",
        };
        s.to_string()
    }
}

/// Three-letter English name of a month.
pub open spec fn month_abbr(m: Month) -> Seq<char> {
    match m {
        Month::Jan => "Jan"@,
        Month::Feb => "Feb"@,
        Month::Mar => "Mar"@,
        Month::Apr => "Apr"@,
        Month::May => "May"@,
        Month::Jun => "Jun"@,
        Month::Jul => "Jul"@,
        Month::Aug => "Aug"@,
        Month::Sep => "Sep"@,
        Month::Oct => "Oct"@,
        Month::Nov => "Nov"@,
        Month::Dec => "Dec"@,
    }
}

/// Full English name of a month.
pub open spec fn month_name(m: Month) -> Seq<char> {
    match m {
        Month::Jan => "January"@,
        Month::Feb => "February"@,
        Month::Mar => "March"@,
        Month::Apr => "April"@,
        Month::May => "May"@,
        Month::Jun => "June"@,
        Month::Jul => "July"@,
        Month::Aug => "August"@,
        Month::Sep => "September"@,
        Month::Oct => "October"@,
        Month::Nov => "November"@,
        Month::Dec => "December"@,
    }
}

/// The month that a lower-case text names: a three-letter abbreviation
/// ("out" for October) or its number, with or without a leading zero.
pub open spec fn month_of_lower(t: Seq<char>) -> Result<Month, DateError> {
    if t == "jan"@ || t == "01"@ || t == "1"@ {
        Ok(Month::Jan)
    } else if t == "feb"@ || t == "02"@ || t == "2"@ {
        Ok(Month::Feb)
    } else if t == "mar"@ || t == "03"@ || t == "3"@ {
        Ok(Month::Mar)
    } else if t == "apr"@ || t == "04"@ || t == "4"@ {
        Ok(Month::Apr)
    } else if t == "may"@ || t == "05"@ || t == "5"@ {
        Ok(Month::May)
    } else if t == "jun"@ || t == "06"@ || t == "6"@ {
        Ok(Month::Jun)
    } else if t == "jul"@ || t == "07"@ || t == "7"@ {
        Ok(Month::Jul)
    } else if t == "aug"@ || t == "08"@ || t == "8"@ {
        Ok(Month::Aug)
    } else if t == "sep"@ || t == "09"@ || t == "9"@ {
        Ok(Month::Sep)
    } else if t == "out"@ || t == "10"@ {
        Ok(Month::Oct)
    } else if t == "nov"@ || t == "11"@ {
        Ok(Month::Nov)
    } else if t == "dec"@ || t == "12"@ {
        Ok(Month::Dec)
    } else {
        Err(DateError::MonthParseError)
    }
}

impl Month {
    pub fn to_str(self) -> (r: String)
        ensures
            r@ == month_abbr(self),
    {
        let s = match self {
            Month::Jan => "Jan",
            Month::Feb => "Feb",
            Month::Mar => "Mar",
            Month::Apr => "Apr",
            Month::May => "May",
            Month::Jun => "Jun",
            Month::Jul => "Jul",
            Month::Aug => "Aug",
            Month::Sep => "Sep",
            Month::Oct => "Oct",
            Month::Nov => "Nov",
            Month::Dec => "Dec",
        };
        s.to_string()
    }

    pub fn to_str_long(self) -> (r: String)
        ensures
            r@ == month_name(self),
    {
        let s = match self {
            Month::Jan => "January",
            Month::Feb => "February",
            Month::Mar => "March",
            Month::Apr => "April",
            Month::May => "May",
            Month::Jun => "June",
            Month::Jul => "July",
            Month::Aug => "August",
            Month::Sep => "September",
            Month::Oct => "October",
            Month::Nov => "November",
            Month::Dec => "December",
        };
        s.to_string()
    }

    /// Reads a month from text that is already in lower case.
    pub fn from_lower(t: &str) -> (r: Result<Month, DateError>)
        ensures
            r == month_of_lower(t@),
    {
        if same_text(t, "jan") || same_text(t, "01") || same_text(t, "1") {
            Ok(Month::Jan)
        } else if same_text(t, "feb") || same_text(t, "02") || same_text(t, "2") {
            Ok(Month::Feb)
        } else if same_text(t, "mar") || same_text(t, "03") || same_text(t, "3") {
            Ok(Month::Mar)
        } else if same_text(t, "apr") || same_text(t, "04") || same_text(t, "4") {
            Ok(Month::Apr)
        } else if same_text(t, "may") || same_text(t, "05") || same_text(t, "5") {
            Ok(Month::May)
        } else if same_text(t, "jun") || same_text(t, "06") || same_text(t, "6") {
            Ok(Month::Jun)
        } else if same_text(t, "jul") || same_text(t, "07") || same_text(t, "7") {
            Ok(Month::Jul)
        } else if same_text(t, "aug") || same_text(t, "08") || same_text(t, "8") {
            Ok(Month::Aug)
        } else if same_text(t, "sep") || same_text(t, "09") || same_text(t, "9") {
            Ok(Month::Sep)
        } else if same_text(t, "out") || same_text(t, "10") {
            Ok(Month::Oct)
        } else if same_text(t, "nov") || same_text(t, "11") {
            Ok(Month::Nov)
        } else if same_text(t, "dec") || same_text(t, "12") {
            Ok(Month::Dec)
        } else {
            Err(DateError::MonthParseError)
        }
    }

    /// Reads a month in any letter case.
    pub fn parse(s: &str) -> (r: Result<Month, DateError>)
        ensures
            r == month_of_lower(lower_of(s@)),
    {
        let t = lowercase(s);
        Month::from_lower(t.as_str())
    }
}

impl std::str::FromStr for Month {
    type Err = DateError;

    fn from_str(s: &str) -> Result<Self, Self::Err> {
        Month::parse(s)
    }
}

/// Separators between the parts of a written date.
pub open spec fn is_date_sep(c: char) -> bool {
    c == '-' || c == '/'
}

/// The parts of `s` between separators, in order; there is always at least one.
pub open spec fn date_parts(s: Seq<char>) -> Seq<Seq<char>>
    decreases s.len(),
{
    if s.len() == 0 {
        seq![Seq::empty()]
    } else {
        let p = date_parts(s.drop_last());
        if is_date_sep(s.last()) {
            p.push(Seq::empty())
        } else {
            p.update(p.len() - 1, p.last().push(s.last()))
        }
    }
}

proof fn lemma_date_parts_nonempty(s: Seq<char>)
    ensures
        date_parts(s).len() >= 1,
    decreases s.len(),
{
    if s.len() > 0 {
        lemma_date_parts_nonempty(s.drop_last());
    }
}

/// Year, month and day written in `s` as day, month and year, or why
/// they are not; parts after the third are not read.
pub open spec fn date_of_text(s: Seq<char>) -> Result<(i32, Month, u8), DateError> {
    let p = date_parts(s);
    match u8_of_text(p[0]) {
        None => Err(DateError::DayParseError),
        Some(day) => if p.len() < 2 {
            Err(DateError::WrongLenError)
        } else {
            match month_of_lower(lower_of(p[1])) {
                Err(e) => Err(e),
                Ok(month) => if p.len() < 3 {
                    Err(DateError::WrongLenError)
                } else {
                    match i32_of_text(p[2]) {
                        None => Err(DateError::YearParseError),
                        Some(year) => if day_in_month(year as int, month, day as int) {
                            Ok((year, month, day))
                        } else {
                            Err(DateError::DayRangeError)
                        },
                    }
                },
            }
        },
    }
}

/// `day`, `sep`, month abbreviation, `sep`, `year`.
pub open spec fn date_text(year: i32, month: Month, day: u8, sep: Seq<char>) -> Seq<char> {
    nat_text(day as nat) + sep + month_abbr(month) + sep + int_text(year as int)
}

/// Splits `s` at every separator.
fn split_date_parts(s: &str) -> (r: Vec<&str>)
    ensures
        r@.map_values(|p: &str| p@) == date_parts(s@),
{
    let n = s.unicode_len();
    let mut parts: Vec<&str> = Vec::new();
    let mut start: usize = 0;
    let mut i: usize = 0;
    proof {
        assert(parts@.map_values(|p: &str| p@) =~= Seq::<Seq<char>>::empty());
        assert(s@.subrange(0, 0) =~= Seq::<char>::empty());
        assert(date_parts(Seq::<char>::empty()) == seq![Seq::<char>::empty()]);
    }
    while i < n
        invariant
            n == s@.len(),
            start <= i <= n,
            parts@.map_values(|p: &str| p@).push(s@.subrange(start as int, i as int))
                == date_parts(s@.subrange(0, i as int)),
        decreases n - i,
    {
        let c = s.get_char(i);
        let ghost t = s@.subrange(0, i + 1);
        let ghost before = parts@.map_values(|p: &str| p@);
        let ghost prev = date_parts(s@.subrange(0, i as int));
        proof {
            assert(t.drop_last() =~= s@.subrange(0, i as int));
            assert(t.last() == c);
        }
        if c == '-' || c == '/' {
            let piece = s.substring_char(start, i);
            parts.push(piece);
            proof {
                assert(parts@.map_values(|p: &str| p@) =~= before.push(piece@));
                assert(s@.subrange(i + 1, i + 1) =~= Seq::<char>::empty());
                assert(date_parts(t) == prev.push(Seq::empty()));
            }
            start = i + 1;
        } else {
            proof {
                assert(s@.subrange(start as int, i + 1) =~= s@.subrange(start as int, i as int).push(c));
                assert(date_parts(t) == prev.update(prev.len() - 1, prev.last().push(c)));
                assert(date_parts(t) =~= before.push(s@.subrange(start as int, i + 1)));
            }
        }
        i = i + 1;
    }
    let piece = s.substring_char(start, n);
    let ghost before = parts@.map_values(|p: &str| p@);
    parts.push(piece);
    proof {
        assert(parts@.map_values(|p: &str| p@) =~= before.push(piece@));
        assert(s@.subrange(0, n as int) =~= s@);
    }
    parts
}

impl Date {
    #[verifier::type_invariant]
    spec fn inv(self) -> bool {
        day_in_month(self.year as int, self.month, self.day as int)
    }

    pub closed spec fn spec_year(self) -> i32 {
        self.year
    }

    pub closed spec fn spec_month(self) -> Month {
        self.month
    }

    pub closed spec fn spec_day(self) -> u8 {
        self.day
    }

    /// Reads a date written as day, month and year separated by `-` or `/`.
    pub fn parse(s: &str) -> (r: Result<Date, DateError>)
        ensures
            match date_of_text(s@) {
                Ok((y, m, d)) => r matches Ok(date) && date.spec_year() == y
                    && date.spec_month() == m && date.spec_day() == d,
                Err(e) => r == Err::<Date, DateError>(e),
            },
    {
        let parts = split_date_parts(s);
        proof {
            lemma_date_parts_nonempty(s@);
            assert(parts@.len() == date_parts(s@).len());
            assert(parts@.map_values(|p: &str| p@)[0] == parts@[0]@);
        }
        let day = match parse_u8(parts[0]) {
            Some(d) => d,
            None => {
                return Err(DateError::DayParseError);
            },
        };
        if parts.len() < 2 {
            return Err(DateError::WrongLenError);
        }
        proof {
            assert(parts@.map_values(|p: &str| p@)[1] == parts@[1]@);
        }
        let month = Month::parse(parts[1])?;
        if parts.len() < 3 {
            return Err(DateError::WrongLenError);
        }
        proof {
            assert(parts@.map_values(|p: &str| p@)[2] == parts@[2]@);
        }
        let year = match parse_i32(parts[2]) {
            Some(y) => y,
            None => {
                return Err(DateError::YearParseError);
            },
        };
        if !valid_day(&year, &month, &day) {
            Err(DateError::DayRangeError)
        } else {
            Ok(Date { year, month, day })
        }
    }

    pub fn to_str(&self) -> (r: String)
        ensures
            r@ == date_text(self.spec_year(), self.spec_month(), self.spec_day(), "-"@),
    {
        self.to_str_split("-")
    }

    pub fn to_str_split(&self, split: &str) -> (r: String)
        ensures
            r@ == date_text(self.spec_year(), self.spec_month(), self.spec_day(), split@),
    {
        let day = u8_text(self.day);
        let month = self.month.to_str();
        let year = i32_text(self.year);
        day.concat(split).concat(month.as_str()).concat(split).concat(year.as_str())
    }
}

impl std::str::FromStr for Date {
    type Err = DateError;

    fn from_str(s: &str) -> Result<Self, Self::Err> {
        Date::parse(s)
    }
}

} // verus!
