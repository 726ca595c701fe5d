use std::str::FromStr;

use lsys::time::{is_leap_year, valid_day, Date, DateError, Month};

#[test]
fn leap_years_follow_the_gregorian_rule() {
    assert!(is_leap_year(&2000));
    assert!(is_leap_year(&2024));
    assert!(!is_leap_year(&1900));
    assert!(!is_leap_year(&2023));
    assert!(is_leap_year(&-400));
    assert!(!is_leap_year(&-100));
}

#[test]
fn valid_day_checks_month_lengths() {
    assert!(valid_day(&2024, &Month::Feb, &29));
    assert!(!valid_day(&2023, &Month::Feb, &29));
    assert!(!valid_day(&2023, &Month::Apr, &31));
    assert!(valid_day(&2023, &Month::Dec, &31));
    assert!(!valid_day(&2023, &Month::Jan, &0));
    assert!(!valid_day(&2023, &Month::Jan, &32));
}

#[test]
fn month_names() {
    assert_eq!(Month::Jan.to_str(), "Jan");
    assert_eq!(Month::Sep.to_str(), "Sep");
    assert_eq!(Month::Feb.to_str_long(), "February");
    assert_eq!(Month::Dec.to_str_long(), "December");
}

#[test]
fn month_from_text_in_any_case() {
    assert_eq!(Month::from_str("JAN"), Ok(Month::Jan));
    assert_eq!(Month::from_str("Mar"), Ok(Month::Mar));
    assert_eq!(Month::from_str("09"), Ok(Month::Sep));
    assert_eq!(Month::from_str("9"), Ok(Month::Sep));
    assert_eq!(Month::from_str("out"), Ok(Month::Oct));
    assert_eq!(Month::from_str("12"), Ok(Month::Dec));
    assert_eq!(Month::from_str("13"), Err(DateError::MonthParseError));
    assert_eq!(Month::from_str("oct"), Err(DateError::MonthParseError));
    assert_eq!(Month::from_str(""), Err(DateError::MonthParseError));
}

#[test]
fn month_from_lower_case_text() {
    assert_eq!(Month::from_lower("nov"), Ok(Month::Nov));
    assert_eq!(Month::from_lower("NOV"), Err(DateError::MonthParseError));
}

#[test]
fn date_reads_and_writes() {
    let d = Date::from_str("1-12-1887").unwrap();
    assert_eq!(d.to_str(), "1-Dec-1887");
    assert_eq!(d.to_str_split("/"), "1/Dec/1887");
    let d = Date::from_str("29/feb/2024").unwrap();
    assert_eq!(d.to_str(), "29-Feb-2024");
    let d = Date::from_str("07/07/5").unwrap();
    assert_eq!(d.to_str_split(" "), "7 Jul 5");
    let d = Date::from_str("+3-1-2000-extra").unwrap();
    assert_eq!(d.to_str(), "3-Jan-2000");
}

#[test]
fn date_errors() {
    assert_eq!(Date::from_str("x-12-1887"), Err(DateError::DayParseError));
    assert_eq!(Date::from_str("300-12-1887"), Err(DateError::DayParseError));
    assert_eq!(Date::from_str(""), Err(DateError::DayParseError));
    assert_eq!(Date::from_str("1"), Err(DateError::WrongLenError));
    assert_eq!(Date::from_str("1-foo-2000"), Err(DateError::MonthParseError));
    assert_eq!(Date::from_str("1-12"), Err(DateError::WrongLenError));
    assert_eq!(Date::from_str("1-12-abc"), Err(DateError::YearParseError));
    assert_eq!(Date::from_str("1-12-"), Err(DateError::YearParseError));
    assert_eq!(Date::from_str("31-4-2000"), Err(DateError::DayRangeError));
    assert_eq!(Date::from_str("29-2-2023"), Err(DateError::DayRangeError));
}

#[test]
fn date_error_texts() {
    assert_eq!(DateError::MonthParseError.to_string(), "Month Error");
    assert_eq!(DateError::YearParseError.to_string(), "Year Parsing Error");
    assert_eq!(DateError::DayParseError.to_string(), "Day Parsing Error");
    assert_eq!(DateError::DayRangeError.to_string(), "Day range error");
    assert_eq!(DateError::WrongLenError.to_string(), "Wrong Lenght Error");
}
