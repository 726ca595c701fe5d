use std::str::FromStr;

use lsys::listing::{Book, BookQuery};
use lsys::time::{Date, DateError};

#[test]
fn work_from_row_values() {
    let b = Book::from_query(9780140439083, 1, "A Study In Scarlet".to_string(), "1-12-1887", None, None)
        .unwrap();
    assert_eq!(b.published.to_str_split("/"), "1/Dec/1887");
    assert!(b.last_borrow.is_none());
    assert!(b.authors.is_empty());
    let b = Book::from_query(1, 2, "N".to_string(), "1-1-2000", Some("2/feb/2020"), Some(7)).unwrap();
    assert_eq!(b.last_borrow.unwrap().to_str(), "2-Feb-2020");
    assert_eq!(b.borrower_id, Some(7));
}

#[test]
fn work_from_row_with_bad_date() {
    let r = Book::from_query(1, 2, "N".to_string(), "1-13-2000", None, None);
    assert_eq!(r.err().map(|e| e.to_string()), Some(DateError::MonthParseError.to_string()));
}

#[test]
fn new_work_is_not_borrowed() {
    let d = Date::from_str("1-12-1887").unwrap();
    let b = Book::new(5, 3, "S".to_string(), vec!["Doyle".to_string()], d);
    assert_eq!(b.internal_id, 3);
    assert_eq!(b.authors, vec!["Doyle".to_string()]);
    assert_eq!(b.published, d);
    assert!(b.last_borrow.is_none() && b.borrower_id.is_none());
}

#[test]
fn search_cells() {
    let q = BookQuery { ISBN: Some("978".to_string()), name: None };
    assert_eq!(q.cells(), ("978".to_string(), "Undefined".to_string()));
    let q = BookQuery { ISBN: None, name: Some("Emma".to_string()) };
    assert_eq!(q.cells(), ("Undefined".to_string(), "Emma".to_string()));
}
