//! The plain listing of works: a work with its written dates, and the
//! search form over works.

use vstd::prelude::*;

use crate::book::texts;
use crate::book::copy_texts;
use crate::time::{date_of_text, Date, DateError};

verus! {

/// A work as the plain listing shows it.
#[allow(non_snake_case)]
#[derive(Debug)]
pub struct Book {
    pub ISBN: u64,
    pub internal_id: i64,
    pub name: String,
    pub authors: Vec<String>,
    pub published: Date,
    pub last_borrow: Option<Date>,
    /// Identifier of the current borrower.
    pub borrower_id: Option<u64>,
}

/// The date written in `s` is the given date.
pub open spec fn reads_as(s: Seq<char>, d: Date) -> bool {
    date_of_text(s) == Ok::<(i32, crate::time::Month, u8), DateError>((d.spec_year(), d.spec_month(), d.spec_day()))
}

impl Book {
    /// The work stored in a row: its publication date must read as a date,
    /// else the row is refused with the date's error.
    pub fn from_query(
        ISBN: u64,
        internal_id: i64,
        name: String,
        pub_date: &str,
        last_borrow: Option<&str>,
        borrower_id: Option<u64>,
    ) -> (r: Result<Book, DateError>)
        requires
            last_borrow matches Some(lb) ==> date_of_text(lb@) is Ok,
        ensures
            match r {
                Ok(b) => {
                    &&& date_of_text(pub_date@) is Ok
                    &&& reads_as(pub_date@, b.published)
                    &&& b.ISBN == ISBN
                    &&& b.internal_id == internal_id
                    &&& b.name@ == name@
                    &&& b.authors@.len() == 0
                    &&& b.borrower_id == borrower_id
                    &&& match last_borrow {
                        Some(lb) => b.last_borrow matches Some(d) && reads_as(lb@, d),
                        None => b.last_borrow is None,
                    }
                },
                Err(e) => date_of_text(pub_date@) == Err::<(i32, crate::time::Month, u8), DateError>(e),
            },
    {
        let published = Date::parse(pub_date)?;
        let last_borrow = match last_borrow {
            Some(lb) => match Date::parse(lb) {
                Ok(d) => Some(d),
                Err(_) => None,
            },
            None => None,
        };
        Ok(Book {
            ISBN,
            internal_id,
            name,
            authors: Vec::new(),
            published,
            last_borrow,
            borrower_id,
        })
    }

    /// A new work whose row the store numbered `internal_id`; it has not
    /// been borrowed.
    pub fn new(ISBN: u64, internal_id: i64, name: String, authors: Vec<String>, published: Date) -> (r: Book)
        ensures
            r.ISBN == ISBN,
            r.internal_id == internal_id,
            r.name@ == name@,
            texts(r.authors@) == texts(authors@),
            r.published == published,
            r.last_borrow is None,
            r.borrower_id is None,
    {
        Book {
            ISBN,
            internal_id,
            name,
            authors: copy_texts(&authors),
            published,
            last_borrow: None,
            borrower_id: None,
        }
    }
}

/// The search form over works; either field may be left out.
#[allow(non_snake_case)]
#[derive(Debug, Clone)]
pub struct BookQuery {
    pub ISBN: Option<String>,
    pub name: Option<String>,
}

/// What a search result shows for a field that may be left out.
pub open spec fn cell_text(v: Option<String>) -> Seq<char> {
    match v {
        Some(s) => s@,
        None => "Undefined"@,
    }
}

impl BookQuery {
    /// The two cells of a search result: the work number and the name,
    /// each "Undefined" when left out.
    pub fn cells(&self) -> (r: (String, String))
        ensures
            r.0@ == cell_text(self.ISBN),
            r.1@ == cell_text(self.name),
    {
        let isbn = match &self.ISBN {
            Some(i) => i.clone(),
            None => "Undefined".to_string(),
        };
        let name = match &self.name {
            Some(n) => n.clone(),
            None => "Undefined".to_string(),
        };
        (isbn, name)
    }
}

} // verus!
