//! Catalogue copies, the rows that store them, and the forms that name them.

use vstd::prelude::*;

use crate::status::{raw_consistent, status_of_raw, BorrowStatus, Day, ReserveBookError, Uid};
use crate::status::{day_in_range, refusal_matches, reserved_state, today};

verus! {

/// Identifier of one catalogue copy.
pub type Bid = i64;

/// Identifier of a literary work; several copies may share one.
#[allow(non_camel_case_types, clippy::upper_case_acronyms)]
pub type ISBN = i64;

/// Identifier of an author.
pub type Aid = i64;

/// One catalogue copy of a work.
#[allow(non_snake_case)]
#[derive(Debug, Clone)]
pub struct Book {
    pub ISBN: ISBN,
    pub bid: Bid,
    pub name: String,
    pub authors: Vec<String>,
    pub published: String,
    pub status: BorrowStatus,
}

/// A copy as plain values.
pub struct BookView {
    pub isbn: ISBN,
    pub bid: Bid,
    pub name: Seq<char>,
    pub authors: Seq<Seq<char>>,
    pub published: Seq<char>,
    pub status: BorrowStatus,
}

/// The texts held by a list of strings.
pub open spec fn texts(v: Seq<String>) -> Seq<Seq<char>> {
    v.map_values(|s: String| s@)
}

impl View for Book {
    type V = BookView;

    open spec fn view(&self) -> BookView {
        BookView {
            isbn: self.ISBN,
            bid: self.bid,
            name: self.name@,
            authors: texts(self.authors@),
            published: self.published@,
            status: self.status,
        }
    }
}

/// A row of the books table joined with its work's details.
#[allow(non_snake_case)]
#[derive(Debug, Clone)]
pub struct BookQuery {
    pub ISBN: ISBN,
    pub id: Bid,
    pub name: String,
    pub published: String,
    pub user_id: Option<Uid>,
    pub time: Option<Day>,
    pub is_borrow: Option<bool>,
}

/// A row as plain values.
pub struct BookRow {
    pub isbn: ISBN,
    pub id: Bid,
    pub name: Seq<char>,
    pub published: Seq<char>,
    pub user_id: Option<Uid>,
    pub time: Option<Day>,
    pub is_borrow: Option<bool>,
}

impl View for BookQuery {
    type V = BookRow;

    open spec fn view(&self) -> BookRow {
        BookRow {
            isbn: self.ISBN,
            id: self.id,
            name: self.name@,
            published: self.published@,
            user_id: self.user_id,
            time: self.time,
            is_borrow: self.is_borrow,
        }
    }
}

impl BookRow {
    /// The row obeys the table's constraint on its status columns.
    pub open spec fn consistent(self) -> bool {
        raw_consistent(self.is_borrow, self.user_id, self.time)
    }
}

/// The copy that a row describes, with the given author names.
pub open spec fn book_of_row(row: BookRow, authors: Seq<Seq<char>>) -> BookView {
    BookView {
        isbn: row.isbn,
        bid: row.id,
        name: row.name,
        authors: authors,
        published: row.published,
        status: status_of_raw(row.is_borrow, row.user_id, row.time),
    }
}

/// The row that stores a copy.
pub open spec fn row_of_book(b: BookView) -> BookRow {
    BookRow {
        isbn: b.isbn,
        id: b.bid,
        name: b.name,
        published: b.published,
        user_id: b.status.holder(),
        time: b.status.due(),
        is_borrow: match b.status {
            BorrowStatus::Avaliable => None,
            BorrowStatus::Reserved(_, _) => Some(false),
            BorrowStatus::Borrowed(_, _) => Some(true),
        },
    }
}

/// A copy's stored row describes the copy again: nothing is lost through
/// the table's columns, whatever the copy's state.
pub proof fn lemma_row_round_trip(b: BookView)
    ensures
        row_of_book(b).consistent(),
        book_of_row(row_of_book(b), b.authors) == b,
{
    match b.status {
        BorrowStatus::Avaliable => {},
        BorrowStatus::Reserved(_, _) => {},
        BorrowStatus::Borrowed(_, _) => {},
    }
}

/// Copies a list of strings.
pub fn copy_texts(v: &Vec<String>) -> (r: Vec<String>)
    ensures
        texts(r@) == texts(v@),
{
    let r = v.clone();
    proof {
        assert(r@ =~= v@);
    }
    r
}

impl Book {
    /// A copy of this record.
    pub fn copy(&self) -> (r: Book)
        ensures
            r@ == self@,
    {
        Book {
            ISBN: self.ISBN,
            bid: self.bid,
            name: self.name.clone(),
            authors: copy_texts(&self.authors),
            published: self.published.clone(),
            status: self.status,
        }
    }

    /// The copy that a stored row describes; without an author list the
    /// copy has no authors.
    pub fn from_query(info: &BookQuery, authors: Option<&Vec<String>>) -> (r: Book)
        requires
            info.is_borrow is Some ==> info.user_id is Some && info.time is Some,
        ensures
            r@ == book_of_row(
                info@,
                match authors {
                    Some(a) => texts(a@),
                    None => Seq::empty(),
                },
            ),
    {
        let authors = match authors {
            Some(authors) => copy_texts(authors),
            None => Vec::<String>::new(),
        };
        proof {
            if authors@.len() == 0 {
                assert(texts(authors@) =~= Seq::<Seq<char>>::empty());
            }
        }
        let status = BorrowStatus::from(info.is_borrow, info.user_id, info.time);
        Book {
            ISBN: info.ISBN,
            bid: info.id,
            name: info.name.clone(),
            authors,
            published: info.published.clone(),
            status,
        }
    }

    /// The row that stores this copy.
    pub fn to_query(&self) -> (r: BookQuery)
        ensures
            r@ == row_of_book(self@),
            r@.consistent(),
    {
        let (is_borrow, user_id, time) = self.status.to_raw();
        BookQuery {
            ISBN: self.ISBN,
            id: self.bid,
            name: self.name.clone(),
            published: self.published.clone(),
            user_id,
            time,
            is_borrow,
        }
    }

    /// Reserves the copy for `uid` on `today` if it is free.
    pub fn reserve_on(&mut self, uid: Uid, today: Day) -> (r: Option<ReserveBookError>)
        requires
            day_in_range(today),
        ensures
            final(self)@ == (BookView { status: reserved_state(old(self).status, uid, today), ..old(self)@ }),
            match r {
                None => old(self).status is Avaliable,
                Some(e) => refusal_matches(e, old(self).status),
            },
    {
        self.status.reserve_for(uid, today)
    }

    /// Reserves the copy for `account` from today, if it is free: it is then
    /// held by the account until a week after some day at or after the Unix
    /// epoch, whichever day the clock gives.
    pub fn reserve(&mut self, account: &crate::account::Account) -> (r: Option<ReserveBookError>)
        ensures
            match r {
                None => old(self).status is Avaliable && exists|t: Day|
                    crate::status::UNIX_EPOCH_DAY <= t <= crate::status::LAST_DAY
                    && #[trigger] reserved_state(old(self).status, account.uid, t) == final(self).status,
                Some(e) => refusal_matches(e, old(self).status) && final(self)@ == old(self)@,
            },
            final(self)@ == (BookView { status: final(self).status, ..old(self)@ }),
    {
        let t = today();
        self.reserve_on(account.uid, t)
    }
}

/// Form naming a work.
#[allow(non_snake_case)]
#[derive(Debug, Clone)]
pub struct BookForm {
    pub ISBN: ISBN,
}

/// Form describing a new work.
#[allow(non_snake_case)]
#[derive(Debug, Clone)]
pub struct NewBookForm {
    pub ISBN: ISBN,
    pub name: String,
    pub published: String,
}

/// Form asking to reserve a copy.
#[derive(Debug)]
pub struct ReserveBookForm {
    pub bid: Bid,
}

/// Query naming a copy.
#[derive(Debug)]
pub struct BookParam {
    pub bid: i64,
}

/// An author of works.
#[derive(Debug, Clone)]
pub struct Author {
    pub id: i64,
    pub name: String,
}

} // verus!
