//! The in-memory catalogue: every copy by its identifier, loaded from the
//! stored rows, with the author names and author records of each work.

use std::collections::HashMap;
use vstd::prelude::*;
use vstd::std_specs::iter::IteratorSpec;
use vstd::utf8::encode_utf8;

use crate::book::{book_of_row, lemma_row_round_trip, row_of_book, texts, Aid, Author, Bid, Book, BookQuery, BookRow, BookView, ISBN};
use crate::status::{
    day_in_range, refusal_matches, reserved_state, BorrowStatus, Day, ReserveBookError, Uid,
    RESERVATION_DAYS,
};

verus! {

broadcast use vstd::std_specs::hash::group_hash_axioms;

/// A row of the authorship table: `author_id` wrote the work `ISBN`.
#[allow(non_snake_case)]
#[derive(Debug, Clone, Copy)]
pub struct Wrote {
    pub author_id: Aid,
    pub ISBN: ISBN,
}

/// Why the stored rows could not be loaded.
#[derive(Debug, Clone, Copy, PartialEq, Eq, Structural)]
pub enum LoadError {
    /// An authorship row names an author that does not exist.
    UnknownAuthor(Aid),
    /// A copy's row has a borrow flag without a holder or a day.
    BrokenStatus(Bid),
}

/// Why a reservation was not made.
#[derive(Debug, Clone)]
pub enum ReservationError {
    /// No copy has the identifier.
    NotFound,
    /// The copy is not free.
    Refused(ReserveBookError),
}

/// Author names by author identifier; a later author with the same
/// identifier replaces an earlier one.
pub open spec fn author_map(authors: Seq<Author>) -> Map<Aid, Seq<char>>
    decreases authors.len(),
{
    if authors.len() == 0 {
        Map::empty()
    } else {
        author_map(authors.drop_last()).insert(authors.last().id, authors.last().name@)
    }
}

/// Every authorship row names a known author.
pub open spec fn authors_known(wrotes: Seq<Wrote>, am: Map<Aid, Seq<char>>) -> bool {
    forall|i: int| 0 <= i < wrotes.len() ==> am.contains_key(#[trigger] wrotes[i].author_id)
}

/// The names listed for `isbn`, or none.
pub open spec fn names_for(nm: Map<ISBN, Seq<Seq<char>>>, isbn: ISBN) -> Seq<Seq<char>> {
    if nm.contains_key(isbn) {
        nm[isbn]
    } else {
        Seq::empty()
    }
}

/// Author names of each work, in the order of the authorship rows.
pub open spec fn names_index(wrotes: Seq<Wrote>, am: Map<Aid, Seq<char>>) -> Map<ISBN, Seq<Seq<char>>>
    decreases wrotes.len(),
{
    if wrotes.len() == 0 {
        Map::empty()
    } else {
        let m = names_index(wrotes.drop_last(), am);
        let w = wrotes.last();
        m.insert(w.ISBN, names_for(m, w.ISBN).push(am[w.author_id]))
    }
}

/// An author record as plain values.
pub open spec fn author_views(v: Seq<Author>) -> Seq<(Aid, Seq<char>)> {
    v.map_values(|a: Author| (a.id, a.name@))
}

/// The records listed for `isbn`, or none.
pub open spec fn records_for(rm: Map<ISBN, Seq<(Aid, Seq<char>)>>, isbn: ISBN) -> Seq<(Aid, Seq<char>)> {
    if rm.contains_key(isbn) {
        rm[isbn]
    } else {
        Seq::empty()
    }
}

/// Author records of each work, in the order of the authorship rows.
pub open spec fn records_index(wrotes: Seq<Wrote>, am: Map<Aid, Seq<char>>) -> Map<ISBN, Seq<(Aid, Seq<char>)>>
    decreases wrotes.len(),
{
    if wrotes.len() == 0 {
        Map::empty()
    } else {
        let m = records_index(wrotes.drop_last(), am);
        let w = wrotes.last();
        m.insert(w.ISBN, records_for(m, w.ISBN).push((w.author_id, am[w.author_id])))
    }
}

/// A row whose status columns can be read: a borrow flag comes with a
/// holder and a day.
pub open spec fn row_loadable(row: BookRow) -> bool {
    row.is_borrow is Some ==> row.user_id is Some && row.time is Some
}

pub open spec fn rows_loadable(rows: Seq<BookRow>) -> bool {
    forall|i: int| 0 <= i < rows.len() ==> row_loadable(#[trigger] rows[i])
}

/// The copies that the rows describe, by identifier; a later row with the
/// same identifier replaces an earlier one.
pub open spec fn catalogue_of_rows(rows: Seq<BookRow>, nm: Map<ISBN, Seq<Seq<char>>>) -> Map<Bid, BookView>
    decreases rows.len(),
{
    if rows.len() == 0 {
        Map::empty()
    } else {
        let r = rows.last();
        catalogue_of_rows(rows.drop_last(), nm).insert(r.id, book_of_row(r, names_for(nm, r.isbn)))
    }
}

/// Every copy is filed under its own identifier.
pub open spec fn keyed_by_bid(m: Map<Bid, BookView>) -> bool {
    forall|k: Bid| #[trigger] m.contains_key(k) ==> m[k].bid == k
}

pub open spec fn row_views(rows: Seq<BookQuery>) -> Seq<BookRow> {
    rows.map_values(|q: BookQuery| q@)
}

/// The catalogue after `uid` asks on `today` to reserve copy `bid`: a free
/// copy becomes reserved, anything else is left as it is.
pub open spec fn after_reservation(c: Map<Bid, BookView>, bid: Bid, uid: Uid, today: Day) -> Map<Bid, BookView> {
    if c.contains_key(bid) {
        c.insert(bid, BookView { status: reserved_state(c[bid].status, uid, today), ..c[bid] })
    } else {
        c
    }
}

/// The answer to that request: the due day of a new reservation, or why
/// there is none.
pub open spec fn reservation_result(c: Map<Bid, BookView>, bid: Bid, uid: Uid, today: Day) -> Result<Day, ReservationError> {
    if !c.contains_key(bid) {
        Err(ReservationError::NotFound)
    } else {
        match c[bid].status {
            BorrowStatus::Avaliable => Ok((today + RESERVATION_DAYS) as Day),
            BorrowStatus::Reserved(_, d) => Err(ReservationError::Refused(ReserveBookError::Reserved(d))),
            BorrowStatus::Borrowed(_, d) => Err(ReservationError::Refused(ReserveBookError::Borrowed(d))),
        }
    }
}

/// Two requests for the same free copy, served one after the other under
/// the catalogue's exclusive access, give exactly one reservation: the first
/// reserves the copy for its caller, the second is refused with the first
/// one's due day and changes nothing.
pub proof fn lemma_one_of_two_reservations(
    c: Map<Bid, BookView>,
    bid: Bid,
    u1: Uid,
    t1: Day,
    u2: Uid,
    t2: Day,
)
    requires
        c.contains_key(bid),
        c[bid].status is Avaliable,
        day_in_range(t1),
        day_in_range(t2),
    ensures
        ({
            let due = (t1 + RESERVATION_DAYS) as Day;
            let c1 = after_reservation(c, bid, u1, t1);
            &&& reservation_result(c, bid, u1, t1) == Ok::<Day, ReservationError>(due)
            &&& c1[bid].status == BorrowStatus::Reserved(u1, due)
            &&& reservation_result(c1, bid, u2, t2) == Err::<Day, ReservationError>(
                ReservationError::Refused(ReserveBookError::Reserved(due)),
            )
            &&& after_reservation(c1, bid, u2, t2) == c1
        }),
{
    let c1 = after_reservation(c, bid, u1, t1);
    assert(c1.insert(bid, BookView { status: reserved_state(c1[bid].status, u2, t2), ..c1[bid] }) =~= c1);
}

/// A request for a copy that is reserved or borrowed changes nothing and
/// is refused with the copy's own due day.
pub proof fn lemma_refusal_changes_nothing(c: Map<Bid, BookView>, bid: Bid, uid: Uid, today: Day)
    requires
        c.contains_key(bid),
        !(c[bid].status is Avaliable),
    ensures
        after_reservation(c, bid, uid, today) == c,
        reservation_result(c, bid, uid, today) matches Err(ReservationError::Refused(e))
            && refusal_matches(e, c[bid].status),
{
    assert(c.insert(bid, BookView { status: reserved_state(c[bid].status, uid, today), ..c[bid] }) =~= c);
}

/// The rows after a copy's record is written back: every row with the
/// copy's identifier takes the copy's stored form.
pub open spec fn write_back(rows: Seq<BookRow>, b: BookView) -> Seq<BookRow> {
    rows.map_values(|r: BookRow| if r.id == b.bid { row_of_book(b) } else { r })
}

/// Every loaded copy carries the author names of its work.
proof fn lemma_loaded_authors(rows: Seq<BookRow>, nm: Map<ISBN, Seq<Seq<char>>>)
    ensures
        forall|k: Bid| #[trigger] catalogue_of_rows(rows, nm).contains_key(k)
            ==> catalogue_of_rows(rows, nm)[k].authors == names_for(nm, catalogue_of_rows(rows, nm)[k].isbn),
    decreases rows.len(),
{
    if rows.len() > 0 {
        lemma_loaded_authors(rows.drop_last(), nm);
    }
}

proof fn lemma_write_back(rows: Seq<BookRow>, nm: Map<ISBN, Seq<Seq<char>>>, b: BookView)
    requires
        book_of_row(row_of_book(b), names_for(nm, b.isbn)) == b,
    ensures
        catalogue_of_rows(write_back(rows, b), nm) == if catalogue_of_rows(rows, nm).contains_key(b.bid) {
            catalogue_of_rows(rows, nm).insert(b.bid, b)
        } else {
            catalogue_of_rows(rows, nm)
        },
    decreases rows.len(),
{
    if rows.len() > 0 {
        let pre = rows.drop_last();
        lemma_write_back(pre, nm, b);
        assert(write_back(rows, b).drop_last() =~= write_back(pre, b));
        let r = rows.last();
        let c0 = catalogue_of_rows(pre, nm);
        let x = book_of_row(r, names_for(nm, r.isbn));
        if r.id == b.bid {
            assert(write_back(rows, b).last() == row_of_book(b));
            if c0.contains_key(b.bid) {
                assert(c0.insert(b.bid, b).insert(b.bid, b) =~= c0.insert(b.bid, x).insert(b.bid, b));
            } else {
                assert(c0.insert(b.bid, b) =~= c0.insert(b.bid, x).insert(b.bid, b));
            }
        } else {
            assert(write_back(rows, b).last() == r);
            if c0.contains_key(b.bid) {
                assert(c0.insert(b.bid, b).insert(r.id, x) =~= c0.insert(r.id, x).insert(b.bid, b));
            } else {
                assert(c0.insert(r.id, x).contains_key(b.bid) == false);
            }
        }
    } else {
        assert(write_back(rows, b) =~= rows);
    }
}

/// Loading the catalogue, reserving a copy, writing the copy's record back
/// to the rows and loading again gives the catalogue as it stood after the
/// reservation: the holder and due day survive the table.
pub proof fn lemma_reload_after_reservation(
    rows: Seq<BookRow>,
    nm: Map<ISBN, Seq<Seq<char>>>,
    bid: Bid,
    uid: Uid,
    today: Day,
)
    requires
        catalogue_of_rows(rows, nm).contains_key(bid),
    ensures
        ({
            let c1 = after_reservation(catalogue_of_rows(rows, nm), bid, uid, today);
            catalogue_of_rows(write_back(rows, c1[bid]), nm) == c1
        }),
{
    let c0 = catalogue_of_rows(rows, nm);
    let c1 = after_reservation(c0, bid, uid, today);
    let b = c1[bid];
    lemma_loaded_authors(rows, nm);
    lemma_row_round_trip(b);
    lemma_write_back(rows, nm, b);
    assert(c0.insert(bid, b) == c1);
    assert(c1[bid].bid == c0[bid].bid);
    lemma_loaded_bids(rows, nm);
}

/// Every loaded copy is filed under its own identifier.
proof fn lemma_loaded_bids(rows: Seq<BookRow>, nm: Map<ISBN, Seq<Seq<char>>>)
    ensures
        keyed_by_bid(catalogue_of_rows(rows, nm)),
    decreases rows.len(),
{
    if rows.len() > 0 {
        lemma_loaded_bids(rows.drop_last(), nm);
    }
}

/// Byte-wise lexicographic order, the order of `str`'s `Ord`.
pub open spec fn bytes_le(a: Seq<u8>, b: Seq<u8>) -> bool
    decreases a.len(),
{
    if a.len() == 0 {
        true
    } else if b.len() == 0 {
        false
    } else if a[0] != b[0] {
        a[0] < b[0]
    } else {
        bytes_le(a.drop_first(), b.drop_first())
    }
}

/// Order of book names: that of their UTF-8 bytes.
pub open spec fn name_le(a: Seq<char>, b: Seq<char>) -> bool {
    bytes_le(encode_utf8(a), encode_utf8(b))
}

proof fn lemma_bytes_le_total(a: Seq<u8>, b: Seq<u8>)
    ensures
        bytes_le(a, b) || bytes_le(b, a),
    decreases a.len(),
{
    if a.len() > 0 && b.len() > 0 && a[0] == b[0] {
        lemma_bytes_le_total(a.drop_first(), b.drop_first());
    }
}

fn bytes_le_exec(a: &[u8], b: &[u8]) -> (r: bool)
    ensures
        r == bytes_le(a@, b@),
{
    let mut i: usize = 0;
    proof {
        assert(a@.skip(0) =~= a@);
        assert(b@.skip(0) =~= b@);
    }
    while i < a.len() && i < b.len()
        invariant
            i <= a.len(),
            i <= b.len(),
            bytes_le(a@, b@) == bytes_le(a@.skip(i as int), b@.skip(i as int)),
        decreases a.len() - i,
    {
        if a[i] != b[i] {
            return a[i] < b[i];
        }
        proof {
            assert(a@.skip(i as int).drop_first() =~= a@.skip(i + 1));
            assert(b@.skip(i as int).drop_first() =~= b@.skip(i + 1));
        }
        i = i + 1;
    }
    i == a.len()
}

/// Whether `a` comes no later than `b` in name order.
pub fn name_le_exec(a: &String, b: &String) -> (r: bool)
    ensures
        r == name_le(a@, b@),
{
    bytes_le_exec(a.as_str().as_bytes(), b.as_str().as_bytes())
}

/// Adjacent copies are in name order.
pub open spec fn sorted_by_name(s: Seq<Book>) -> bool {
    forall|i: int| 0 <= i < s.len() - 1 ==> name_le(#[trigger] s[i].name@, s[i + 1].name@)
}

/// Inserts `c` after every copy whose name is not later than its own, and
/// says where.
fn insert_by_name(out: &mut Vec<Book>, c: Book) -> (j: usize)
    requires
        sorted_by_name(old(out)@),
    ensures
        j <= old(out)@.len(),
        final(out)@ == old(out)@.insert(j as int, c),
        sorted_by_name(final(out)@),
{
    let mut j: usize = out.len();
    while j > 0 && !name_le_exec(&out[j - 1].name, &c.name)
        invariant
            j <= out.len(),
            j < out.len() ==> !name_le(out[j as int].name@, c.name@),
        decreases j,
    {
        j = j - 1;
    }
    let ghost before = out@;
    let ghost cn = c.name@;
    out.insert(j, c);
    proof {
        assert forall|i: int| 0 <= i < out.len() - 1 implies name_le(#[trigger] out[i].name@, out[i + 1].name@) by {
            if i == j as int - 1 {
            } else if i == j as int {
                if j < before.len() {
                    lemma_bytes_le_total(encode_utf8(before[j as int].name@), encode_utf8(cn));
                }
            } else if i < j as int - 1 {
                assert(out[i] == before[i] && out[i + 1] == before[i + 1]);
            } else {
                assert(out[i] == before[i - 1] && out[i + 1] == before[i]);
            }
        }
    }
    j
}

/// Shared snapshot of every copy, kept consistent with the backing table.
pub struct CatalogueStore {
    books: HashMap<Bid, Book>,
    author_names: HashMap<ISBN, Vec<String>>,
    author_records: HashMap<ISBN, Vec<Author>>,
}

impl View for CatalogueStore {
    type V = Map<Bid, BookView>;

    closed spec fn view(&self) -> Map<Bid, BookView> {
        self.books@.map_values(|b: Book| b@)
    }
}

impl CatalogueStore {
    /// Author names of each work.
    pub closed spec fn names(&self) -> Map<ISBN, Seq<Seq<char>>> {
        self.author_names@.map_values(|v: Vec<String>| texts(v@))
    }

    /// Author records of each work.
    pub closed spec fn records(&self) -> Map<ISBN, Seq<(Aid, Seq<char>)>> {
        self.author_records@.map_values(|v: Vec<Author>| author_views(v@))
    }

    pub open spec fn wf(&self) -> bool {
        keyed_by_bid(self@)
    }

    /// Builds the catalogue from the stored copies, authors and authorship
    /// rows. An authorship row with an unknown author fails first; then a
    /// copy whose status columns cannot be read.
    pub fn load(rows: &Vec<BookQuery>, authors: &Vec<Author>, wrotes: &Vec<Wrote>) -> (r: Result<
        CatalogueStore,
        LoadError,
    >)
        ensures
            match r {
                Ok(c) => {
                    &&& authors_known(wrotes@, author_map(authors@))
                    &&& rows_loadable(row_views(rows@))
                    &&& c.wf()
                    &&& c.names() == names_index(wrotes@, author_map(authors@))
                    &&& c.records() == records_index(wrotes@, author_map(authors@))
                    &&& c@ == catalogue_of_rows(row_views(rows@), c.names())
                },
                Err(LoadError::UnknownAuthor(a)) => exists|i: int|
                    0 <= i < wrotes@.len() && #[trigger] wrotes@[i].author_id == a
                        && !author_map(authors@).contains_key(a),
                Err(LoadError::BrokenStatus(b)) => {
                    &&& authors_known(wrotes@, author_map(authors@))
                    &&& exists|i: int|
                        0 <= i < rows@.len() && #[trigger] rows@[i].id == b && !row_loadable(rows@[i]@)
                },
            },
    {
        let mut amap: HashMap<Aid, String> = HashMap::new();
        let mut i: usize = 0;
        while i < authors.len()
            invariant
                i <= authors.len(),
                amap@.map_values(|s: String| s@) == author_map(authors@.subrange(0, i as int)),
            decreases authors.len() - i,
        {
            let a = &authors[i];
            let ghost before = amap@;
            amap.insert(a.id, a.name.clone());
            proof {
                let pre = authors@.subrange(0, i + 1);
                assert(pre.drop_last() =~= authors@.subrange(0, i as int));
                assert(amap@.map_values(|s: String| s@) =~= before.map_values(|s: String| s@).insert(
                    a.id,
                    a.name@,
                ));
            }
            i = i + 1;
        }
        proof {
            assert(authors@.subrange(0, authors@.len() as int) =~= authors@);
        }
        let ghost am = author_map(authors@);
        let mut names: HashMap<ISBN, Vec<String>> = HashMap::new();
        let mut records: HashMap<ISBN, Vec<Author>> = HashMap::new();
        let mut j: usize = 0;
        proof {
            assert(records@.map_values(|v: Vec<Author>| author_views(v@)) =~= Map::<ISBN, Seq<(Aid, Seq<char>)>>::empty());
            assert(names@.map_values(|v: Vec<String>| texts(v@)) =~= Map::<ISBN, Seq<Seq<char>>>::empty());
        }
        while j < wrotes.len()
            invariant
                j <= wrotes.len(),
                am == author_map(authors@),
                amap@.map_values(|s: String| s@) == am,
                authors_known(wrotes@.subrange(0, j as int), am),
                names@.map_values(|v: Vec<String>| texts(v@)) == names_index(wrotes@.subrange(0, j as int), am),
                records@.map_values(|v: Vec<Author>| author_views(v@)) == records_index(wrotes@.subrange(0, j as int), am),
            decreases wrotes.len() - j,
        {
            let w = wrotes[j];
            let name = match amap.get(&w.author_id) {
                Some(n) => n.clone(),
                None => {
                    proof {
                        assert(wrotes@[j as int].author_id == w.author_id);
                        assert(!amap@.contains_key(w.author_id));
                        assert(!amap@.map_values(|s: String| s@).dom().contains(w.author_id));
                        assert(!am.contains_key(w.author_id));
                    }
                    return Err(LoadError::UnknownAuthor(w.author_id));
                },
            };
            let ghost before = names@.map_values(|v: Vec<String>| texts(v@));
            let mut list = match names.remove(&w.ISBN) {
                Some(l) => l,
                None => Vec::new(),
            };
            proof {
                if before.contains_key(w.ISBN) {
                    assert(texts(list@) == before[w.ISBN]);
                } else {
                    assert(texts(list@) =~= Seq::<Seq<char>>::empty());
                }
                assert(texts(list@) == names_for(before, w.ISBN));
            }
            let ghost rbefore = records@.map_values(|v: Vec<Author>| author_views(v@));
            let mut recs = match records.remove(&w.ISBN) {
                Some(l) => l,
                None => Vec::new(),
            };
            proof {
                if rbefore.contains_key(w.ISBN) {
                    assert(author_views(recs@) == rbefore[w.ISBN]);
                } else {
                    assert(author_views(recs@) =~= Seq::<(Aid, Seq<char>)>::empty());
                }
            }
            recs.push(Author { id: w.author_id, name: name.clone() });
            proof {
                assert(author_views(recs@) =~= records_for(rbefore, w.ISBN).push((w.author_id, am[w.author_id])));
            }
            records.insert(w.ISBN, recs);
            proof {
                assert(records@.map_values(|v: Vec<Author>| author_views(v@)) =~= rbefore.insert(
                    w.ISBN,
                    records_for(rbefore, w.ISBN).push((w.author_id, am[w.author_id])),
                ));
            }
            let ghost old_list = list@;
            list.push(name);
            proof {
                assert(texts(list@) =~= texts(old_list).push(am[w.author_id]));
            }
            names.insert(w.ISBN, list);
            proof {
                let pre = wrotes@.subrange(0, j + 1);
                assert(pre.drop_last() =~= wrotes@.subrange(0, j as int));
                assert(pre.last() == w);
                assert(names@.map_values(|v: Vec<String>| texts(v@)) =~= before.insert(
                    w.ISBN,
                    names_for(before, w.ISBN).push(am[w.author_id]),
                ));
                assert(authors_known(pre, am)) by {
                    assert forall|k: int| 0 <= k < pre.len() implies am.contains_key(
                        #[trigger] pre[k].author_id,
                    ) by {
                        if k < j {
                            assert(pre[k] == wrotes@.subrange(0, j as int)[k]);
                        }
                    }
                }
            }
            j = j + 1;
        }
        proof {
            assert(wrotes@.subrange(0, wrotes@.len() as int) =~= wrotes@);
            assert(authors_known(wrotes@, am));
        }
        let ghost nm = names_index(wrotes@, am);
        let mut books: HashMap<Bid, Book> = HashMap::new();
        let mut k: usize = 0;
        proof {
            assert(books@.map_values(|b: Book| b@) =~= Map::<Bid, BookView>::empty());
        }
        while k < rows.len()
            invariant
                k <= rows.len(),
                am == author_map(authors@),
                nm == names_index(wrotes@, am),
                records@.map_values(|v: Vec<Author>| author_views(v@)) == records_index(wrotes@, am),
                names@.map_values(|v: Vec<String>| texts(v@)) == nm,
                authors_known(wrotes@, am),
                rows_loadable(row_views(rows@.subrange(0, k as int))),
                books@.map_values(|b: Book| b@) == catalogue_of_rows(row_views(rows@.subrange(0, k as int)), nm),
                keyed_by_bid(books@.map_values(|b: Book| b@)),
            decreases rows.len() - k,
        {
            let row = &rows[k];
            match (row.is_borrow, row.user_id, row.time) {
                (Some(_), None, _) | (Some(_), _, None) => {
                    proof {
                        assert(rows@[k as int].id == row.id);
                        assert(!row_loadable(rows@[k as int]@));
                    }
                    return Err(LoadError::BrokenStatus(row.id));
                },
                _ => {},
            }
            let listed = names.get(&row.ISBN);
            proof {
                match listed {
                    Some(v) => assert(texts(v@) == names_for(nm, row.ISBN)),
                    None => assert(!nm.contains_key(row.ISBN)),
                }
            }
            let book = Book::from_query(row, listed);
            let ghost before = books@.map_values(|b: Book| b@);
            let ghost bv = book@;
            books.insert(book.bid, book);
            proof {
                let pre = rows@.subrange(0, k + 1);
                assert(pre.drop_last() =~= rows@.subrange(0, k as int));
                assert(row_views(pre).drop_last() =~= row_views(rows@.subrange(0, k as int)));
                assert(row_views(pre).last() == row@);
                assert(books@.map_values(|b: Book| b@) =~= before.insert(row.id, bv));
                assert(rows_loadable(row_views(pre))) by {
                    assert forall|x: int| 0 <= x < row_views(pre).len() implies row_loadable(
                        #[trigger] row_views(pre)[x],
                    ) by {
                        if x < k {
                            assert(row_views(pre)[x] == row_views(rows@.subrange(0, k as int))[x]);
                        }
                    }
                }
            }
            k = k + 1;
        }
        proof {
            assert(rows@.subrange(0, rows@.len() as int) =~= rows@);
        }
        Ok(CatalogueStore { books, author_names: names, author_records: records })
    }

    /// The copy with identifier `bid`, if there is one.
    pub fn get(&self, bid: Bid) -> (r: Option<&Book>)
        ensures
            match r {
                Some(b) => self@.contains_key(bid) && b@ == self@[bid],
                None => !self@.contains_key(bid),
            },
    {
        self.books.get(&bid)
    }

    /// The author records of work `isbn`, if it has any.
    pub fn authors_of(&self, isbn: ISBN) -> (r: Option<&Vec<Author>>)
        ensures
            match r {
                Some(v) => self.records().contains_key(isbn) && author_views(v@) == self.records()[isbn],
                None => !self.records().contains_key(isbn),
            },
    {
        self.author_records.get(&isbn)
    }

    /// Files `book` under its identifier, replacing any earlier record.
    pub fn put(&mut self, book: Book)
        requires
            old(self).wf(),
        ensures
            final(self).wf(),
            final(self)@ == old(self)@.insert(book.bid, book@),
            final(self).names() == old(self).names(),
            final(self).records() == old(self).records(),
    {
        let ghost bv = book@;
        self.books.insert(book.bid, book);
        proof {
            assert(self@ =~= old(self)@.insert(bv.bid, bv));
        }
    }

    /// Reserves copy `bid` for `uid` on `today` in one step: the state is
    /// read, the decision made and the new state filed together.
    pub fn reserve(&mut self, bid: Bid, uid: Uid, today: Day) -> (r: Result<Day, ReservationError>)
        requires
            old(self).wf(),
            day_in_range(today),
        ensures
            final(self).wf(),
            final(self)@ == after_reservation(old(self)@, bid, uid, today),
            r == reservation_result(old(self)@, bid, uid, today),
            final(self).names() == old(self).names(),
            final(self).records() == old(self).records(),
    {
        let mut book = match self.get(bid) {
            Some(b) => b.copy(),
            None => {
                return Err(ReservationError::NotFound);
            },
        };
        match book.reserve_on(uid, today) {
            Some(e) => {
                proof {
                    assert(after_reservation(self@, bid, uid, today) =~= self@);
                }
                Err(ReservationError::Refused(e))
            },
            None => {
                let due = today + RESERVATION_DAYS;
                self.put(book);
                Ok(due)
            },
        }
    }

    /// Every copy, ordered by name; copies with equal names keep the order
    /// in which they were met.
    pub fn list_sorted_by_name(&self) -> (r: Vec<Book>)
        requires
            self.wf(),
        ensures
            r.len() == self@.dom().len(),
            forall|i: int| 0 <= i < r.len() ==> #[trigger] self@.contains_key(r[i].bid) && r[i]@ == self@[r[i].bid],
            forall|k: Bid| #[trigger] self@.contains_key(k) ==> exists|i: int| 0 <= i < r.len() && #[trigger] r[i].bid == k,
            sorted_by_name(r@),
    {
        let mut out: Vec<Book> = Vec::new();
        let ghost v = vstd::std_specs::hash::spec_hash_map_iter(&self.books).remaining();
        for (key, b) in it: self.books.iter()
            invariant
                self.wf(),
                out.len() == it.index(),
                it.seq() == v,
                v == vstd::std_specs::hash::spec_hash_map_iter(&self.books).remaining(),
                forall|i: int| 0 <= i < out.len() ==> #[trigger] self@.contains_key(out[i].bid) && out[i]@ == self@[out[i].bid],
                forall|p: int| 0 <= p < out.len() ==> exists|i: int| 0 <= i < out.len() && #[trigger] out[i].bid == *(#[trigger] v[p]).0,
                sorted_by_name(out@),
        {
            let c = b.copy();
            let ghost p = out.len() as int;
            proof {
                assert((key, b) == v[p]);
                assert(self.books@.contains_key(*key) && self.books@[*key] == *b);
                assert(self@.contains_key(*key) && self@[*key] == b@);
                assert(c.bid == *key);
            }
            let ghost before = out@;
            let ghost cv = c;
            let j = insert_by_name(&mut out, c);
            proof {
                assert forall|i: int| 0 <= i < out.len() implies #[trigger] self@.contains_key(out[i].bid) && out[i]@ == self@[out[i].bid] by {
                    if i < j {
                        assert(out[i] == before[i]);
                    } else if i > j {
                        assert(out[i] == before[i - 1]);
                    }
                }
                assert forall|p: int| 0 <= p < out.len() implies exists|i: int| 0 <= i < out.len() && #[trigger] out[i].bid == *(#[trigger] v[p]).0 by {
                    if p == before.len() {
                        assert(out[j as int] == cv);
                        assert(out[j as int].bid == *v[p].0);
                    } else {
                        let i0 = choose|i: int| 0 <= i < before.len() && #[trigger] before[i].bid == *v[p].0;
                        if i0 < j {
                            assert(out[i0] == before[i0]);
                        } else {
                            assert(out[i0 + 1] == before[i0]);
                        }
                    }
                }
            }
        }
        proof {
            assert(out.len() == v.len());
            assert(self@.dom() =~= self.books@.dom());
            assert forall|k: Bid| #[trigger] self@.contains_key(k) implies exists|i: int| 0 <= i < out.len() && #[trigger] out[i].bid == k by {
                assert(self.books@.contains_key(k));
                assert(v.contains((&k, &self.books@[k])));
                let p = choose|p: int| 0 <= p < v.len() && v[p] == (&k, &self.books@[k]);
                assert(*v[p].0 == k);
            }
        }
        out
    }
}

} // verus!
