use lsys::book::{Author, Book, BookQuery};
use lsys::catalogue::{CatalogueStore, LoadError, ReservationError, Wrote};
use lsys::status::{
    days_between, due_state, standing, BorrowStatus, DueState, ReserveBookError, Standing,
};

fn row(id: i64, isbn: i64, name: &str) -> BookQuery {
    BookQuery {
        ISBN: isbn,
        id,
        name: name.to_string(),
        published: "1887".to_string(),
        user_id: None,
        time: None,
        is_borrow: None,
    }
}

fn sample() -> CatalogueStore {
    let mut held = row(7, 300, "Dracula");
    held.user_id = Some(9);
    held.time = Some(739000);
    held.is_borrow = Some(true);
    let rows = vec![
        row(5, 100, "A Study In Scarlet"),
        row(6, 200, "Emma"),
        held,
        row(8, 100, "A Study In Scarlet"),
    ];
    let authors = vec![
        Author { id: 1, name: "Arthur Conan Doyle".to_string() },
        Author { id: 2, name: "Jane Austen".to_string() },
        Author { id: 3, name: "Bram Stoker".to_string() },
        Author { id: 4, name: "Ghost Writer".to_string() },
    ];
    let wrotes = vec![
        Wrote { author_id: 1, ISBN: 100 },
        Wrote { author_id: 2, ISBN: 200 },
        Wrote { author_id: 3, ISBN: 300 },
        Wrote { author_id: 4, ISBN: 100 },
    ];
    CatalogueStore::load(&rows, &authors, &wrotes).unwrap()
}

#[test]
fn load_builds_books_with_authors_and_status() {
    let c = sample();
    let b = c.get(5).unwrap();
    assert_eq!(b.name, "A Study In Scarlet");
    assert_eq!(b.authors, vec!["Arthur Conan Doyle".to_string(), "Ghost Writer".to_string()]);
    assert_eq!(b.status, BorrowStatus::Avaliable);
    let d = c.get(7).unwrap();
    assert_eq!(d.authors, vec!["Bram Stoker".to_string()]);
    assert_eq!(d.status, BorrowStatus::Borrowed(9, 739000));
    assert!(c.get(42).is_none());
}

#[test]
fn load_rejects_unknown_author() {
    let rows = vec![row(5, 100, "A")];
    let authors = vec![Author { id: 1, name: "X".to_string() }];
    let wrotes = vec![Wrote { author_id: 1, ISBN: 100 }, Wrote { author_id: 2, ISBN: 100 }];
    assert_eq!(CatalogueStore::load(&rows, &authors, &wrotes).err(), Some(LoadError::UnknownAuthor(2)));
}

#[test]
fn load_rejects_flag_without_holder() {
    let mut broken = row(5, 100, "A");
    broken.is_borrow = Some(false);
    broken.time = Some(739000);
    let rows = vec![row(4, 100, "B"), broken];
    assert_eq!(CatalogueStore::load(&rows, &vec![], &vec![]).err(), Some(LoadError::BrokenStatus(5)));
}

#[test]
fn listing_is_sorted_by_name() {
    let c = sample();
    let list = c.list_sorted_by_name();
    let names: Vec<&str> = list.iter().map(|b| b.name.as_str()).collect();
    assert_eq!(names, vec!["A Study In Scarlet", "A Study In Scarlet", "Dracula", "Emma"]);
    let mut bids: Vec<i64> = list.iter().map(|b| b.bid).collect();
    bids.sort();
    assert_eq!(bids, vec![5, 6, 7, 8]);
}

#[test]
fn listing_orders_by_bytes() {
    let rows = vec![row(1, 1, "b"), row(2, 2, "B"), row(3, 3, "ab"), row(4, 4, "a"), row(5, 5, "")];
    let c = CatalogueStore::load(&rows, &vec![], &vec![]).unwrap();
    let names: Vec<String> = c.list_sorted_by_name().into_iter().map(|b| b.name).collect();
    assert_eq!(names, vec!["", "B", "a", "ab", "b"]);
}

#[test]
fn reserve_scenario_then_second_request_refused() {
    let mut c = sample();
    let today = 739100;
    assert_eq!(c.reserve(5, 1, today).ok(), Some(today + 7));
    assert_eq!(c.get(5).unwrap().status, BorrowStatus::Reserved(1, today + 7));
    match c.reserve(5, 2, today) {
        Err(ReservationError::Refused(ReserveBookError::Reserved(d))) => assert_eq!(d, today + 7),
        other => panic!("unexpected {:?}", other),
    }
    assert_eq!(c.get(5).unwrap().status, BorrowStatus::Reserved(1, today + 7));
}

#[test]
fn reserve_borrowed_copy_is_refused_unchanged() {
    let mut c = sample();
    match c.reserve(7, 1, 739100) {
        Err(ReservationError::Refused(ReserveBookError::Borrowed(d))) => assert_eq!(d, 739000),
        other => panic!("unexpected {:?}", other),
    }
    assert_eq!(c.get(7).unwrap().status, BorrowStatus::Borrowed(9, 739000));
}

#[test]
fn reserve_unknown_copy_is_not_found() {
    let mut c = sample();
    assert!(matches!(c.reserve(99, 1, 739100), Err(ReservationError::NotFound)));
}

#[test]
fn stored_row_round_trip_keeps_reservation() {
    let mut c = sample();
    c.reserve(6, 3, 739200).unwrap();
    let b = c.get(6).unwrap();
    let q = b.to_query();
    assert_eq!((q.is_borrow, q.user_id, q.time), (Some(false), Some(3), Some(739207)));
    let again = Book::from_query(&q, Some(&b.authors));
    assert_eq!(again.status, BorrowStatus::Reserved(3, 739207));
    assert_eq!(again.name, b.name);
    assert_eq!(again.bid, 6);
}

#[test]
fn reload_after_written_reservation() {
    let mut c = sample();
    c.reserve(6, 3, 739200).unwrap();
    let q = c.get(6).unwrap().to_query();
    let rows = vec![row(5, 100, "A Study In Scarlet"), q];
    let authors = vec![Author { id: 2, name: "Jane Austen".to_string() }];
    let wrotes = vec![Wrote { author_id: 2, ISBN: 200 }];
    let reloaded = CatalogueStore::load(&rows, &authors, &wrotes).unwrap();
    assert_eq!(reloaded.get(6).unwrap().status, BorrowStatus::Reserved(3, 739207));
    assert_eq!(reloaded.get(6).unwrap().authors, vec!["Jane Austen".to_string()]);
}

#[test]
fn put_replaces_record() {
    let mut c = sample();
    let mut b = c.get(5).unwrap().copy();
    b.status = BorrowStatus::Borrowed(4, 1);
    c.put(b);
    assert_eq!(c.get(5).unwrap().status, BorrowStatus::Borrowed(4, 1));
}

#[test]
fn status_from_stored_triple() {
    assert_eq!(BorrowStatus::from(None, None, None), BorrowStatus::Avaliable);
    assert_eq!(BorrowStatus::from(Some(false), Some(2), Some(10)), BorrowStatus::Reserved(2, 10));
    assert_eq!(BorrowStatus::from(Some(true), Some(2), Some(10)), BorrowStatus::Borrowed(2, 10));
    assert_eq!(BorrowStatus::Reserved(2, 10).to_raw(), (Some(false), Some(2), Some(10)));
    assert_eq!(BorrowStatus::Avaliable.to_raw(), (None, None, None));
}

#[test]
fn status_queries() {
    let r = BorrowStatus::Reserved(2, 10);
    assert!(r.is_reserved() && !r.is_borrowed() && !r.is_avaliable());
    assert!(BorrowStatus::Avaliable.is_avaliable());
    assert!(BorrowStatus::Borrowed(1, 1).is_borrowed());
    assert_eq!(r.is_with_viewer(2), (true, Some(10)));
    assert_eq!(r.is_with_viewer(3), (false, Some(10)));
    assert_eq!(BorrowStatus::Avaliable.is_with_viewer(2), (false, None));
    assert_eq!(BorrowStatus::Avaliable.to_string(), "avaliable");
    assert_eq!(r.to_string(), "reserved");
    assert_eq!(BorrowStatus::Borrowed(1, 1).to_string(), "borrowed");
}

#[test]
fn reserve_for_changes_only_free_copies() {
    let mut s = BorrowStatus::Avaliable;
    assert!(s.reserve_for(4, 100).is_none());
    assert_eq!(s, BorrowStatus::Reserved(4, 107));
    match s.reserve_for(5, 200) {
        Some(ReserveBookError::Reserved(d)) => assert_eq!(d, 107),
        other => panic!("unexpected {:?}", other),
    }
    assert_eq!(s, BorrowStatus::Reserved(4, 107));
}

#[test]
fn days_remaining_three_ways() {
    assert_eq!(days_between(100, 100), 0);
    assert_eq!(due_state(days_between(100, 100)), DueState::DueToday);
    assert_eq!(due_state(days_between(100, 103)), DueState::DaysLeft(3));
    assert_eq!(due_state(days_between(100, 98)), DueState::Overdue(2));
}

#[test]
fn standing_of_viewer() {
    assert_eq!(standing(BorrowStatus::Avaliable, 1, 100), Standing::CanReserve);
    assert_eq!(standing(BorrowStatus::Reserved(1, 100), 1, 100), Standing::Holder(DueState::DueToday));
    assert_eq!(standing(BorrowStatus::Borrowed(1, 90), 1, 100), Standing::Holder(DueState::Overdue(10)));
    assert_eq!(standing(BorrowStatus::Reserved(1, 105), 1, 100), Standing::Holder(DueState::DaysLeft(5)));
    assert_eq!(standing(BorrowStatus::Reserved(2, 105), 1, 100), Standing::Other);
}

#[test]
fn free_exactly_when_no_holder_and_no_day() {
    for s in [BorrowStatus::Avaliable, BorrowStatus::Reserved(1, 5), BorrowStatus::Borrowed(2, 6)] {
        let (flag, holder, day) = s.to_raw();
        assert_eq!(s.is_avaliable(), holder.is_none() && day.is_none());
        assert_eq!(holder.is_none(), day.is_none());
        assert_eq!(flag.is_none(), holder.is_none());
        assert_eq!(BorrowStatus::from(flag, holder, day), s);
    }
}

#[test]
fn author_records_of_a_work() {
    let c = sample();
    let recs = c.authors_of(100).unwrap();
    let got: Vec<(i64, &str)> = recs.iter().map(|a| (a.id, a.name.as_str())).collect();
    assert_eq!(got, vec![(1, "Arthur Conan Doyle"), (4, "Ghost Writer")]);
    assert!(c.authors_of(999).is_none());
}
