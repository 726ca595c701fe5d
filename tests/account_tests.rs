use chrono::Datelike;

use lsys::account::{
    hash, hash_pass, Account, AccountQuery, AuthError, FormRegister, IdentityStore, LoginError,
    RegisterError,
};
use lsys::book::{Book, BookQuery};
use lsys::catalogue::{CatalogueStore, ReservationError};
use lsys::status::{days_until, BorrowStatus, ReserveBookError};

fn form(name: &str, email: &str, pass: &str) -> FormRegister {
    FormRegister { name: name.to_string(), email: email.to_string(), pass: pass.to_string() }
}

fn register(store: &mut IdentityStore, uid: i64, f: FormRegister) -> Account {
    let h = Account::prepare(&f).unwrap();
    let acc = Account::new(uid, f, h);
    let copy = Account::from_query(&AccountQuery {
        id: acc.uid,
        name: acc.name.clone(),
        email: acc.email.clone(),
        pass_hash: acc.pass_hash.clone(),
        is_worker: acc.is_worker,
    });
    store.register_index(acc);
    copy
}

#[test]
fn djb2_values() {
    assert_eq!(hash(b""), 5381);
    assert_eq!(hash(b"a"), 5381 * 33 + 97);
    assert_eq!(hash(b"ab"), (5381 * 33 + 97) * 33 + 98);
    let long = b"a rather long password that overflows";
    let mut h: i64 = 5381;
    for c in long.iter() {
        h = h.wrapping_mul(33).wrapping_add(*c as i64);
    }
    assert_eq!(hash(long), h);
}

#[test]
fn password_hash_is_uuid_of_hash_bytes() {
    let expected = uuid::Uuid::new_v3(&uuid::Uuid::NAMESPACE_OID, &hash(b"pw1").to_le_bytes()).to_string();
    assert_eq!(hash_pass(b"pw1"), expected);
    assert_eq!(hash_pass(b"pw1").len(), 36);
    assert_ne!(hash_pass(b"pw1"), hash_pass(b"pw2"));
}

#[test]
fn register_then_login_gives_same_uid() {
    let mut store = IdentityStore::new();
    register(&mut store, 1, form("Alice", "a@x.com", "pw1"));
    let acc = store.login("a@x.com", "pw1").unwrap();
    assert_eq!(acc.uid, 1);
    assert_eq!(acc.name, "Alice");
    assert!(!acc.is_worker);
}

#[test]
fn login_failures() {
    let mut store = IdentityStore::new();
    register(&mut store, 1, form("Alice", "a@x.com", "pw1"));
    assert_eq!(store.login("a@x.com", "nope").err(), Some(LoginError::InvalidCredentials));
    assert_eq!(store.login("b@x.com", "pw1").err(), Some(LoginError::NotFound));
    assert_eq!(store.login("a@x.com", "pw1").unwrap().uid, 1);
}

#[test]
fn later_registration_with_same_email_wins() {
    let mut store = IdentityStore::new();
    register(&mut store, 1, form("Alice", "a@x.com", "pw1"));
    register(&mut store, 2, form("Bob", "b@x.com", "pw2"));
    register(&mut store, 3, form("Alice2", "a@x.com", "pw3"));
    assert_eq!(store.login("a@x.com", "pw3").unwrap().uid, 3);
    assert_eq!(store.login("a@x.com", "pw1").err(), Some(LoginError::InvalidCredentials));
    assert_eq!(store.login("b@x.com", "pw2").unwrap().uid, 2);
}

#[test]
fn registration_needs_every_field() {
    assert!(matches!(Account::prepare(&form("", "a@x.com", "pw")), Err(RegisterError::ValidationError)));
    assert!(matches!(Account::prepare(&form("A", "", "pw")), Err(RegisterError::ValidationError)));
    assert!(matches!(Account::prepare(&form("A", "a@x.com", "")), Err(RegisterError::ValidationError)));
    assert_eq!(Account::prepare(&form("A", "a@x.com", "pw")).unwrap(), hash_pass(b"pw"));
    assert_eq!(RegisterError::ValidationError.to_string(), "Field with not input");
    assert_eq!(RegisterError::StorageError("UNIQUE".to_string()).to_string(), "UNIQUE");
}

#[test]
fn session_token_resolves_to_account() {
    let mut store = IdentityStore::new();
    register(&mut store, 1, form("Alice", "a@x.com", "pw1"));
    let token = store.login("a@x.com", "pw1").unwrap().session_value();
    assert_eq!(token.len(), 36);
    assert_eq!(uuid::Uuid::parse_str(&token).unwrap().to_string(), token);
    assert_eq!(store.resolve(&token).unwrap().uid, 1);
    assert!(store.resolve("not a token").is_none());
    assert!(store.resolve("00000000-0000-0000-0000-000000000000").is_none());
}

#[test]
fn load_accounts_from_rows() {
    let rows = vec![
        AccountQuery {
            id: 4,
            name: "W".to_string(),
            email: "w@x.com".to_string(),
            pass_hash: hash_pass(b"s"),
            is_worker: true,
        },
        AccountQuery {
            id: 5,
            name: "V".to_string(),
            email: "v@x.com".to_string(),
            pass_hash: hash_pass(b"t"),
            is_worker: false,
        },
    ];
    let store = IdentityStore::load(&rows);
    let w = store.login("w@x.com", "s").unwrap();
    assert_eq!(w.uid, 4);
    assert!(w.is_worker);
    assert_eq!(store.login("v@x.com", "t").unwrap().uid, 5);
    let token = w.session_value();
    assert_eq!(store.resolve(&token).unwrap().uid, 4);
}

#[test]
fn reserving_a_copy_from_today() {
    let mut store = IdentityStore::new();
    let acc = register(&mut store, 1, form("Alice", "a@x.com", "pw1"));
    let mut b = Book::from_query(
        &BookQuery {
            ISBN: 1,
            id: 5,
            name: "N".to_string(),
            published: "2000".to_string(),
            user_id: None,
            time: None,
            is_borrow: None,
        },
        None,
    );
    assert!(b.authors.is_empty());
    let before = chrono::Utc::now().date_naive().num_days_from_ce();
    assert!(b.reserve(&acc).is_none());
    let after = chrono::Utc::now().date_naive().num_days_from_ce();
    match b.status {
        BorrowStatus::Reserved(uid, due) => {
            assert_eq!(uid, 1);
            assert!(due == before + 7 || due == after + 7);
            let left = days_until(due);
            assert!(left == 7 || left == 6);
        },
        other => panic!("unexpected {:?}", other),
    }
    let other = Account::new(2, form("Bob", "b@x.com", "x"), hash_pass(b"x"));
    assert!(b.reserve(&other).is_some());
}

#[test]
fn alice_registers_and_reserves() {
    let mut store = IdentityStore::new();
    register(&mut store, 1, form("Alice", "a@x.com", "pw1"));
    let alice = store.login("a@x.com", "pw1").unwrap();
    assert_eq!(alice.uid, 1);

    let rows = vec![BookQuery {
        ISBN: 10,
        id: 5,
        name: "Emma".to_string(),
        published: "1815".to_string(),
        user_id: None,
        time: None,
        is_borrow: None,
    }];
    let mut c = CatalogueStore::load(&rows, &vec![], &vec![]).unwrap();
    let today = 740000;
    assert_eq!(c.reserve(5, alice.uid, today).ok(), Some(today + 7));
    assert_eq!(c.get(5).unwrap().status, BorrowStatus::Reserved(1, today + 7));
    match c.reserve(5, 2, today) {
        Err(ReservationError::Refused(ReserveBookError::Reserved(d))) => assert_eq!(d, today + 7),
        other => panic!("unexpected {:?}", other),
    }
    assert_eq!(c.get(5).unwrap().status, BorrowStatus::Reserved(1, today + 7));
}

#[test]
fn authentication_needs_a_known_session() {
    let mut store = IdentityStore::new();
    register(&mut store, 1, form("Alice", "a@x.com", "pw1"));
    let token = store.login("a@x.com", "pw1").unwrap().session_value();
    assert_eq!(store.authenticate(Some(&token)).unwrap().uid, 1);
    assert_eq!(store.authenticate(None).err(), Some(AuthError::AuthRequired));
    assert_eq!(store.authenticate(Some("garbage")).err(), Some(AuthError::AuthRequired));
}
