//! Accounts, their credentials and session tokens, and the identity store
//! that indexes them.

use std::collections::HashMap;
use vstd::arithmetic::power::pow;
use vstd::bytes::{spec_u64_to_le_bytes, u64_to_le_bytes};
use vstd::prelude::*;
use vstd::utf8::encode_utf8;

use crate::status::Uid;
use crate::text::same_text;

verus! {

broadcast use vstd::std_specs::hash::group_hash_axioms;

/// A registered account.
#[derive(Debug, Clone)]
pub struct Account {
    pub uid: Uid,
    pub name: String,
    pub email: String,
    pub pass_hash: String,
    /// Session token: the value of a UUID.
    pub uuid: u128,
    pub is_worker: bool,
}

/// An account as plain values.
pub struct AccountView {
    pub uid: Uid,
    pub name: Seq<char>,
    pub email: Seq<char>,
    pub pass_hash: Seq<char>,
    pub uuid: u128,
    pub is_worker: bool,
}

impl View for Account {
    type V = AccountView;

    open spec fn view(&self) -> AccountView {
        AccountView {
            uid: self.uid,
            name: self.name@,
            email: self.email@,
            pass_hash: self.pass_hash@,
            uuid: self.uuid,
            is_worker: self.is_worker,
        }
    }
}

/// A row of the accounts table.
#[derive(Debug, Clone)]
pub struct AccountQuery {
    pub id: i64,
    pub name: String,
    pub email: String,
    pub pass_hash: String,
    pub is_worker: bool,
}

/// Login form.
#[derive(Debug)]
pub struct FormLogin {
    pub email: String,
    pub pass: String,
}

/// Registration form.
#[derive(Debug)]
pub struct FormRegister {
    pub name: String,
    pub email: String,
    pub pass: String,
}

/// The djb2 rolling hash with 64-bit wrap-around: start at 5381, and for
/// each byte multiply by 33 and add the byte.
pub open spec fn djb2(s: Seq<u8>) -> i64
    decreases s.len(),
{
    if s.len() == 0 {
        5381
    } else {
        djb2(s.drop_last()).wrapping_mul(33).wrapping_add(s.last() as i64)
    }
}

/// Lower-case hexadecimal digits, in order of value.
pub open spec fn hex_digit(d: int) -> char {
    seq!['0', '1', '2', '3', '4', '5', '6', '7', '8', '9', 'a', 'b', 'c', 'd', 'e', 'f'][d]
}

/// The `k`-th of the 32 hexadecimal digits of `u`, most significant first.
pub open spec fn uuid_nibble(u: u128, k: int) -> int {
    (u as int / pow(16, (31 - k) as nat)) % 16
}

/// The hyphenated lower-case form of a UUID value: 32 hexadecimal digits,
/// most significant first, in groups of 8, 4, 4, 4 and 12 joined by `-`.
pub open spec fn hyphenated(u: u128) -> Seq<char> {
    Seq::new(
        36,
        |i: int|
            if i == 8 || i == 13 || i == 18 || i == 23 {
                '-'
            } else {
                let k = if i < 8 {
                    i
                } else if i < 13 {
                    i - 1
                } else if i < 18 {
                    i - 2
                } else if i < 23 {
                    i - 3
                } else {
                    i - 4
                };
                hex_digit(uuid_nibble(u, k))
            },
    )
}

/// Value of the name-based (version 3, MD5) UUID of `name` in the OID
/// namespace.
pub uninterp spec fn oid_v3(name: Seq<u8>) -> u128;

/// What `Uuid::parse_str` makes of a text.
pub uninterp spec fn uuid_of_text(s: Seq<char>) -> Option<u128>;

/// Relies on uuid's `Uuid::new_v3` with `Uuid::NAMESPACE_OID`, read back by
/// `Uuid::as_u128`: the UUID depends on the name bytes alone.
#[verifier::external_body]
fn uuid_v3_oid(name: &[u8]) -> (r: u128)
    ensures
        r == oid_v3(name@),
{
    uuid::Uuid::new_v3(&uuid::Uuid::NAMESPACE_OID, name).as_u128()
}

/// Relies on uuid's `Uuid::from_u128` (big-endian bytes) and `Display` for
/// `Uuid`, which writes the hyphenated lower-case form.
#[verifier::external_body]
fn uuid_text(u: u128) -> (r: String)
    ensures
        r@ == hyphenated(u),
{
    uuid::Uuid::from_u128(u).to_string()
}

/// Relies on uuid's `Uuid::parse_str`, read back by `Uuid::as_u128`: the
/// result depends on the text alone, and the hyphenated form is accepted.
#[verifier::external_body]
fn parse_uuid(s: &str) -> (r: Option<u128>)
    ensures
        r == uuid_of_text(s@),
        forall|u: u128| s@ == #[trigger] hyphenated(u) ==> r == Some(u),
{
    uuid::Uuid::parse_str(s).ok().map(|u| u.as_u128())
}

/// Relies on uuid's `Uuid::new_v4`, read back by `Uuid::as_u128`: a random
/// value, of which nothing is promised.
#[verifier::external_body]
fn random_uuid() -> (r: u128) {
    uuid::Uuid::new_v4().as_u128()
}

/// The stored form of a password: the hyphenated name-based UUID of the
/// little-endian bytes of its djb2 hash.
pub open spec fn pass_hash_text(pass: Seq<u8>) -> Seq<char> {
    hyphenated(oid_v3(spec_u64_to_le_bytes(#[verifier::truncate] (djb2(pass) as u64))))
}

/// The djb2 hash of `st`.
pub fn hash(st: &[u8]) -> (r: i64)
    ensures
        r == djb2(st@),
{
    let mut h: i64 = 5381;
    let mut i: usize = 0;
    while i < st.len()
        invariant
            i <= st.len(),
            h == djb2(st@.subrange(0, i as int)),
        decreases st.len() - i,
    {
        proof {
            let t = st@.subrange(0, i + 1);
            assert(t.drop_last() =~= st@.subrange(0, i as int));
        }
        h = h.wrapping_mul(33).wrapping_add(st[i] as i64);
        i = i + 1;
    }
    proof {
        assert(st@.subrange(0, st@.len() as int) =~= st@);
    }
    h
}

/// The stored form of the password `pass`.
pub fn hash_pass(pass: &[u8]) -> (r: String)
    ensures
        r@ == pass_hash_text(pass@),
{
    let h = hash(pass);
    let bytes = u64_to_le_bytes(#[verifier::truncate] (h as u64));
    uuid_text(uuid_v3_oid(bytes.as_slice()))
}

/// Why a registration failed.
#[derive(Debug, Clone)]
pub enum RegisterError {
    /// A field of the form is empty.
    ValidationError,
    /// The backing store refused the new row; its message.
    StorageError(String),
}

impl RegisterError {
    /// Message shown for the error.
    pub fn to_string(&self) -> (r: String)
        ensures
            self is ValidationError ==> r@ == "Field with not input"@,
            self matches RegisterError::StorageError(m) ==> r@ == m@,
    {
        match self {
            RegisterError::ValidationError => "Field with not input".to_string(),
            RegisterError::StorageError(m) => m.clone(),
        }
    }
}

impl Account {
    /// Checks a registration form and gives the stored form of its
    /// password: every field must be filled.
    pub fn prepare(form: &FormRegister) -> (r: Result<String, RegisterError>)
        ensures
            match r {
                Ok(h) => form.name@.len() > 0 && form.email@.len() > 0 && form.pass@.len() > 0
                    && h@ == pass_hash_text(encode_utf8(form.pass@)),
                Err(e) => e is ValidationError && (form.name@.len() == 0 || form.email@.len() == 0
                    || form.pass@.len() == 0),
            },
    {
        if form.name.as_str().is_empty() || form.email.as_str().is_empty() || form.pass.as_str().is_empty() {
            return Err(RegisterError::ValidationError);
        }
        Ok(hash_pass(form.pass.as_str().as_bytes()))
    }

    /// The account made by a registration whose row the store numbered
    /// `uid`, with a fresh random session token.
    pub fn new(uid: Uid, form: FormRegister, pass_hash: String) -> (r: Account)
        ensures
            r.uid == uid,
            r.name@ == form.name@,
            r.email@ == form.email@,
            r.pass_hash@ == pass_hash@,
            !r.is_worker,
    {
        Account {
            uid,
            name: form.name,
            email: form.email,
            pass_hash,
            uuid: random_uuid(),
            is_worker: false,
        }
    }

    /// The account stored in a row, with a fresh random session token.
    pub fn from_query(info: &AccountQuery) -> (r: Account)
        ensures
            r.uid == info.id,
            r.name@ == info.name@,
            r.email@ == info.email@,
            r.pass_hash@ == info.pass_hash@,
            r.is_worker == info.is_worker,
    {
        Account {
            uid: info.id,
            name: info.name.clone(),
            email: info.email.clone(),
            pass_hash: info.pass_hash.clone(),
            uuid: random_uuid(),
            is_worker: info.is_worker,
        }
    }

    /// The text of the session token, as a cookie carries it.
    pub fn session_value(&self) -> (r: String)
        ensures
            r@ == hyphenated(self.uuid),
    {
        uuid_text(self.uuid)
    }
}

/// Why a login failed.
#[derive(Debug, Clone, Copy, PartialEq, Eq, Structural)]
pub enum LoginError {
    /// No account has the email.
    NotFound,
    /// The password does not match.
    InvalidCredentials,
}

/// Why a request has no account: it carries no session token, or one that
/// stands for no account.
#[derive(Debug, Clone, Copy, PartialEq, Eq, Structural)]
pub enum AuthError {
    AuthRequired,
}

/// The identity store as plain values: account by session token (through
/// its identifier), by identifier, and identifier by email.
pub struct IdentityView {
    pub tokens: Map<u128, Uid>,
    pub accounts: Map<Uid, AccountView>,
    pub emails: Map<Seq<char>, Uid>,
}

/// The email index that a list of (email, identifier) entries stands for;
/// a later entry replaces an earlier one.
pub open spec fn email_map(v: Seq<(String, Uid)>) -> Map<Seq<char>, Uid>
    decreases v.len(),
{
    if v.len() == 0 {
        Map::empty()
    } else {
        email_map(v.drop_last()).insert(v.last().0@, v.last().1)
    }
}

/// Every index leads to an account, and every account is filed under its
/// own identifier.
pub open spec fn identity_wf(s: IdentityView) -> bool {
    &&& forall|t: u128| #[trigger] s.tokens.contains_key(t) ==> s.accounts.contains_key(s.tokens[t])
    &&& forall|e: Seq<char>| #[trigger] s.emails.contains_key(e) ==> s.accounts.contains_key(s.emails[e])
    &&& forall|u: Uid| #[trigger] s.accounts.contains_key(u) ==> s.accounts[u].uid == u
}

/// The store after `a` is filed under all three indices.
pub open spec fn with_account(s: IdentityView, a: AccountView) -> IdentityView {
    IdentityView {
        tokens: s.tokens.insert(a.uuid, a.uid),
        accounts: s.accounts.insert(a.uid, a),
        emails: s.emails.insert(a.email, a.uid),
    }
}

/// The answer to a login with `email` and `pass`.
pub open spec fn login_result(s: IdentityView, email: Seq<char>, pass: Seq<char>) -> Result<AccountView, LoginError> {
    if !s.emails.contains_key(email) || !s.accounts.contains_key(s.emails[email]) {
        Err(LoginError::NotFound)
    } else {
        let a = s.accounts[s.emails[email]];
        if a.pass_hash == pass_hash_text(encode_utf8(pass)) {
            Ok(a)
        } else {
            Err(LoginError::InvalidCredentials)
        }
    }
}

/// The account that a session token stands for.
pub open spec fn session_account(s: IdentityView, token: Option<u128>) -> Option<AccountView> {
    match token {
        Some(t) => if s.tokens.contains_key(t) && s.accounts.contains_key(s.tokens[t]) {
            Some(s.accounts[s.tokens[t]])
        } else {
            None
        },
        None => None,
    }
}

proof fn lemma_with_account_wf(s: IdentityView, a: AccountView)
    requires
        identity_wf(s),
    ensures
        identity_wf(with_account(s, a)),
{
    let s2 = with_account(s, a);
    assert forall|t: u128| #[trigger] s2.tokens.contains_key(t) implies s2.accounts.contains_key(s2.tokens[t]) by {
        if t != a.uuid {
            assert(s.tokens.contains_key(t));
        }
    }
    assert forall|e: Seq<char>| #[trigger] s2.emails.contains_key(e) implies s2.accounts.contains_key(s2.emails[e]) by {
        if e != a.email {
            assert(s.emails.contains_key(e));
        }
    }
}

/// A login with the email and password of the last account filed under that
/// email gives that account, whatever the store held before.
pub proof fn lemma_login_after_register(s: IdentityView, a: AccountView, pass: Seq<char>)
    requires
        a.pass_hash == pass_hash_text(encode_utf8(pass)),
    ensures
        login_result(with_account(s, a), a.email, pass) == Ok::<AccountView, LoginError>(a),
{
}

/// A login with an unknown email is not found; one with a known email and
/// another password is refused.
pub proof fn lemma_login_refusals(s: IdentityView, email: Seq<char>, pass: Seq<char>)
    requires
        identity_wf(s),
    ensures
        !s.emails.contains_key(email) ==> login_result(s, email, pass) == Err::<AccountView, LoginError>(
            LoginError::NotFound,
        ),
        s.emails.contains_key(email) && s.accounts[s.emails[email]].pass_hash != pass_hash_text(
            encode_utf8(pass),
        ) ==> login_result(s, email, pass) == Err::<AccountView, LoginError>(LoginError::InvalidCredentials),
{
}

/// Name, email, stored password and worker flag of each account by
/// identifier, as the rows give them; a later row replaces an earlier one.
pub open spec fn account_rows(rows: Seq<AccountQuery>) -> Map<Uid, (Seq<char>, Seq<char>, Seq<char>, bool)>
    decreases rows.len(),
{
    if rows.len() == 0 {
        Map::empty()
    } else {
        let r = rows.last();
        account_rows(rows.drop_last()).insert(r.id, (r.name@, r.email@, r.pass_hash@, r.is_worker))
    }
}

/// The email index that the rows give.
pub open spec fn email_rows(rows: Seq<AccountQuery>) -> Map<Seq<char>, Uid>
    decreases rows.len(),
{
    if rows.len() == 0 {
        Map::empty()
    } else {
        email_rows(rows.drop_last()).insert(rows.last().email@, rows.last().id)
    }
}

/// The accounts of a store hold what the rows give, apart from their
/// session tokens.
pub open spec fn accounts_match_rows(s: IdentityView, rows: Seq<AccountQuery>) -> bool {
    &&& s.accounts.dom() == account_rows(rows).dom()
    &&& forall|k: Uid| #[trigger] s.accounts.contains_key(k) ==> {
        let a = s.accounts[k];
        (a.name, a.email, a.pass_hash, a.is_worker) == account_rows(rows)[k]
    }
}

/// Every known account, reachable by session token, identifier and email.
pub struct IdentityStore {
    by_token: HashMap<u128, Uid>,
    by_uid: HashMap<Uid, Account>,
    by_email: Vec<(String, Uid)>,
}

impl View for IdentityStore {
    type V = IdentityView;

    closed spec fn view(&self) -> IdentityView {
        IdentityView {
            tokens: self.by_token@,
            accounts: self.by_uid@.map_values(|a: Account| a@),
            emails: email_map(self.by_email@),
        }
    }
}

impl IdentityStore {
    pub open spec fn wf(&self) -> bool {
        identity_wf(self@)
    }

    /// A store with no account.
    pub fn new() -> (r: IdentityStore)
        ensures
            r.wf(),
            r@.tokens.is_empty(),
            r@.accounts.is_empty(),
            r@.emails.is_empty(),
    {
        let r = IdentityStore { by_token: HashMap::new(), by_uid: HashMap::new(), by_email: Vec::new() };
        proof {
            assert(r@.accounts =~= Map::<Uid, AccountView>::empty());
            assert(r@.emails =~= Map::<Seq<char>, Uid>::empty());
        }
        r
    }

    /// The store of the accounts in the stored rows, each with a fresh
    /// random session token.
    pub fn load(rows: &Vec<AccountQuery>) -> (r: IdentityStore)
        ensures
            r.wf(),
            accounts_match_rows(r@, rows@),
            r@.emails == email_rows(rows@),
    {
        let mut store = IdentityStore::new();
        let mut i: usize = 0;
        proof {
            assert(store@.accounts.dom() =~= account_rows(rows@.subrange(0, 0)).dom());
            assert(store@.emails =~= email_rows(rows@.subrange(0, 0)));
        }
        while i < rows.len()
            invariant
                i <= rows.len(),
                store.wf(),
                accounts_match_rows(store@, rows@.subrange(0, i as int)),
                store@.emails == email_rows(rows@.subrange(0, i as int)),
            decreases rows.len() - i,
        {
            let acc = Account::from_query(&rows[i]);
            let ghost before = store@;
            let ghost av = acc@;
            store.register_index(acc);
            proof {
                let pre = rows@.subrange(0, i + 1);
                assert(pre.drop_last() =~= rows@.subrange(0, i as int));
                assert(pre.last() == rows@[i as int]);
                assert(store@.accounts.dom() =~= account_rows(pre).dom());
            }
            i = i + 1;
        }
        proof {
            assert(rows@.subrange(0, rows@.len() as int) =~= rows@);
        }
        store
    }

    /// Files `acc` under its session token, its identifier and its email,
    /// replacing whatever each of them led to before.
    pub fn register_index(&mut self, acc: Account)
        requires
            old(self).wf(),
        ensures
            final(self).wf(),
            final(self)@ == with_account(old(self)@, acc@),
    {
        let ghost av = acc@;
        let ghost before = self@;
        self.by_token.insert(acc.uuid, acc.uid);
        let email = acc.email.clone();
        let uid = acc.uid;
        self.by_email.push((email, uid));
        self.by_uid.insert(uid, acc);
        proof {
            assert(self.by_email@.drop_last() =~= old(self).by_email@);
            assert(self@.accounts =~= before.accounts.insert(av.uid, av));
            assert(self@.emails =~= before.emails.insert(av.email, av.uid));
            lemma_with_account_wf(before, av);
        }
    }

    /// The identifier filed under `email`, if any.
    fn find_email(&self, email: &str) -> (r: Option<Uid>)
        ensures
            r == (if self@.emails.contains_key(email@) { Some(self@.emails[email@]) } else { None::<Uid> }),
    {
        let mut j: usize = self.by_email.len();
        proof {
            assert(self.by_email@.subrange(0, j as int) =~= self.by_email@);
        }
        while j > 0
            invariant
                j <= self.by_email@.len(),
                email_map(self.by_email@).contains_key(email@) == email_map(self.by_email@.subrange(0, j as int)).contains_key(email@),
                email_map(self.by_email@).contains_key(email@) ==> email_map(self.by_email@)[email@]
                    == email_map(self.by_email@.subrange(0, j as int))[email@],
            decreases j,
        {
            let ghost pre = self.by_email@.subrange(0, j as int);
            proof {
                assert(pre.drop_last() =~= self.by_email@.subrange(0, j - 1));
            }
            let entry = &self.by_email[j - 1];
            if same_text(entry.0.as_str(), email) {
                return Some(entry.1);
            }
            j = j - 1;
        }
        None
    }

    /// The account whose email and password are given, or why there is none.
    pub fn login(&self, email: &str, pass: &str) -> (r: Result<&Account, LoginError>)
        ensures
            match r {
                Ok(a) => login_result(self@, email@, pass@) == Ok::<AccountView, LoginError>(a@),
                Err(e) => login_result(self@, email@, pass@) == Err::<AccountView, LoginError>(e),
            },
    {
        let uid = match self.find_email(email) {
            Some(u) => u,
            None => {
                return Err(LoginError::NotFound);
            },
        };
        let acc = match self.by_uid.get(&uid) {
            Some(a) => a,
            None => {
                return Err(LoginError::NotFound);
            },
        };
        let pass_hash = hash_pass(pass.as_bytes());
        if acc.pass_hash == pass_hash {
            Ok(acc)
        } else {
            Err(LoginError::InvalidCredentials)
        }
    }

    /// The account behind a request's session cookie, if it has one that
    /// stands for an account.
    pub fn authenticate(&self, cookie: Option<&str>) -> (r: Result<&Account, AuthError>)
        ensures
            match r {
                Ok(a) => cookie matches Some(t) && session_account(self@, uuid_of_text(t@)) == Some(a@),
                Err(_) => match cookie {
                    Some(t) => session_account(self@, uuid_of_text(t@)) is None,
                    None => true,
                },
            },
    {
        match cookie {
            Some(t) => match self.resolve(t) {
                Some(a) => Ok(a),
                None => Err(AuthError::AuthRequired),
            },
            None => Err(AuthError::AuthRequired),
        }
    }

    /// The account that the session token written in `token` stands for.
    pub fn resolve(&self, token: &str) -> (r: Option<&Account>)
        ensures
            match r {
                Some(a) => session_account(self@, uuid_of_text(token@)) == Some(a@),
                None => session_account(self@, uuid_of_text(token@)) is None,
            },
    {
        let t = parse_uuid(token)?;
        let uid = self.by_token.get(&t)?;
        self.by_uid.get(uid)
    }
}

} // verus!
