//! Availability of a catalogue copy: the state machine, its encoding in the
//! backing table, and the dates that come with it.

use chrono::Datelike;
use vstd::prelude::*;

verus! {

/// Numeric account identifier.
pub type Uid = i64;

/// A calendar day, counted as chrono's `num_days_from_ce` counts:
/// 0001-01-01 is day 1.
pub type Day = i32;

/// Day number of 1970-01-01.
pub const UNIX_EPOCH_DAY: i32 = 719163;

/// A bound on chrono's day numbers: its last year is 262142, and no year
/// has more than 366 days.
pub const LAST_DAY: i32 = 95944338;

/// How many days a reservation holds a copy.
pub const RESERVATION_DAYS: i32 = 7;

/// Relies on chrono's `Utc::now`, `DateTime::date_naive` and
/// `Datelike::num_days_from_ce`: today's UTC date as a day number, which
/// `Utc::now` only returns for clocks at or after the Unix epoch, and which
/// lies in chrono's range of dates.
#[verifier::external_body]
pub(crate) fn today() -> (r: Day)
    ensures
        UNIX_EPOCH_DAY <= r <= LAST_DAY,
{
    chrono::Utc::now().date_naive().num_days_from_ce()
}

/// Today's day number, as the clock gives it.
pub fn current_day() -> (r: Day)
    ensures
        UNIX_EPOCH_DAY <= r <= LAST_DAY,
{
    today()
}

/// State of a copy: free, or held by an account until a day.
#[derive(Clone, Copy, Debug, PartialEq, Eq, Structural)]
pub enum BorrowStatus {
    Avaliable,
    Reserved(Uid, Day),
    Borrowed(Uid, Day),
}

/// Why a reservation was not made.
#[derive(Clone, Debug)]
pub enum ReserveBookError {
    /// The copy is already reserved until the given day.
    Reserved(Day),
    /// The copy is out on loan until the given day.
    Borrowed(Day),
    /// The backing store refused the change.
    DBError(String),
}

/// The state a reservation by `uid` on `today` leads to.
pub open spec fn reserved_state(s: BorrowStatus, uid: Uid, today: Day) -> BorrowStatus {
    match s {
        BorrowStatus::Avaliable => BorrowStatus::Reserved(uid, (today + RESERVATION_DAYS) as Day),
        _ => s,
    }
}

/// A refusal names the state that caused it, with its due day.
pub open spec fn refusal_matches(e: ReserveBookError, s: BorrowStatus) -> bool {
    match s {
        BorrowStatus::Avaliable => false,
        BorrowStatus::Reserved(_, until) => e matches ReserveBookError::Reserved(d) && d == until,
        BorrowStatus::Borrowed(_, until) => e matches ReserveBookError::Borrowed(d) && d == until,
    }
}

/// A day from which a reservation's due day is still a day number.
pub open spec fn day_in_range(d: Day) -> bool {
    d <= i32::MAX - RESERVATION_DAYS
}

/// The state stored as the nullable triple (borrow flag, holder, day).
pub open spec fn status_of_raw(is_borrow: Option<bool>, uid: Option<Uid>, date: Option<Day>) -> BorrowStatus {
    match is_borrow {
        Some(true) => BorrowStatus::Borrowed(uid->0, date->0),
        Some(false) => BorrowStatus::Reserved(uid->0, date->0),
        None => BorrowStatus::Avaliable,
    }
}

/// A stored triple that the table's constraint admits: the flag, holder and
/// day are all present or all absent.
pub open spec fn raw_consistent(is_borrow: Option<bool>, uid: Option<Uid>, date: Option<Day>) -> bool {
    (is_borrow is Some) == (uid is Some) && (uid is Some) == (date is Some)
}

impl BorrowStatus {
    /// Holder of the copy, if any.
    pub open spec fn holder(self) -> Option<Uid> {
        match self {
            BorrowStatus::Avaliable => None,
            BorrowStatus::Reserved(u, _) => Some(u),
            BorrowStatus::Borrowed(u, _) => Some(u),
        }
    }

    /// Due day of the copy, if any.
    pub open spec fn due(self) -> Option<Day> {
        match self {
            BorrowStatus::Avaliable => None,
            BorrowStatus::Reserved(_, d) => Some(d),
            BorrowStatus::Borrowed(_, d) => Some(d),
        }
    }

    /// Lower-case name of the state.
    pub open spec fn name(self) -> Seq<char> {
        match self {
            BorrowStatus::Avaliable => "avaliable"@,
            BorrowStatus::Reserved(_, _) => "reserved"@,
            BorrowStatus::Borrowed(_, _) => "borrowed"@,
        }
    }

    pub fn to_string(&self) -> (r: String)
        ensures
            r@ == self.name(),
    {
        let s = match self {
            BorrowStatus::Avaliable => "avaliable",
            BorrowStatus::Reserved(_, _) => "reserved",
            BorrowStatus::Borrowed(_, _) => "borrowed",
        };
        s.to_string()
    }

    /// Whether `viewer` holds the copy, and the due day when someone does.
    pub fn is_with_viewer(self, viewer: Uid) -> (r: (bool, Option<Day>))
        ensures
            r.0 == (self.holder() == Some(viewer)),
            r.1 == self.due(),
    {
        match self {
            BorrowStatus::Avaliable => (false, None),
            BorrowStatus::Reserved(owner, until) => (viewer == owner, Some(until)),
            BorrowStatus::Borrowed(owner, until) => (viewer == owner, Some(until)),
        }
    }

    pub fn is_avaliable(self) -> (r: bool)
        ensures
            r == (self is Avaliable),
    {
        matches!(self, BorrowStatus::Avaliable)
    }

    pub fn is_reserved(self) -> (r: bool)
        ensures
            r == (self is Reserved),
    {
        matches!(self, BorrowStatus::Reserved(_, _))
    }

    pub fn is_borrowed(self) -> (r: bool)
        ensures
            r == (self is Borrowed),
    {
        matches!(self, BorrowStatus::Borrowed(_, _))
    }

    /// The state stored in the backing table as a nullable triple.
    pub fn from(is_borrow: Option<bool>, uid: Option<Uid>, date: Option<Day>) -> (r: Self)
        requires
            is_borrow is Some ==> uid is Some && date is Some,
        ensures
            r == status_of_raw(is_borrow, uid, date),
    {
        match is_borrow {
            Some(is_borrow) => {
                let (Some(uid), Some(date)) = (uid, date) else {
                    return BorrowStatus::Avaliable;
                };
                if is_borrow {
                    BorrowStatus::Borrowed(uid, date)
                } else {
                    BorrowStatus::Reserved(uid, date)
                }
            },
            None => BorrowStatus::Avaliable,
        }
    }

    /// The nullable triple (borrow flag, holder, day) that stores this state.
    pub fn to_raw(self) -> (r: (Option<bool>, Option<Uid>, Option<Day>))
        ensures
            raw_consistent(r.0, r.1, r.2),
            r.1 == self.holder(),
            r.2 == self.due(),
            status_of_raw(r.0, r.1, r.2) == self,
    {
        match self {
            BorrowStatus::Avaliable => (None, None, None),
            BorrowStatus::Reserved(u, d) => (Some(false), Some(u), Some(d)),
            BorrowStatus::Borrowed(u, d) => (Some(true), Some(u), Some(d)),
        }
    }

    /// Reserves the copy for `uid` on `today` if it is free; otherwise leaves
    /// it as it is and says why.
    pub fn reserve_for(&mut self, uid: Uid, today: Day) -> (r: Option<ReserveBookError>)
        requires
            day_in_range(today),
        ensures
            *final(self) == reserved_state(*old(self), uid, today),
            match r {
                None => *old(self) is Avaliable,
                Some(e) => refusal_matches(e, *old(self)),
            },
    {
        match *self {
            BorrowStatus::Reserved(_, until) => Some(ReserveBookError::Reserved(until)),
            BorrowStatus::Borrowed(_, until) => Some(ReserveBookError::Borrowed(until)),
            BorrowStatus::Avaliable => {
                *self = BorrowStatus::Reserved(uid, today + RESERVATION_DAYS);
                None
            },
        }
    }
}

/// A copy is free exactly when it has neither a holder nor a due day, and
/// it never has one without the other; the same holds of a stored triple
/// that the table's constraint admits.
pub proof fn lemma_free_iff_unheld(s: BorrowStatus, is_borrow: Option<bool>, uid: Option<Uid>, date: Option<Day>)
    ensures
        (s is Avaliable) <==> (s.holder() is None && s.due() is None),
        (s.holder() is None) <==> (s.due() is None),
        raw_consistent(is_borrow, uid, date) ==> {
            let t = status_of_raw(is_borrow, uid, date);
            &&& (t is Avaliable) <==> (uid is None && date is None)
            &&& t.holder() == uid
            &&& t.due() == date
        },
{
}

/// How a due day stands against today.
#[derive(Clone, Copy, Debug, PartialEq, Eq, Structural)]
pub enum DueState {
    /// Due on the day itself.
    DueToday,
    /// Due after the given number of days.
    DaysLeft(i64),
    /// Past due by the given number of days.
    Overdue(i64),
}

/// The three-way reading of a count of remaining days.
pub open spec fn due_state_of(days: int) -> DueState {
    if days == 0 {
        DueState::DueToday
    } else if days > 0 {
        DueState::DaysLeft(days as i64)
    } else {
        DueState::Overdue((-days) as i64)
    }
}

/// Whole days from `today` to `due`; negative once `due` has passed.
pub fn days_between(today: Day, due: Day) -> (r: i64)
    ensures
        r == due - today,
{
    due as i64 - today as i64
}

/// Whole days from today to `due`: `due` less some day at or after the Unix
/// epoch, whichever day the clock gives.
pub fn days_until(due: Day) -> (r: i64)
    ensures
        due - LAST_DAY <= r <= due - UNIX_EPOCH_DAY,
{
    let t = today();
    days_between(t, due)
}

/// Reads a count of remaining days as due today, days left, or overdue.
pub fn due_state(days: i64) -> (r: DueState)
    requires
        days > i64::MIN,
    ensures
        r == due_state_of(days as int),
{
    if days == 0 {
        DueState::DueToday
    } else if days > 0 {
        DueState::DaysLeft(days)
    } else {
        DueState::Overdue(-days)
    }
}

/// What a viewer is offered for a copy.
#[derive(Clone, Copy, Debug, PartialEq, Eq, Structural)]
pub enum Standing {
    /// The copy is free: the viewer may reserve it.
    CanReserve,
    /// The viewer holds the copy; it is due as given.
    Holder(DueState),
    /// Someone else holds the copy.
    Other,
}

/// What `viewer` is offered for a copy in state `s`, seen on `today`.
pub open spec fn standing_of(s: BorrowStatus, viewer: Uid, today: Day) -> Standing {
    match s {
        BorrowStatus::Avaliable => Standing::CanReserve,
        _ => if s.holder() == Some(viewer) {
            Standing::Holder(due_state_of(s.due()->0 - today))
        } else {
            Standing::Other
        },
    }
}

/// Decides what `viewer` is offered for a copy in state `s` on `today`.
pub fn standing(s: BorrowStatus, viewer: Uid, today: Day) -> (r: Standing)
    ensures
        r == standing_of(s, viewer, today),
{
    let (with_viewer, until) = s.is_with_viewer(viewer);
    if s.is_avaliable() {
        Standing::CanReserve
    } else if with_viewer {
        match until {
            Some(d) => Standing::Holder(due_state(days_between(today, d))),
            None => Standing::Other,
        }
    } else {
        Standing::Other
    }
}

} // verus!
