use vstd::prelude::*;

use crate::address::Address;
use crate::calculator::EvmRentCalculator;
use crate::rent::{
    charge_due, charge_from, days_owed_from, estimate_due, estimate_from,
    lemma_saturating_mul_by_zero, RentStatus,
    DAILY_RENT_GRANULARITY, DEFAULT_DAILY_RENT, DEFAULT_RENT_START_TIME, MIN_START_TIME,
};

verus! {

/// Where a governance call comes from, as the runtime's origin checks classify it.
#[derive(Clone, Copy, PartialEq, Eq, Structural, Debug)]
pub enum Origin {
    /// An origin that the configured council origin admits.
    Council,
    /// The root origin.
    Root,
    /// Any other origin.
    Other,
}

/// Errors of the rent pallet's own checks.
#[derive(Clone, Copy, PartialEq, Eq, Structural, Debug)]
pub enum Error {
    /// The activation timestamp is before `MIN_START_TIME`.
    InvalidTimestamp,
    /// The daily rent is not a multiple of `DAILY_RENT_GRANULARITY`.
    InvalidDailyRent,
}

/// Why a governance call was refused.
#[derive(Clone, Copy, PartialEq, Eq, Structural, Debug)]
pub enum DispatchError {
    /// The call did not come from the council or from root.
    BadOrigin,
    /// The call was refused by one of the pallet's own checks.
    Module(Error),
}

/// Events of the rent pallet.
#[derive(Clone, Copy, PartialEq, Eq, Structural, Debug)]
pub enum Event {
    /// Rent charged to be burned: account, days paid, amount.
    RentChargedToBurn(Address, u64, u128),
}

/// The activation time that holds until governance sets another.
pub struct DefaultActiveTimestamp;

impl DefaultActiveTimestamp {
    pub fn get() -> (r: u64)
        ensures
            r == DEFAULT_RENT_START_TIME,
    {
        DEFAULT_RENT_START_TIME
    }
}

/// The daily rent that holds until governance sets another.
pub struct DefaultDailyRent;

impl DefaultDailyRent {
    pub fn get() -> (r: u128)
        ensures
            r == DEFAULT_DAILY_RENT,
    {
        DEFAULT_DAILY_RENT
    }
}

/// The abstract state of the rent pallet: its two settings and the status of
/// every account that has been charged.
pub struct RentState {
    pub active_timestamp: u64,
    pub daily_rent: u128,
    pub statuses: Map<Address, RentStatus>,
}

impl RentState {
    /// The state before any governance call or charge.
    pub open spec fn initial() -> RentState {
        RentState {
            active_timestamp: DEFAULT_RENT_START_TIME,
            daily_rent: DEFAULT_DAILY_RENT,
            statuses: Map::empty(),
        }
    }

    /// The status of `who`; an account never charged counts as paid through
    /// the activation time, with nothing accumulated.
    pub open spec fn status_or_default(self, who: Address) -> RentStatus {
        if self.statuses.contains_key(who) {
            self.statuses[who]
        } else {
            RentStatus { last_rent_paid_time: self.active_timestamp, accumulated_rent: 0 }
        }
    }

    /// The whole days of rent that `who` owes at `now`.
    pub open spec fn days_owed(self, who: Address, now: u64) -> nat {
        days_owed_from(self.active_timestamp, self.status_or_default(who), now)
    }

    /// The rent owed by `who` at `now` (saturating) and the days it pays for.
    pub open spec fn estimate(self, who: Address, now: u64) -> (u128, u64) {
        estimate_from(self.active_timestamp, self.daily_rent, self.status_or_default(who), now)
    }

    /// The state after `who` has been charged at `now`: its status becomes
    /// the one the charge leaves, where whole days are owed; else nothing changes.
    pub open spec fn charged(self, who: Address, now: u64) -> RentState {
        match charge_from(self.active_timestamp, self.daily_rent, self.status_or_default(who), now) {
            Some(charge) => RentState {
                active_timestamp: self.active_timestamp,
                daily_rent: self.daily_rent,
                statuses: self.statuses.insert(who, charge.status),
            },
            None => self,
        }
    }

    /// The event that charging `who` at `now` emits: one only where whole days are owed.
    pub open spec fn charge_event(self, who: Address, now: u64) -> Option<Event> {
        match charge_from(self.active_timestamp, self.daily_rent, self.status_or_default(who), now) {
            Some(charge) => Some(Event::RentChargedToBurn(who, charge.days, charge.amount)),
            None => None,
        }
    }

    /// The state with another activation time.
    pub open spec fn with_active_timestamp(self, timestamp: u64) -> RentState {
        RentState {
            active_timestamp: timestamp,
            daily_rent: self.daily_rent,
            statuses: self.statuses,
        }
    }

    /// The state with another daily rent.
    pub open spec fn with_daily_rent(self, rent: u128) -> RentState {
        RentState {
            active_timestamp: self.active_timestamp,
            daily_rent: rent,
            statuses: self.statuses,
        }
    }
}

/// What a governance call from `origin` is answered, before the pallet's own checks.
pub open spec fn origin_verdict(origin: Origin) -> Result<(), DispatchError> {
    if origin == Origin::Other {
        Err(DispatchError::BadOrigin)
    } else {
        Ok(())
    }
}

/// What `set_active_timestamp` answers.
pub open spec fn set_active_timestamp_verdict(origin: Origin, timestamp: u64) -> Result<
    (),
    DispatchError,
> {
    if origin == Origin::Other {
        Err(DispatchError::BadOrigin)
    } else if timestamp < MIN_START_TIME {
        Err(DispatchError::Module(Error::InvalidTimestamp))
    } else {
        Ok(())
    }
}

/// What `set_daily_rent` answers.
pub open spec fn set_daily_rent_verdict(origin: Origin, rent: u128) -> Result<(), DispatchError> {
    if origin == Origin::Other {
        Err(DispatchError::BadOrigin)
    } else if rent % DAILY_RENT_GRANULARITY != 0 {
        Err(DispatchError::Module(Error::InvalidDailyRent))
    } else {
        Ok(())
    }
}

/// Admits a governance call from the council or from root.
pub fn ensure_admin(origin: Origin) -> (r: Result<(), DispatchError>)
    ensures
        r == origin_verdict(origin),
{
    match origin {
        Origin::Other => Err(DispatchError::BadOrigin),
        _ => Ok(()),
    }
}

/// Admits setting the activation time to `timestamp` on a call from `origin`.
pub fn admit_active_timestamp(origin: Origin, timestamp: u64) -> (r: Result<(), DispatchError>)
    ensures
        r == set_active_timestamp_verdict(origin, timestamp),
{
    ensure_admin(origin)?;
    if timestamp < MIN_START_TIME {
        return Err(DispatchError::Module(Error::InvalidTimestamp));
    }
    Ok(())
}

/// Admits setting the daily rent to `rent` on a call from `origin`.
pub fn admit_daily_rent(origin: Origin, rent: u128) -> (r: Result<(), DispatchError>)
    ensures
        r == set_daily_rent_verdict(origin, rent),
{
    ensure_admin(origin)?;
    if rent % DAILY_RENT_GRANULARITY != 0 {
        return Err(DispatchError::Module(Error::InvalidDailyRent));
    }
    Ok(())
}

/// No two entries of `s` are for the same account.
spec fn keys_distinct(s: Seq<(Address, RentStatus)>) -> bool {
    forall|i: int, j: int|
        0 <= i < s.len() && 0 <= j < s.len() && i != j ==> #[trigger] s[i].0 != #[trigger] s[j].0
}

/// Some entry of `s` is for `who`.
spec fn has_entry(s: Seq<(Address, RentStatus)>, who: Address) -> bool {
    exists|i: int| 0 <= i < s.len() && #[trigger] s[i].0 == who
}

/// The statuses that the entries of `s` hold, by account.
spec fn entries_map(s: Seq<(Address, RentStatus)>) -> Map<Address, RentStatus> {
    Map::new(
        |who: Address| has_entry(s, who),
        |who: Address| s[choose|i: int| 0 <= i < s.len() && #[trigger] s[i].0 == who].1,
    )
}

proof fn lemma_entry_lookup(s: Seq<(Address, RentStatus)>, i: int)
    requires
        keys_distinct(s),
        0 <= i < s.len(),
    ensures
        entries_map(s).contains_key(s[i].0),
        entries_map(s)[s[i].0] == s[i].1,
{
    let who = s[i].0;
    assert(has_entry(s, who));
    let j = choose|j: int| 0 <= j < s.len() && #[trigger] s[j].0 == who;
    assert(s[j].0 == who);
    assert(j == i);
}

proof fn lemma_entry_update(s: Seq<(Address, RentStatus)>, i: int, status: RentStatus)
    requires
        keys_distinct(s),
        0 <= i < s.len(),
    ensures
        keys_distinct(s.update(i, (s[i].0, status))),
        entries_map(s.update(i, (s[i].0, status))) == entries_map(s).insert(s[i].0, status),
{
    let who = s[i].0;
    let t = s.update(i, (who, status));
    assert forall|a: int, b: int|
        0 <= a < t.len() && 0 <= b < t.len() && a != b implies #[trigger] t[a].0 != #[trigger] t[b].0 by {
        assert(t[a].0 == s[a].0);
        assert(t[b].0 == s[b].0);
    }
    let m = entries_map(t);
    let n = entries_map(s).insert(who, status);
    assert forall|x: Address| m.contains_key(x) <==> n.contains_key(x) by {
        if m.contains_key(x) {
            let k = choose|k: int| 0 <= k < t.len() && #[trigger] t[k].0 == x;
            assert(s[k].0 == x);
        }
        if entries_map(s).contains_key(x) {
            let k = choose|k: int| 0 <= k < s.len() && #[trigger] s[k].0 == x;
            assert(t[k].0 == x);
        }
        if x == who {
            assert(t[i].0 == x);
        }
    }
    assert forall|x: Address| #[trigger] m.contains_key(x) implies m[x] == n[x] by {
        lemma_entry_lookup(t, choose|k: int| 0 <= k < t.len() && #[trigger] t[k].0 == x);
        let k = choose|k: int| 0 <= k < t.len() && #[trigger] t[k].0 == x;
        if k != i {
            lemma_entry_lookup(s, k);
        }
    }
    assert(m =~= n);
}

proof fn lemma_entry_push(s: Seq<(Address, RentStatus)>, who: Address, status: RentStatus)
    requires
        keys_distinct(s),
        !has_entry(s, who),
    ensures
        keys_distinct(s.push((who, status))),
        entries_map(s.push((who, status))) == entries_map(s).insert(who, status),
{
    let t = s.push((who, status));
    let last = s.len() as int;
    assert forall|a: int, b: int|
        0 <= a < t.len() && 0 <= b < t.len() && a != b implies #[trigger] t[a].0 != #[trigger] t[b].0 by {
        if a < last && b < last {
            assert(t[a] == s[a]);
            assert(t[b] == s[b]);
        } else if a < last {
            assert(t[a] == s[a]);
            assert(s[a].0 != who);
        } else {
            assert(t[b] == s[b]);
            assert(s[b].0 != who);
        }
    }
    let m = entries_map(t);
    let n = entries_map(s).insert(who, status);
    assert forall|x: Address| m.contains_key(x) <==> n.contains_key(x) by {
        if m.contains_key(x) && x != who {
            let k = choose|k: int| 0 <= k < t.len() && #[trigger] t[k].0 == x;
            assert(k != last);
            assert(s[k].0 == x);
        }
        if entries_map(s).contains_key(x) {
            let k = choose|k: int| 0 <= k < s.len() && #[trigger] s[k].0 == x;
            assert(t[k].0 == x);
        }
        if x == who {
            assert(t[last].0 == x);
        }
    }
    assert forall|x: Address| #[trigger] m.contains_key(x) implies m[x] == n[x] by {
        let k = choose|k: int| 0 <= k < t.len() && #[trigger] t[k].0 == x;
        lemma_entry_lookup(t, k);
        if k != last {
            assert(t[k] == s[k]);
            lemma_entry_lookup(s, k);
        }
    }
    assert(m =~= n);
}

/// The rent pallet: its settings and the rent status of each charged account.
pub struct Pallet {
    active_timestamp: u64,
    daily_rent: u128,
    accounts: Vec<(Address, RentStatus)>,
}

impl View for Pallet {
    type V = RentState;

    closed spec fn view(&self) -> RentState {
        RentState {
            active_timestamp: self.active_timestamp,
            daily_rent: self.daily_rent,
            statuses: entries_map(self.accounts@),
        }
    }
}

impl Pallet {
    #[verifier::type_invariant]
    closed spec fn one_entry_per_account(self) -> bool {
        keys_distinct(self.accounts@)
    }

    /// A pallet with the default settings and no account charged yet.
    pub fn new() -> (p: Pallet)
        ensures
            p@ == RentState::initial(),
    {
        let p = Pallet {
            active_timestamp: DefaultActiveTimestamp::get(),
            daily_rent: DefaultDailyRent::get(),
            accounts: Vec::new(),
        };
        assert(entries_map(p.accounts@) =~= Map::empty());
        p
    }

    /// The time (milliseconds) from which rent is charged.
    pub fn active_timestamp(&self) -> (r: u64)
        ensures
            r == self@.active_timestamp,
    {
        self.active_timestamp
    }

    /// The rent charged per whole day.
    pub fn daily_rent(&self) -> (r: u128)
        ensures
            r == self@.daily_rent,
    {
        self.daily_rent
    }

    fn find(&self, who: Address) -> (r: Option<usize>)
        ensures
            match r {
                Some(i) => i < self.accounts@.len() && self.accounts@[i as int].0 == who,
                None => !has_entry(self.accounts@, who),
            },
    {
        let mut i: usize = 0;
        while i < self.accounts.len()
            invariant
                i <= self.accounts@.len(),
                forall|k: int| 0 <= k < i ==> #[trigger] self.accounts@[k].0 != who,
            decreases self.accounts@.len() - i,
        {
            if self.accounts[i].0 == who {
                return Some(i);
            }
            i += 1;
        }
        None
    }

    /// The rent status of `who`, if it has ever been charged.
    pub fn account_rent_status(&self, who: Address) -> (r: Option<RentStatus>)
        ensures
            r == (if self@.statuses.contains_key(who) {
                Some(self@.statuses[who])
            } else {
                None
            }),
    {
        proof {
            use_type_invariant(self);
        }
        self.stored_status(who).0
    }

    /// Sets the time from which rent is charged. Only the council or root may
    /// do so, and not to a time before `MIN_START_TIME`.
    pub fn set_active_timestamp(&mut self, origin: Origin, timestamp: u64) -> (r: Result<
        (),
        DispatchError,
    >)
        ensures
            r == set_active_timestamp_verdict(origin, timestamp),
            r is Ok ==> final(self)@ == old(self)@.with_active_timestamp(timestamp),
            r is Err ==> final(self)@ == old(self)@,
    {
        proof {
            use_type_invariant(&*self);
        }
        admit_active_timestamp(origin, timestamp)?;
        self.active_timestamp = timestamp;
        Ok(())
    }

    /// Sets the rent charged per whole day. Only the council or root may do
    /// so, and only to a multiple of `DAILY_RENT_GRANULARITY` (zero included).
    pub fn set_daily_rent(&mut self, origin: Origin, rent: u128) -> (r: Result<(), DispatchError>)
        ensures
            r == set_daily_rent_verdict(origin, rent),
            r is Ok ==> final(self)@ == old(self)@.with_daily_rent(rent),
            r is Err ==> final(self)@ == old(self)@,
    {
        proof {
            use_type_invariant(&*self);
        }
        admit_daily_rent(origin, rent)?;
        self.daily_rent = rent;
        Ok(())
    }

    /// The status stored for `who`, if any, and where its entry stands.
    fn stored_status(&self, who: Address) -> (r: (Option<RentStatus>, Option<usize>))
        requires
            keys_distinct(self.accounts@),
        ensures
            r.0 == (if self@.statuses.contains_key(who) {
                Some(self@.statuses[who])
            } else {
                None
            }),
            match r.1 {
                Some(i) => i < self.accounts@.len() && self.accounts@[i as int].0 == who,
                None => !has_entry(self.accounts@, who),
            },
    {
        let found = self.find(who);
        match found {
            Some(i) => {
                proof {
                    lemma_entry_lookup(self.accounts@, i as int);
                }
                (Some(self.accounts[i].1), found)
            },
            None => (None, found),
        }
    }

    /// Charges `who` the rent it owes at `now` and records it; returns the
    /// event to emit, where whole days were owed.
    pub fn charge_rent(&mut self, who: Address, now: u64) -> (ev: Option<Event>)
        ensures
            final(self)@ == old(self)@.charged(who, now),
            ev == old(self)@.charge_event(who, now),
    {
        proof {
            use_type_invariant(&*self);
        }
        let (status, found) = self.stored_status(who);
        let charge = match charge_due(self.active_timestamp, self.daily_rent, status, now) {
            Some(charge) => charge,
            None => return None,
        };
        let new_status = charge.status;
        let mut accounts: Vec<(Address, RentStatus)> = Vec::new();
        std::mem::swap(&mut accounts, &mut self.accounts);
        let ghost before = accounts@;
        match found {
            Some(i) => {
                proof {
                    lemma_entry_update(before, i as int, new_status);
                }
                accounts.set(i, (who, new_status));
            },
            None => {
                proof {
                    lemma_entry_push(before, who, new_status);
                }
                accounts.push((who, new_status));
            },
        }
        self.accounts = accounts;
        Some(Event::RentChargedToBurn(who, charge.days, charge.amount))
    }
}

impl EvmRentCalculator for Pallet {
    /// Charges `who` the rent it owes at `now` (see `Pallet::charge_rent`)
    /// and returns the amount charged.
    fn process_rent(&mut self, who: Address, now: u64) -> (r: u128)
        ensures
            r == old(self)@.estimate(who, now).0,
            final(self)@ == old(self)@.charged(who, now),
    {
        proof {
            lemma_saturating_mul_by_zero(old(self)@.daily_rent);
        }
        match self.charge_rent(who, now) {
            Some(Event::RentChargedToBurn(_, _, amount)) => amount,
            None => 0,
        }
    }

    fn estimate_rent(&self, who: Address, now: u64) -> (r: (u128, u64))
        ensures
            r == self@.estimate(who, now),
    {
        proof {
            use_type_invariant(self);
        }
        let (status, _) = self.stored_status(who);
        estimate_due(self.active_timestamp, self.daily_rent, status, now)
    }
}

} // verus!
