use vstd::prelude::*;

use crate::address::Address;
use crate::pallet::{
    set_active_timestamp_verdict, set_daily_rent_verdict, DispatchError, Error, Event, Origin,
    RentState,
};
use crate::rent::{
    charge_from, lemma_saturating_mul_by_zero, spec_saturating_mul, whole_days_between, RentStatus,
    MILLISECONDS_PER_DAY,
};

verus! {

/// Where whole days are owed, they fit between the paid-through time and
/// `now`, and less than a day is left over.
proof fn lemma_days_owed_bounds(s: RentState, who: Address, now: u64)
    ensures
        s.days_owed(who, now) <= now,
        s.days_owed(who, now) > 0 ==> {
            &&& now >= s.active_timestamp
            &&& now > s.status_or_default(who).last_rent_paid_time
            &&& s.days_owed(who, now) == (now - s.status_or_default(who).last_rent_paid_time) / (
            MILLISECONDS_PER_DAY as int)
            &&& s.status_or_default(who).last_rent_paid_time + s.days_owed(who, now)
                * MILLISECONDS_PER_DAY <= now
            &&& now - (s.status_or_default(who).last_rent_paid_time + s.days_owed(who, now)
                * MILLISECONDS_PER_DAY) < MILLISECONDS_PER_DAY
        },
{
    let paid = s.status_or_default(who).last_rent_paid_time;
    if now >= s.active_timestamp && now > paid {
        let elapsed = now - paid;
        vstd::arithmetic::div_mod::lemma_fundamental_div_mod(elapsed, MILLISECONDS_PER_DAY as int);
        vstd::arithmetic::div_mod::lemma_div_nonincreasing(elapsed, MILLISECONDS_PER_DAY as int);
    }
}

/// Fewer milliseconds than a day make no whole day.
proof fn lemma_less_than_a_day(paid: u64, now: u64)
    requires
        paid <= now,
        now - paid < MILLISECONDS_PER_DAY,
    ensures
        whole_days_between(paid, now) == 0,
{
    if now > paid {
        vstd::arithmetic::div_mod::lemma_fundamental_div_mod_converse_div(
            now - paid,
            MILLISECONDS_PER_DAY as int,
            0,
            now - paid,
        );
    }
}

/// What rent estimation reports is what charging does at the same time:
/// the same days and the same amount, in the event it emits; where no whole
/// day is owed, nothing is charged and nothing changes.
pub proof fn lemma_estimate_matches_charge(s: RentState, who: Address, now: u64)
    ensures
        s.estimate(who, now).1 == s.days_owed(who, now),
        s.charge_event(who, now) == (if s.estimate(who, now).1 == 0 {
            None
        } else {
            Some(Event::RentChargedToBurn(who, s.estimate(who, now).1, s.estimate(who, now).0))
        }),
        s.estimate(who, now).1 == 0 ==> s.estimate(who, now).0 == 0 && s.charged(who, now) == s,
{
    lemma_days_owed_bounds(s, who, now);
    lemma_saturating_mul_by_zero(s.daily_rent);
}

/// Rent is never charged twice for the same time: right after a charge at
/// `now`, nothing more is owed at `now`, and charging again changes nothing.
pub proof fn lemma_charge_is_idempotent(s: RentState, who: Address, now: u64)
    ensures
        s.charged(who, now).days_owed(who, now) == 0,
        s.charged(who, now).estimate(who, now) == (0u128, 0u64),
        s.charged(who, now).charged(who, now) == s.charged(who, now),
        s.charged(who, now).charge_event(who, now) is None,
{
    lemma_days_owed_bounds(s, who, now);
    lemma_saturating_mul_by_zero(s.daily_rent);
    let days = s.days_owed(who, now);
    if days > 0 {
        let s1 = s.charged(who, now);
        let paid1 = s1.status_or_default(who).last_rent_paid_time;
        assert(s1.statuses.contains_key(who));
        assert(paid1 == s.status_or_default(who).last_rent_paid_time + days * MILLISECONDS_PER_DAY);
        lemma_less_than_a_day(paid1, now);
    }
}

/// Charging at `t1` and then at a later `t2` pays for exactly the whole days
/// that one charge at `t2` would pay for, and leaves the account paid through
/// the same time: the part of a day left over at `t1` is not lost.
pub proof fn lemma_split_charges_pay_same_days(s: RentState, who: Address, t1: u64, t2: u64)
    requires
        t1 <= t2,
    ensures
        s.days_owed(who, t1) + s.charged(who, t1).days_owed(who, t2) == s.days_owed(who, t2),
        s.charged(who, t1).charged(who, t2).status_or_default(who).last_rent_paid_time == s.charged(
            who,
            t2,
        ).status_or_default(who).last_rent_paid_time,
{
    lemma_days_owed_bounds(s, who, t1);
    lemma_days_owed_bounds(s, who, t2);
    let d1 = s.days_owed(who, t1);
    if d1 > 0 {
        let p0 = s.status_or_default(who).last_rent_paid_time;
        let s1 = s.charged(who, t1);
        lemma_days_owed_bounds(s1, who, t2);
        assert(s1.statuses.contains_key(who));
        let p1 = s1.status_or_default(who).last_rent_paid_time;
        assert(p1 == p0 + d1 * MILLISECONDS_PER_DAY);
        let e = s1.days_owed(who, t2);
        assert(e == (t2 - p1) / (MILLISECONDS_PER_DAY as int)) by {
            if t2 == p1 {
                vstd::arithmetic::div_mod::lemma_div_of0(MILLISECONDS_PER_DAY as int);
            }
        }
        vstd::arithmetic::div_mod::lemma_hoist_over_denominator(
            t2 - p1,
            d1 as int,
            MILLISECONDS_PER_DAY as nat,
        );
        assert(d1 + e == s.days_owed(who, t2));
    }
}

/// Where nothing saturates, charging at `t1` and then at a later `t2` ends in
/// the same state as one charge at `t2`, and the two amounts add up to the
/// amount of that one charge.
pub proof fn lemma_split_charges_add_up(s: RentState, who: Address, t1: u64, t2: u64)
    requires
        t1 <= t2,
        s.status_or_default(who).accumulated_rent + s.days_owed(who, t2) * s.daily_rent
            <= u128::MAX,
    ensures
        s.charged(who, t1).charged(who, t2) == s.charged(who, t2),
        s.estimate(who, t1).0 + s.charged(who, t1).estimate(who, t2).0 == s.estimate(who, t2).0,
{
    lemma_split_charges_pay_same_days(s, who, t1, t2);
    lemma_days_owed_bounds(s, who, t1);
    lemma_days_owed_bounds(s, who, t2);
    lemma_saturating_mul_by_zero(s.daily_rent);
    let d1 = s.days_owed(who, t1);
    let d = s.days_owed(who, t2);
    let s1 = s.charged(who, t1);
    let e = s1.days_owed(who, t2);
    let r = s.daily_rent;
    let acc0 = s.status_or_default(who).accumulated_rent;
    lemma_days_owed_bounds(s1, who, t2);
    assert(d1 * r + e * r == d * r && d1 * r <= d * r && e * r <= d * r) by (nonlinear_arith)
        requires
            d1 + e == d,
            d1 >= 0,
            e >= 0,
            r >= 0,
    ;
    if d1 > 0 {
        assert(s1.statuses.contains_key(who));
        assert(s1.status_or_default(who).accumulated_rent == acc0 + d1 * r);
        if e > 0 {
            assert(s1.charged(who, t2).statuses =~= s.charged(who, t2).statuses);
        } else {
            assert(s1.statuses =~= s.charged(who, t2).statuses);
        }
    }
}

/// Charging one account changes neither the settings nor any other
/// account: its status, and what it owes at any time, stay as they were.
pub proof fn lemma_charge_leaves_others(
    s: RentState,
    who: Address,
    now: u64,
    other: Address,
    at: u64,
)
    requires
        other != who,
    ensures
        s.charged(who, now).active_timestamp == s.active_timestamp,
        s.charged(who, now).daily_rent == s.daily_rent,
        s.charged(who, now).statuses.contains_key(other) == s.statuses.contains_key(other),
        s.charged(who, now).status_or_default(other) == s.status_or_default(other),
        s.charged(who, now).estimate(other, at) == s.estimate(other, at),
{
}

/// A charge never moves an account's paid-through time back nor lowers what
/// it has accumulated; where whole days are owed, it pays for exactly those
/// days and keeps the account's paid-through time less than a day before `now`.
pub proof fn lemma_charge_is_monotone(s: RentState, who: Address, now: u64)
    ensures
        s.status_or_default(who).last_rent_paid_time <= s.charged(who, now).status_or_default(
            who,
        ).last_rent_paid_time,
        s.status_or_default(who).accumulated_rent <= s.charged(who, now).status_or_default(
            who,
        ).accumulated_rent,
        s.days_owed(who, now) > 0 ==> {
            &&& s.charged(who, now).status_or_default(who).last_rent_paid_time == s.status_or_default(
                who,
            ).last_rent_paid_time + s.days_owed(who, now) * MILLISECONDS_PER_DAY
            &&& s.charged(who, now).status_or_default(who).last_rent_paid_time <= now
            &&& now - s.charged(who, now).status_or_default(who).last_rent_paid_time
                < MILLISECONDS_PER_DAY
        },
{
    lemma_days_owed_bounds(s, who, now);
    if s.days_owed(who, now) > 0 {
        assert(s.charged(who, now).statuses.contains_key(who));
    }
}

/// Before the activation time nothing is owed, charged or changed.
pub proof fn lemma_nothing_before_activation(s: RentState, who: Address, now: u64)
    requires
        now < s.active_timestamp,
    ensures
        s.estimate(who, now) == (0u128, 0u64),
        s.charged(who, now) == s,
        s.charge_event(who, now) is None,
{
    lemma_saturating_mul_by_zero(s.daily_rent);
}

/// With a zero daily rent, days are still counted and paid for, but they cost
/// nothing and add nothing to what an account has accumulated.
pub proof fn lemma_zero_rent_is_free(s: RentState, who: Address, now: u64)
    requires
        s.daily_rent == 0,
    ensures
        s.estimate(who, now).0 == 0,
        s.estimate(who, now).1 == s.days_owed(who, now),
        s.charged(who, now).status_or_default(who).accumulated_rent == s.status_or_default(
            who,
        ).accumulated_rent,
{
    lemma_days_owed_bounds(s, who, now);
    assert(s.days_owed(who, now) * 0 == 0) by (nonlinear_arith);
    if s.days_owed(who, now) > 0 {
        assert(s.charged(who, now).statuses.contains_key(who));
    }
}

/// The amount estimated is the daily rent times the days owed, where that
/// fits in a `u128`, and `u128::MAX` where it does not.
pub proof fn lemma_estimate_is_days_times_rent(s: RentState, who: Address, now: u64)
    ensures
        s.estimate(who, now).1 * s.daily_rent <= u128::MAX ==> s.estimate(who, now).0 == s.estimate(
            who,
            now,
        ).1 * s.daily_rent,
        s.estimate(who, now).1 * s.daily_rent > u128::MAX ==> s.estimate(who, now).0 == u128::MAX,
{
    lemma_days_owed_bounds(s, who, now);
}

/// Charging an account from `status` at `now`: nothing is due before the
/// activation time or before a whole day (86_400_000 ms) has passed since the
/// paid-through time, whatever that time is (even one before the activation
/// time); otherwise every whole day since the paid-through time is paid for,
/// at the daily rent each (saturating at `u128::MAX`), the paid-through time
/// moves forward by exactly those days and the amount is added to what has
/// accumulated (saturating).
pub proof fn lemma_charge_pays_every_whole_day(
    active_timestamp: u64,
    daily_rent: u128,
    status: RentStatus,
    now: u64,
)
    ensures
        (now < active_timestamp || now < status.last_rent_paid_time + 86_400_000) <==> charge_from(
            active_timestamp,
            daily_rent,
            status,
            now,
        ) is None,
        charge_from(active_timestamp, daily_rent, status, now) matches Some(c) ==> {
            let days = (now - status.last_rent_paid_time) / 86_400_000;
            &&& days >= 1
            &&& c.days == days
            &&& c.amount == (if days * daily_rent <= u128::MAX {
                days * daily_rent
            } else {
                u128::MAX as int
            })
            &&& c.status.last_rent_paid_time == status.last_rent_paid_time + days * 86_400_000
            &&& c.status.last_rent_paid_time <= now < c.status.last_rent_paid_time + 86_400_000
            &&& c.status.accumulated_rent == (if status.accumulated_rent + c.amount <= u128::MAX {
                status.accumulated_rent + c.amount
            } else {
                u128::MAX as int
            })
        },
{
    let last = status.last_rent_paid_time;
    if now >= active_timestamp && now > last {
        let elapsed = now - last;
        vstd::arithmetic::div_mod::lemma_fundamental_div_mod(elapsed, 86_400_000);
        vstd::arithmetic::div_mod::lemma_div_nonincreasing(elapsed, 86_400_000);
        if elapsed < 86_400_000 {
            vstd::arithmetic::div_mod::lemma_fundamental_div_mod_converse_div(
                elapsed,
                86_400_000,
                0,
                elapsed,
            );
        } else {
            assert(elapsed / 86_400_000 >= 1) by {
                vstd::arithmetic::div_mod::lemma_div_is_ordered(86_400_000, elapsed, 86_400_000);
                vstd::arithmetic::div_mod::lemma_div_by_self(86_400_000);
            }
        }
    }
}

/// What an estimate reports for an account at `now`: nothing before the
/// activation time in force (whatever it is) or before a whole day has passed
/// since the account's paid-through time; otherwise every whole day since that
/// time, at the daily rent each (saturating at `u128::MAX`).
pub proof fn lemma_estimate_counts_every_whole_day(s: RentState, who: Address, now: u64)
    ensures
        now < s.active_timestamp ==> s.estimate(who, now) == (0u128, 0u64),
        now >= s.active_timestamp ==> {
            let paid = s.status_or_default(who).last_rent_paid_time;
            let days = if now > paid {
                (now - paid) / 86_400_000
            } else {
                0int
            };
            &&& s.estimate(who, now).1 == days
            &&& s.estimate(who, now).0 == (if days * s.daily_rent <= u128::MAX {
                days * s.daily_rent
            } else {
                u128::MAX as int
            })
        },
{
    lemma_days_owed_bounds(s, who, now);
    lemma_saturating_mul_by_zero(s.daily_rent);
    assert(0 * s.daily_rent == 0) by (nonlinear_arith);
}

/// Processing rent for an account at `now`, at or after the activation time in
/// force and at least a whole day after its paid-through time (whatever that
/// time is), charges every whole day since then at the daily rent each
/// (saturating), records the account as paid through exactly those days, and
/// emits the event for that charge.
pub proof fn lemma_process_charges_every_whole_day(s: RentState, who: Address, now: u64)
    requires
        now >= s.active_timestamp,
        now >= s.status_or_default(who).last_rent_paid_time + 86_400_000,
    ensures
        ({
            let before = s.status_or_default(who);
            let days = (now - before.last_rent_paid_time) / 86_400_000;
            let amount = if days * s.daily_rent <= u128::MAX {
                days * s.daily_rent
            } else {
                u128::MAX as int
            };
            &&& days >= 1
            &&& s.estimate(who, now) == (amount as u128, days as u64)
            &&& s.charge_event(who, now) == Some(
                Event::RentChargedToBurn(who, days as u64, amount as u128),
            )
            &&& s.charged(who, now).statuses.contains_key(who)
            &&& s.charged(who, now).statuses[who].last_rent_paid_time == before.last_rent_paid_time
                + days * 86_400_000
            &&& s.charged(who, now).statuses[who].accumulated_rent == (if before.accumulated_rent
                + amount <= u128::MAX {
                before.accumulated_rent + amount
            } else {
                u128::MAX as int
            })
        }),
{
    lemma_charge_pays_every_whole_day(
        s.active_timestamp,
        s.daily_rent,
        s.status_or_default(who),
        now,
    );
    lemma_estimate_counts_every_whole_day(s, who, now);
}

/// Setting the daily rent: any origin other than the council or root is
/// refused as a bad origin; the council and root are answered alike, and
/// succeed exactly for a multiple of 10 Gwei (10_000_000_000), zero included,
/// else are refused as an invalid daily rent.
pub proof fn lemma_daily_rent_admission(origin: Origin, rent: u128)
    ensures
        origin == Origin::Other ==> set_daily_rent_verdict(origin, rent) == Err::<
            (),
            DispatchError,
        >(DispatchError::BadOrigin),
        set_daily_rent_verdict(Origin::Council, rent) == set_daily_rent_verdict(Origin::Root, rent),
        origin != Origin::Other ==> (set_daily_rent_verdict(origin, rent) == Ok::<
            (),
            DispatchError,
        >(()) <==> rent % 10_000_000_000 == 0),
        origin != Origin::Other && rent % 10_000_000_000 != 0 ==> set_daily_rent_verdict(
            origin,
            rent,
        ) == Err::<(), DispatchError>(DispatchError::Module(Error::InvalidDailyRent)),
        origin != Origin::Other ==> set_daily_rent_verdict(origin, 0) == Ok::<(), DispatchError>(()),
{
}

/// Setting the activation time: any origin other than the council or root is
/// refused as a bad origin; the council and root are answered alike, and
/// succeed exactly for a time at or after 2025-12-10 00:00:00 UTC
/// (1_765_324_800_000 ms), else are refused as an invalid timestamp.
pub proof fn lemma_active_timestamp_admission(origin: Origin, timestamp: u64)
    ensures
        origin == Origin::Other ==> set_active_timestamp_verdict(origin, timestamp) == Err::<
            (),
            DispatchError,
        >(DispatchError::BadOrigin),
        set_active_timestamp_verdict(Origin::Council, timestamp) == set_active_timestamp_verdict(
            Origin::Root,
            timestamp,
        ),
        origin != Origin::Other ==> (set_active_timestamp_verdict(origin, timestamp) == Ok::<
            (),
            DispatchError,
        >(()) <==> timestamp >= 1_765_324_800_000),
        origin != Origin::Other && timestamp < 1_765_324_800_000 ==> set_active_timestamp_verdict(
            origin,
            timestamp,
        ) == Err::<(), DispatchError>(DispatchError::Module(Error::InvalidTimestamp)),
{
}

} // verus!
