use vstd::prelude::*;

verus! {

/// The default activation time of rent: 2026-01-01 00:00:00 UTC, in milliseconds.
pub const DEFAULT_RENT_START_TIME: u64 = 1_767_225_600_000;

/// The earliest activation time governance may set: 2025-12-10 00:00:00 UTC, in milliseconds.
pub const MIN_START_TIME: u64 = 1_765_324_800_000;

/// The default daily rent: 10 satoshis, that is 100 Gwei.
pub const DEFAULT_DAILY_RENT: u128 = 100_000_000_000;

/// Milliseconds in a day.
pub const MILLISECONDS_PER_DAY: u64 = 86_400_000;

/// A daily rent must be a whole multiple of this amount (10 Gwei).
pub const DAILY_RENT_GRANULARITY: u128 = 10_000_000_000;

/// The rent state of one account.
#[derive(Clone, Copy, PartialEq, Eq, Structural, Debug)]
pub struct RentStatus {
    /// The time (milliseconds) up to which rent has been paid.
    pub last_rent_paid_time: u64,
    /// All rent charged so far, saturating at `u128::MAX`.
    pub accumulated_rent: u128,
}

/// `a * b`, or `u128::MAX` where the product does not fit.
pub open spec fn spec_saturating_mul(a: u128, b: u128) -> u128 {
    if a * b > u128::MAX {
        u128::MAX
    } else {
        (a * b) as u128
    }
}

/// `a + b`, or `u128::MAX` where the sum does not fit.
pub open spec fn spec_saturating_add(a: u128, b: u128) -> u128 {
    if a + b > u128::MAX {
        u128::MAX
    } else {
        (a + b) as u128
    }
}

/// Nothing times any amount is nothing.
pub proof fn lemma_saturating_mul_by_zero(b: u128)
    ensures
        spec_saturating_mul(0, b) == 0,
{
    assert(0 * b == 0) by (nonlinear_arith);
}

/// Saturating multiplication of two amounts.
pub fn saturating_mul(a: u128, b: u128) -> (r: u128)
    ensures
        r == spec_saturating_mul(a, b),
{
    match a.checked_mul(b) {
        Some(p) => p,
        None => u128::MAX,
    }
}

/// The number of whole days that have passed between `paid_through` and `now`,
/// or 0 where `now` is not after `paid_through`.
pub open spec fn whole_days_between(paid_through: u64, now: u64) -> nat {
    if now <= paid_through {
        0
    } else {
        ((now - paid_through) / (MILLISECONDS_PER_DAY as int)) as nat
    }
}

/// The whole days of `elapsed` milliseconds, and what they take up in milliseconds.
pub fn whole_days(elapsed: u64) -> (r: (u64, u64))
    ensures
        r.0 == elapsed / MILLISECONDS_PER_DAY,
        r.1 == r.0 * MILLISECONDS_PER_DAY,
        r.1 <= elapsed,
        elapsed - r.1 < MILLISECONDS_PER_DAY,
{
    let days = elapsed / MILLISECONDS_PER_DAY;
    proof {
        vstd::arithmetic::div_mod::lemma_fundamental_div_mod(
            elapsed as int,
            MILLISECONDS_PER_DAY as int,
        );
        assert(days * MILLISECONDS_PER_DAY == MILLISECONDS_PER_DAY * days) by (nonlinear_arith);
    }
    (days, days * MILLISECONDS_PER_DAY)
}

/// What charging an account that owes whole days comes to.
#[derive(Clone, Copy, PartialEq, Eq, Structural, Debug)]
pub struct Charge {
    /// The whole days paid for.
    pub days: u64,
    /// The rent charged for them (saturating).
    pub amount: u128,
    /// The account's status after the charge.
    pub status: RentStatus,
}

/// The status an account is charged from: its own, or, for an account never
/// charged, paid through the activation time with nothing accumulated.
pub open spec fn status_or_start(status: Option<RentStatus>, active_timestamp: u64) -> RentStatus {
    match status {
        Some(s) => s,
        None => RentStatus { last_rent_paid_time: active_timestamp, accumulated_rent: 0 },
    }
}

/// The whole days of rent owed at `now` from `status`: none before the
/// activation time, else the whole days since rent was last paid.
pub open spec fn days_owed_from(active_timestamp: u64, status: RentStatus, now: u64) -> nat {
    if now < active_timestamp {
        0
    } else {
        whole_days_between(status.last_rent_paid_time, now)
    }
}

/// The charge owed at `now` from `status`, where whole days are owed: the
/// paid-through time advances by exactly those days (the rest of a day stays
/// owed) and their rent is added to what has accumulated.
pub open spec fn charge_from(
    active_timestamp: u64,
    daily_rent: u128,
    status: RentStatus,
    now: u64,
) -> Option<Charge> {
    let days = days_owed_from(active_timestamp, status, now);
    if days == 0 {
        None
    } else {
        let amount = spec_saturating_mul(days as u128, daily_rent);
        Some(
            Charge {
                days: days as u64,
                amount,
                status: RentStatus {
                    last_rent_paid_time: (status.last_rent_paid_time + days
                        * MILLISECONDS_PER_DAY) as u64,
                    accumulated_rent: spec_saturating_add(status.accumulated_rent, amount),
                },
            },
        )
    }
}

/// The rent owed at `now` from `status` (saturating) and the whole days it pays for.
pub open spec fn estimate_from(
    active_timestamp: u64,
    daily_rent: u128,
    status: RentStatus,
    now: u64,
) -> (u128, u64) {
    let days = days_owed_from(active_timestamp, status, now);
    (spec_saturating_mul(days as u128, daily_rent), days as u64)
}

/// The charge that an account with `status` (none if it was never charged)
/// owes at `now`, given the activation time and the daily rent; none where
/// no whole day is owed.
pub fn charge_due(active_timestamp: u64, daily_rent: u128, status: Option<RentStatus>, now: u64) -> (r:
    Option<Charge>)
    ensures
        r == charge_from(
            active_timestamp,
            daily_rent,
            status_or_start(status, active_timestamp),
            now,
        ),
{
    if now < active_timestamp {
        return None;
    }
    let status = match status {
        Some(s) => s,
        None => RentStatus { last_rent_paid_time: active_timestamp, accumulated_rent: 0 },
    };
    if now <= status.last_rent_paid_time {
        return None;
    }
    let (days, paid_for) = whole_days(now - status.last_rent_paid_time);
    if days == 0 {
        return None;
    }
    let amount = saturating_mul(days as u128, daily_rent);
    Some(
        Charge {
            days,
            amount,
            status: RentStatus {
                last_rent_paid_time: status.last_rent_paid_time + paid_for,
                accumulated_rent: status.accumulated_rent.saturating_add(amount),
            },
        },
    )
}

/// The rent that an account with `status` (none if it was never charged)
/// owes at `now` and the whole days it pays for, without charging it.
pub fn estimate_due(active_timestamp: u64, daily_rent: u128, status: Option<RentStatus>, now: u64) -> (r:
    (u128, u64))
    ensures
        r == estimate_from(
            active_timestamp,
            daily_rent,
            status_or_start(status, active_timestamp),
            now,
        ),
{
    proof {
        lemma_saturating_mul_by_zero(daily_rent);
    }
    match charge_due(active_timestamp, daily_rent, status, now) {
        Some(charge) => (charge.amount, charge.days),
        None => (0, 0),
    }
}

} // verus!
