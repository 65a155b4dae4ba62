use pallet_evm_rent::address::Address;
use pallet_evm_rent::calculator::EvmRentCalculator;
use pallet_evm_rent::pallet::{
    admit_active_timestamp, admit_daily_rent, ensure_admin, DefaultActiveTimestamp,
    DefaultDailyRent, DispatchError, Error, Event, Origin, Pallet,
};
use pallet_evm_rent::rent::{
    charge_due, estimate_due, saturating_mul, whole_days, Charge, RentStatus,
    DAILY_RENT_GRANULARITY, DEFAULT_DAILY_RENT, DEFAULT_RENT_START_TIME, MILLISECONDS_PER_DAY,
    MIN_START_TIME,
};

const DAY: u64 = MILLISECONDS_PER_DAY;
const START: u64 = DEFAULT_RENT_START_TIME;

#[test]
fn defaults_are_the_documented_values() {
    assert_eq!(DefaultActiveTimestamp::get(), 1_767_225_600_000);
    assert_eq!(DefaultDailyRent::get(), 100_000_000_000);
    let rent = Pallet::new();
    assert_eq!(rent.active_timestamp(), DEFAULT_RENT_START_TIME);
    assert_eq!(rent.daily_rent(), DEFAULT_DAILY_RENT);
}

#[test]
fn address_words() {
    let a = Address::from_low_u64_be(7);
    assert_eq!(a, Address::new(0, 0, 7));
    assert_ne!(a, Address::new(1, 0, 7));
    assert_ne!(Address::new(0, 1, 7), a);
}

#[test]
fn bad_origin_is_refused_and_changes_nothing() {
    let mut rent = Pallet::new();
    assert_eq!(
        rent.set_active_timestamp(Origin::Other, START + DAY),
        Err(DispatchError::BadOrigin)
    );
    assert_eq!(rent.set_daily_rent(Origin::Other, 0), Err(DispatchError::BadOrigin));
    assert_eq!(rent.active_timestamp(), START);
    assert_eq!(rent.daily_rent(), DEFAULT_DAILY_RENT);
}

#[test]
fn council_origin_is_admitted() {
    let mut rent = Pallet::new();
    assert_eq!(rent.set_active_timestamp(Origin::Council, MIN_START_TIME), Ok(()));
    assert_eq!(rent.active_timestamp(), MIN_START_TIME);
    assert_eq!(rent.set_daily_rent(Origin::Council, 3 * DAILY_RENT_GRANULARITY), Ok(()));
    assert_eq!(rent.daily_rent(), 30_000_000_000);
    assert_eq!(ensure_admin(Origin::Council), Ok(()));
    assert_eq!(ensure_admin(Origin::Root), Ok(()));
    assert_eq!(ensure_admin(Origin::Other), Err(DispatchError::BadOrigin));
}

#[test]
fn timestamp_before_minimum_is_refused() {
    let mut rent = Pallet::new();
    assert_eq!(
        rent.set_active_timestamp(Origin::Root, MIN_START_TIME - 1),
        Err(DispatchError::Module(Error::InvalidTimestamp))
    );
    assert_eq!(rent.active_timestamp(), START);
    assert_eq!(admit_active_timestamp(Origin::Root, MIN_START_TIME), Ok(()));
    assert_eq!(
        admit_active_timestamp(Origin::Other, MIN_START_TIME - 1),
        Err(DispatchError::BadOrigin)
    );
}

#[test]
fn daily_rent_off_granularity_is_refused() {
    assert_eq!(
        admit_daily_rent(Origin::Root, DAILY_RENT_GRANULARITY + 1),
        Err(DispatchError::Module(Error::InvalidDailyRent))
    );
    assert_eq!(admit_daily_rent(Origin::Root, 7 * DAILY_RENT_GRANULARITY), Ok(()));
}

#[test]
fn charge_reports_its_event() {
    let mut rent = Pallet::new();
    let who = Address::from_low_u64_be(9);
    assert_eq!(rent.charge_rent(who, START + 4 * DAY + 1), Some(Event::RentChargedToBurn(who, 4, 400_000_000_000)));
    assert_eq!(rent.charge_rent(who, START + 4 * DAY + 2), None);
}

#[test]
fn remainder_of_a_day_is_kept() {
    let mut rent = Pallet::new();
    let who = Address::from_low_u64_be(3);
    // 1.5 days, then another 0.5 day: two whole days in all.
    assert_eq!(rent.process_rent(who, START + DAY + DAY / 2), DEFAULT_DAILY_RENT);
    assert_eq!(rent.account_rent_status(who).unwrap().last_rent_paid_time, START + DAY);
    assert_eq!(rent.estimate_rent(who, START + 2 * DAY), (DEFAULT_DAILY_RENT, 1));
    assert_eq!(rent.process_rent(who, START + 2 * DAY), DEFAULT_DAILY_RENT);
    assert_eq!(
        rent.account_rent_status(who),
        Some(RentStatus { last_rent_paid_time: START + 2 * DAY, accumulated_rent: 2 * DEFAULT_DAILY_RENT })
    );
}

#[test]
fn nothing_is_charged_before_activation() {
    let mut rent = Pallet::new();
    let who = Address::from_low_u64_be(4);
    assert_eq!(rent.process_rent(who, START - 1), 0);
    assert_eq!(rent.account_rent_status(who), None);
    assert_eq!(rent.process_rent(who, START), 0);
    assert_eq!(rent.account_rent_status(who), None);
}

#[test]
fn charging_one_account_leaves_another() {
    let mut rent = Pallet::new();
    let a = Address::from_low_u64_be(1);
    let b = Address::from_low_u64_be(2);
    assert_eq!(rent.process_rent(a, START + 2 * DAY), 2 * DEFAULT_DAILY_RENT);
    assert_eq!(rent.account_rent_status(b), None);
    assert_eq!(rent.estimate_rent(b, START + 3 * DAY), (3 * DEFAULT_DAILY_RENT, 3));
    assert_eq!(rent.process_rent(b, START + 3 * DAY), 3 * DEFAULT_DAILY_RENT);
    assert_eq!(rent.account_rent_status(a).unwrap().accumulated_rent, 2 * DEFAULT_DAILY_RENT);
}

#[test]
fn rent_saturates_at_the_maximum() {
    let mut rent = Pallet::new();
    let huge = (u128::MAX / DAILY_RENT_GRANULARITY) * DAILY_RENT_GRANULARITY;
    assert_eq!(rent.set_daily_rent(Origin::Root, huge), Ok(()));
    let who = Address::from_low_u64_be(5);
    assert_eq!(rent.estimate_rent(who, START + 2 * DAY), (u128::MAX, 2));
    assert_eq!(rent.process_rent(who, START + 2 * DAY), u128::MAX);
    assert_eq!(rent.process_rent(who, START + 3 * DAY), huge);
    assert_eq!(rent.account_rent_status(who).unwrap().accumulated_rent, u128::MAX);
    assert_eq!(saturating_mul(u128::MAX, 2), u128::MAX);
    assert_eq!(saturating_mul(6, 7), 42);
}

#[test]
fn whole_days_of_elapsed_time() {
    assert_eq!(whole_days(0), (0, 0));
    assert_eq!(whole_days(DAY - 1), (0, 0));
    assert_eq!(whole_days(3 * DAY + 5), (3, 3 * DAY));
}

#[test]
fn charge_due_for_stored_and_new_accounts() {
    let status = RentStatus { last_rent_paid_time: START + DAY, accumulated_rent: 11 };
    assert_eq!(
        charge_due(START, 10, Some(status), START + 3 * DAY + 9),
        Some(Charge {
            days: 2,
            amount: 20,
            status: RentStatus { last_rent_paid_time: START + 3 * DAY, accumulated_rent: 31 },
        })
    );
    assert_eq!(
        charge_due(START, 10, None, START + DAY),
        Some(Charge {
            days: 1,
            amount: 10,
            status: RentStatus { last_rent_paid_time: START + DAY, accumulated_rent: 10 },
        })
    );
    assert_eq!(charge_due(START, 10, Some(status), START + DAY), None);
    assert_eq!(charge_due(START, 10, None, START - 1), None);
    assert_eq!(estimate_due(START, 10, Some(status), START + 3 * DAY + 9), (20, 2));
    assert_eq!(estimate_due(START, 10, None, START + DAY - 1), (0, 0));
}

#[test]
fn the_unit_calculator_charges_nothing() {
    let mut unit = ();
    let who = Address::from_low_u64_be(1);
    assert_eq!(unit.process_rent(who, START + 10 * DAY), 0);
    assert_eq!(unit.estimate_rent(who, START + 10 * DAY), (0, 0));
}
