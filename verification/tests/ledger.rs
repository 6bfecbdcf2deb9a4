use tick_stream::funds::AccountBalance;
use tick_stream::pallet::Pallet;
use tick_stream::types::{Error, Event};

const CREATOR: u64 = 2;
const VIEWER: u64 = 1;

fn funded_stream() -> Pallet {
    let mut p = Pallet::new();
    assert_eq!(p.endow(VIEWER, 100), Ok(()));
    assert_eq!(p.create_stream(CREATOR, 1, 10), Ok(()));
    p
}

#[test]
fn it_works_to_join_stream() {
    let mut p = funded_stream();
    assert_eq!(p.join_stream(VIEWER, 1, 5), Ok(()));
    assert_eq!(p.balances(1, VIEWER), Some(50));
}

#[test]
fn it_works_to_record_tick() {
    let mut p = funded_stream();
    assert_eq!(p.join_stream(VIEWER, 1, 5), Ok(()));
    assert_eq!(p.tick(1, VIEWER, 1), Ok(()));
    assert_eq!(
        p.events().last(),
        Some(&Event::TickProcessed { stream_id: 1, viewer: VIEWER, ticks: 1 })
    );
    assert_eq!(p.get_tick_count(1), 1);
}

#[test]
fn it_fails_to_record_tick_if_not_joined() {
    let mut p = funded_stream();
    assert_eq!(p.tick(1, VIEWER, 1), Err(Error::InsufficientBalance));
}

#[test]
fn metering_scenario() {
    let mut p = Pallet::new();
    assert_eq!(p.endow(VIEWER, 50), Ok(()));
    assert_eq!(p.create_stream(CREATOR, 1, 10), Ok(()));

    // Joining with max_seconds = 5 reserves 50.
    assert_eq!(p.join_stream(VIEWER, 1, 5), Ok(()));
    assert_eq!(p.balances(1, VIEWER), Some(50));
    assert_eq!(
        p.account_balance(VIEWER),
        Some(AccountBalance { free: 0, reserved: 50 })
    );

    // A tick of 3 settles 30 to the creator and leaves 20 reserved.
    assert_eq!(p.tick(1, VIEWER, 3), Ok(()));
    assert_eq!(p.balances(1, VIEWER), Some(20));
    assert_eq!(p.get_tick_count(1), 3);
    assert_eq!(
        p.account_balance(CREATOR),
        Some(AccountBalance { free: 30, reserved: 0 })
    );

    // Another tick of 3 costs 30 > 20 reserved: rejected, state unchanged.
    let events_before = p.events().clone();
    assert_eq!(p.tick(1, VIEWER, 3), Err(Error::InsufficientBalance));
    assert_eq!(p.balances(1, VIEWER), Some(20));
    assert_eq!(p.get_tick_count(1), 3);
    assert_eq!(
        p.account_balance(CREATOR),
        Some(AccountBalance { free: 30, reserved: 0 })
    );
    assert_eq!(p.events(), &events_before);
}

#[test]
fn tick_on_missing_stream_emits_nothing() {
    let mut p = Pallet::new();
    assert_eq!(p.tick(99, VIEWER, 1), Err(Error::StreamNotFound));
    assert!(p.events().is_empty());
}

#[test]
fn create_duplicate_fails_and_preserves_record() {
    let mut p = Pallet::new();
    assert_eq!(p.create_stream(CREATOR, 1, 10), Ok(()));
    assert_eq!(p.create_stream(3, 1, 99), Err(Error::StreamExists));
    let s = p.get_stream(1).unwrap();
    assert_eq!(s.creator, CREATOR);
    assert_eq!(s.price_per_second, 10);
    assert_eq!(s.last_tick, 0);
    assert_eq!(p.events().len(), 1);
}

#[test]
fn create_emits_event() {
    let mut p = Pallet::new();
    assert_eq!(p.create_stream(CREATOR, 7, 3), Ok(()));
    assert_eq!(
        p.events(),
        &vec![Event::StreamCreated { stream_id: 7, creator: CREATOR, price: 3 }]
    );
}

#[test]
fn join_missing_stream_fails() {
    let mut p = Pallet::new();
    assert_eq!(p.endow(VIEWER, 100), Ok(()));
    assert_eq!(p.join_stream(VIEWER, 9, 5), Err(Error::StreamNotFound));
}

#[test]
fn join_without_funds_fails() {
    let mut p = Pallet::new();
    assert_eq!(p.create_stream(CREATOR, 1, 10), Ok(()));
    // No account at all.
    assert_eq!(p.join_stream(VIEWER, 1, 5), Err(Error::InsufficientFunds));
    // An account short of the amount.
    assert_eq!(p.endow(VIEWER, 49), Ok(()));
    assert_eq!(p.join_stream(VIEWER, 1, 5), Err(Error::InsufficientFunds));
    assert_eq!(p.balances(1, VIEWER), None);
}

#[test]
fn join_overflow_fails_closed() {
    let mut p = Pallet::new();
    assert_eq!(p.endow(VIEWER, 100), Ok(()));
    assert_eq!(p.create_stream(CREATOR, 1, u128::MAX), Ok(()));
    assert_eq!(p.join_stream(VIEWER, 1, 2), Err(Error::ArithmeticOverflow));
    assert_eq!(p.balances(1, VIEWER), None);
    assert_eq!(
        p.account_balance(VIEWER),
        Some(AccountBalance { free: 100, reserved: 0 })
    );
}

#[test]
fn rejoin_overwrites_reservation() {
    let mut p = funded_stream();
    assert_eq!(p.join_stream(VIEWER, 1, 5), Ok(()));
    assert_eq!(p.join_stream(VIEWER, 1, 2), Ok(()));
    // The reservation is overwritten, not accumulated; the earlier hold
    // stays with the funds ledger.
    assert_eq!(p.balances(1, VIEWER), Some(20));
    assert_eq!(
        p.account_balance(VIEWER),
        Some(AccountBalance { free: 30, reserved: 70 })
    );
}

#[test]
fn tick_cost_overflow_fails_closed() {
    let mut p = Pallet::new();
    assert_eq!(p.endow(VIEWER, u128::MAX), Ok(()));
    assert_eq!(p.create_stream(CREATOR, 1, u128::MAX), Ok(()));
    assert_eq!(p.join_stream(VIEWER, 1, 1), Ok(()));
    assert_eq!(p.tick(1, VIEWER, 2), Err(Error::ArithmeticOverflow));
    assert_eq!(p.balances(1, VIEWER), Some(u128::MAX));
    assert_eq!(p.get_tick_count(1), 0);
}

#[test]
fn tick_counter_overflow_fails_closed() {
    let mut p = Pallet::new();
    // A free stream lets the counter move without cost.
    assert_eq!(p.endow(VIEWER, 0), Ok(()));
    assert_eq!(p.create_stream(CREATOR, 1, 0), Ok(()));
    assert_eq!(p.join_stream(VIEWER, 1, 0), Ok(()));
    assert_eq!(p.tick(1, VIEWER, u32::MAX), Ok(()));
    assert_eq!(p.get_tick_count(1), u32::MAX);
    assert_eq!(p.tick(1, VIEWER, 1), Err(Error::ArithmeticOverflow));
    assert_eq!(p.get_tick_count(1), u32::MAX);
}

#[test]
fn tick_advances_counter_by_exactly_ticks() {
    let mut p = funded_stream();
    assert_eq!(p.join_stream(VIEWER, 1, 10), Ok(()));
    assert_eq!(p.get_tick_count(1), 0);
    assert_eq!(p.tick(1, VIEWER, 4), Ok(()));
    assert_eq!(p.get_tick_count(1), 4);
    assert_eq!(p.tick(1, VIEWER, 6), Ok(()));
    assert_eq!(p.get_tick_count(1), 10);
}

#[test]
fn settlement_matches_price_times_ticks() {
    let mut p = funded_stream();
    assert_eq!(p.join_stream(VIEWER, 1, 10), Ok(()));
    assert_eq!(p.tick(1, VIEWER, 2), Ok(()));
    assert_eq!(p.tick(1, VIEWER, 3), Ok(()));
    // Cumulative settlement is 10 * (2 + 3); the rest is still escrowed.
    assert_eq!(
        p.account_balance(CREATOR),
        Some(AccountBalance { free: 50, reserved: 0 })
    );
    assert_eq!(p.balances(1, VIEWER), Some(50));
    assert_eq!(
        p.account_balance(VIEWER),
        Some(AccountBalance { free: 0, reserved: 50 })
    );
}

#[test]
fn creator_watching_own_stream_settles_to_self() {
    let mut p = Pallet::new();
    assert_eq!(p.endow(CREATOR, 40), Ok(()));
    assert_eq!(p.create_stream(CREATOR, 1, 10), Ok(()));
    assert_eq!(p.join_stream(CREATOR, 1, 4), Ok(()));
    assert_eq!(
        p.account_balance(CREATOR),
        Some(AccountBalance { free: 0, reserved: 40 })
    );
    assert_eq!(p.tick(1, CREATOR, 3), Ok(()));
    assert_eq!(
        p.account_balance(CREATOR),
        Some(AccountBalance { free: 30, reserved: 10 })
    );
    assert_eq!(p.balances(1, CREATOR), Some(10));
}

#[test]
fn zero_ticks_settle_nothing() {
    let mut p = funded_stream();
    assert_eq!(p.join_stream(VIEWER, 1, 5), Ok(()));
    assert_eq!(p.tick(1, VIEWER, 0), Ok(()));
    assert_eq!(p.get_tick_count(1), 0);
    assert_eq!(p.balances(1, VIEWER), Some(50));
}

#[test]
fn endow_overflow_fails_closed() {
    let mut p = Pallet::new();
    assert_eq!(p.endow(VIEWER, u128::MAX), Ok(()));
    assert_eq!(p.endow(VIEWER, 1), Err(Error::ArithmeticOverflow));
    assert_eq!(
        p.account_balance(VIEWER),
        Some(AccountBalance { free: u128::MAX, reserved: 0 })
    );
}

#[test]
fn empty_ledger_reads_empty() {
    let p = Pallet::new();
    assert_eq!(p.get_stream(1), None);
    assert_eq!(p.balances(1, VIEWER), None);
    assert_eq!(p.account_balance(VIEWER), None);
    assert_eq!(p.get_tick_count(1), 0);
    assert!(p.events().is_empty());
}
