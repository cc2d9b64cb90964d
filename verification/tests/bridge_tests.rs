use relaykit::addr::Addr;
use relaykit::book::AccountBook;
use relaykit::bridge::{minted_amount, TokenBridgeState};

const FEE_INVERSE: u64 = 1000;

fn addr(n: u128) -> Addr {
    Addr { head: 0, tail: n }
}

fn bridge_with(alice_wei: u64) -> TokenBridgeState {
    let mut native = AccountBook::new();
    native.credit(addr(1), alice_wei).unwrap();
    TokenBridgeState::new(FEE_INVERSE, native)
}

#[test]
fn fee_computation_exact() {
    assert_eq!(minted_amount(1_000_000_000_000, FEE_INVERSE), 999_000_000_000);
    assert_eq!(minted_amount(0, FEE_INVERSE), 0);
    assert_eq!(minted_amount(999, FEE_INVERSE), 999);
    assert_eq!(minted_amount(1000, FEE_INVERSE), 999);
    assert_eq!(minted_amount(1999, FEE_INVERSE), 1998);
    assert_eq!(minted_amount(u64::MAX, 1), 0);
}

#[test]
fn buy_locks_payment_and_mints_after_relay() {
    let alice = addr(1);
    let bob = addr(2);
    let mut b = bridge_with(2_000_000_000_000);
    b.buy(alice, 1_000_000_000_000, bob).unwrap();
    // payment arrived on the sending side at once
    assert_eq!(b.sender_balance(), 1_000_000_000_000);
    assert_eq!(b.native_balance_of(alice), 1_000_000_000_000);
    // tokens appear on the remote end only once the relayer delivers
    assert_eq!(b.fbb_balance_of(bob), 0);
    let delivered = b.relay_mint().unwrap();
    assert_eq!(delivered.amount, 999_000_000_000);
    assert_eq!(b.fbb_balance_of(bob), 999_000_000_000);
}

#[test]
fn buy_rejects_uncovered_payment() {
    let alice = addr(1);
    let bob = addr(2);
    let mut b = bridge_with(100);
    assert!(b.buy(alice, 101, bob).is_err());
    assert_eq!(b.sender_balance(), 0);
    assert_eq!(b.native_balance_of(alice), 100);
}

#[test]
fn sell_rejects_uncovered_burn() {
    let alice = addr(1);
    let carol = addr(3);
    let mut b = bridge_with(1000);
    assert!(b.sell(alice, 1, carol).is_err());
}

#[test]
fn sell_burns_and_releases_equal_amount() {
    let alice = addr(1);
    let bob = addr(2);
    let carol = addr(3);
    let mut b = bridge_with(2_000_000_000_000);
    b.buy(alice, 1_000_000_000_000, bob).unwrap();
    b.relay_mint().unwrap();
    b.sell(bob, 999_000_000_000, carol).unwrap();
    assert_eq!(b.fbb_balance_of(bob), 0);
    // the native currency moves only once the relayer delivers
    assert_eq!(b.native_balance_of(carol), 0);
    let delivered = b.relay_release().unwrap();
    assert_eq!(delivered.amount, 999_000_000_000);
    assert_eq!(b.native_balance_of(carol), 999_000_000_000);
    // the token sender keeps exactly the fee
    assert_eq!(b.sender_balance(), 1_000_000_000);
}

#[test]
fn round_trip_returns_currency_less_fee() {
    let alice = addr(1);
    let bob = addr(2);
    let carol = addr(3);
    let mut b = bridge_with(2_000_000_000_000);
    let minted = b.round_trip(alice, 1_000_000_000_000, bob, carol).unwrap();
    assert_eq!(minted, 999_000_000_000);
    assert_eq!(b.native_balance_of(alice), 1_000_000_000_000);
    assert_eq!(b.native_balance_of(carol), 999_000_000_000);
    assert_eq!(b.fbb_balance_of(bob), 0);
    assert_eq!(b.sender_balance(), 1_000_000_000);
}

#[test]
fn relay_steps_on_empty_queues_do_nothing() {
    let mut b = bridge_with(1000);
    assert!(b.relay_mint().is_none());
    assert!(b.relay_release().is_none());
    assert_eq!(b.sender_balance(), 0);
}
