use relaykit::addr::Addr;
use relaykit::book::AccountBook;
use relaykit::bridge::TokenBridgeState;
use relaykit::reconcile::{
    reconcile_fbb_balance, reconcile_native_balance, BridgeLink, ReconcileStatus, Reconciler,
};

#[test]
fn gate_without_timeout_waits_until_active() {
    let mut link = BridgeLink::new(5);
    assert!(!link.is_bridged());
    assert!(link.when_bridged(None));
    assert!(link.is_bridged());
}

#[test]
fn gate_with_sufficient_timeout_reports_active() {
    let mut link = BridgeLink::new(5);
    assert!(link.when_bridged(Some(5)));
}

#[test]
fn gate_with_short_timeout_reports_inactive() {
    let mut link = BridgeLink::new(5);
    assert!(!link.when_bridged(Some(4)));
}

#[test]
fn never_true_predicate_polls_exactly_budget_plus_final_check() {
    let mut r = Reconciler::new(3, 100);
    let mut observations = 0u64;
    while r.polling() {
        r.observe(false);
        observations += 1;
    }
    // three attempts and one final check, then failure
    assert_eq!(observations, 4);
    assert_eq!(r.polls, 4);
    assert_eq!(r.status, ReconcileStatus::TimedOut);
    // a finished reconciliation never polls again
    r.observe(false);
    assert_eq!(r.polls, 4);
    assert_eq!(r.status, ReconcileStatus::TimedOut);
}

#[test]
fn observation_of_success_converges() {
    let mut r = Reconciler::new(3, 100);
    r.observe(false);
    r.observe(true);
    assert_eq!(r.status, ReconcileStatus::Converged);
    assert_eq!(r.polls, 2);
}

#[test]
fn zero_budget_still_gets_the_final_check() {
    let mut r = Reconciler::new(0, 100);
    r.observe(false);
    assert_eq!(r.status, ReconcileStatus::TimedOut);
    assert_eq!(r.polls, 1);
}

fn addr(n: u128) -> Addr {
    Addr { head: 0, tail: n }
}

fn small_bridge() -> TokenBridgeState {
    let mut native = AccountBook::new();
    native.credit(addr(1), 10_000).unwrap();
    TokenBridgeState::new(1000, native)
}

#[test]
fn fbb_balance_reconciles_after_delivery() {
    let alice = addr(1);
    let bob = addr(2);
    let mut b = small_bridge();
    b.buy(alice, 2000, bob).unwrap();
    let polls = reconcile_fbb_balance(&mut b, bob, 1998, 5).unwrap();
    assert!(polls <= 5);
    assert_eq!(b.fbb_balance_of(bob), 1998);
}

#[test]
fn fbb_balance_reconciliation_times_out() {
    let alice = addr(1);
    let bob = addr(2);
    let mut b = small_bridge();
    b.buy(alice, 2000, bob).unwrap();
    let err = reconcile_fbb_balance(&mut b, bob, 7, 3).unwrap_err();
    assert_eq!(err.last_observed, 1998);
}

#[test]
fn native_balance_reconciles_after_release() {
    let alice = addr(1);
    let bob = addr(2);
    let carol = addr(3);
    let mut b = small_bridge();
    b.buy(alice, 2000, bob).unwrap();
    b.relay_mint().unwrap();
    b.sell(bob, 1998, carol).unwrap();
    let polls = reconcile_native_balance(&mut b, carol, 1998, 5).unwrap();
    assert!(polls <= 5);
    assert_eq!(b.native_balance_of(carol), 1998);
    assert_eq!(b.sender_balance(), 2);
}
