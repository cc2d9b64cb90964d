use relaykit::mirror::{MirrorSystem, MockRelayer};
use relaykit::reconcile::reconcile_mirror;

#[test]
fn store_updates_only_the_sender() {
    let mut sys = MirrorSystem::new(0, vec![0]);
    sys.store(5);
    assert_eq!(sys.sender_retrieve(), 5);
    assert_eq!(sys.receiver_retrieve(0), 0);
}

#[test]
fn store_receiver_bypasses_the_relay() {
    let mut sys = MirrorSystem::new(1, vec![0, 0]);
    sys.store_receiver(1, 9);
    assert_eq!(sys.receiver_retrieve(0), 0);
    assert_eq!(sys.receiver_retrieve(1), 9);
    assert_eq!(sys.sender_retrieve(), 1);
}

#[test]
fn inc_and_dec_adjust_the_sender() {
    let mut sys = MirrorSystem::new(10, vec![0]);
    sys.inc(1).unwrap();
    assert_eq!(sys.sender_retrieve(), 11);
    sys.dec(1).unwrap();
    assert_eq!(sys.sender_retrieve(), 10);
}

#[test]
fn inc_overflow_is_rejected() {
    let mut sys = MirrorSystem::new(u64::MAX, vec![0]);
    assert!(sys.inc(1).is_err());
    assert_eq!(sys.sender_retrieve(), u64::MAX);
}

#[test]
fn dec_underflow_is_rejected() {
    let mut sys = MirrorSystem::new(0, vec![0]);
    assert!(sys.dec(1).is_err());
    assert_eq!(sys.sender_retrieve(), 0);
}

#[test]
fn receivers_converge_within_bounded_latency() {
    let mut sys = MirrorSystem::new(0, vec![0, 0]);
    let mut relayer = MockRelayer::new(3);
    sys.store(42);
    let polls = reconcile_mirror(&mut sys, &mut relayer, 42, 10).unwrap();
    assert!(polls <= 10);
    assert_eq!(sys.receiver_retrieve(0), 42);
    assert_eq!(sys.receiver_retrieve(1), 42);
}

#[test]
fn converged_mirror_reconciles_immediately() {
    let mut sys = MirrorSystem::new(7, vec![7, 7]);
    let mut relayer = MockRelayer::new(5);
    let polls = reconcile_mirror(&mut sys, &mut relayer, 7, 3).unwrap();
    assert_eq!(polls, 0);
}

#[test]
fn reconciliation_times_out_on_wrong_expectation() {
    let mut sys = MirrorSystem::new(5, vec![0]);
    let mut relayer = MockRelayer::new(0);
    let err = reconcile_mirror(&mut sys, &mut relayer, 7, 2).unwrap_err();
    // the relayer delivered the sender's value, but it never matched
    assert_eq!(err.last_observed, 5);
}

#[test]
fn latency_past_the_budget_times_out() {
    let mut sys = MirrorSystem::new(3, vec![0]);
    let mut relayer = MockRelayer::new(10);
    let err = reconcile_mirror(&mut sys, &mut relayer, 3, 4).unwrap_err();
    assert_eq!(err.last_observed, 0);
}
