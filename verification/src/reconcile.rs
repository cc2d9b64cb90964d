//! The bridge-readiness gate and the client reconciliation loop.
//!
//! No synchronous cross-chain call exists, so a client waits twice: once
//! for the relayer to report the bridge link active, and once, by bounded
//! polling, for relayed state to converge to what it expects.  Waiting is
//! an explicit state machine over poll observations, so its exact budget
//! behavior is part of its contract.

use vstd::prelude::*;

use crate::addr::Addr;
use crate::bridge::{PendingTransfer, TokenBridgeState};
use crate::errors::RelayTimeoutError;
use crate::mirror::{MirrorSystem, MockRelayer};

verus! {

/// The relayer's wiring of one bridged contract pair, as the readiness
/// gate observes it: the link becomes active once the relayer has spent
/// `wired_after` intervals setting its subscriptions up.
pub struct BridgeLink {
    pub wired_after: u64,
    pub elapsed: u64,
}

impl BridgeLink {
    /// The relayer reports event-forwarding for the pair as operational.
    pub open spec fn active(self) -> bool {
        self.elapsed >= self.wired_after
    }

    /// A link that the relayer finishes wiring after `wired_after`
    /// waiting intervals.
    pub fn new(wired_after: u64) -> (r: BridgeLink)
        ensures
            r.wired_after == wired_after,
            r.elapsed == 0,
    {
        BridgeLink { wired_after, elapsed: 0 }
    }

    /// Polls the relayer's readiness report.
    pub fn is_bridged(&self) -> (r: bool)
        ensures
            r == self.active(),
    {
        self.elapsed >= self.wired_after
    }

    /// One waiting interval passes.
    fn wait_interval(&mut self)
        requires
            !old(self).active(),
        ensures
            final(self).wired_after == old(self).wired_after,
            final(self).elapsed == old(self).elapsed + 1,
    {
        self.elapsed = self.elapsed + 1;
    }

    /// Blocks until the relayer reports the bridge active, or until
    /// `timeout` waiting intervals have passed; without a timeout it waits
    /// as long as the wiring takes.  Returns whether the link is active,
    /// which callers treat as an invariant when they passed no timeout.
    pub fn when_bridged(&mut self, timeout: Option<u64>) -> (r: bool)
        ensures
            r == final(self).active(),
            timeout is None ==> r == true,
            timeout matches Some(t) ==> (r <==> old(self).wired_after <= old(self).elapsed + t),
    {
        match timeout {
            None => {
                while !(self.elapsed >= self.wired_after)
                    invariant
                        self.wired_after == old(self).wired_after,
                    decreases self.wired_after - self.elapsed,
                {
                    self.wait_interval();
                }
                true
            },
            Some(t) => {
                let mut waited: u64 = 0;
                while waited < t && !(self.elapsed >= self.wired_after)
                    invariant
                        waited <= t,
                        self.wired_after == old(self).wired_after,
                        self.elapsed == old(self).elapsed + waited,
                    decreases t - waited,
                {
                    self.wait_interval();
                    waited = waited + 1;
                }
                self.elapsed >= self.wired_after
            },
        }
    }
}

/// Where a reconciliation stands.
#[derive(Clone, Copy, Debug, PartialEq, Eq, Structural)]
pub enum ReconcileStatus {
    /// Attempts remain and the condition has not been observed yet.
    Polling,
    /// A poll observed the expected condition.
    Converged,
    /// The budget is exhausted, the final check included, without the
    /// condition ever being observed.
    TimedOut,
}

/// The bounded-retry state machine behind every reconciliation loop: at
/// most `max_attempts` polls with a fixed `delay` between them, then one
/// final check.
#[derive(Clone, Copy, Debug, PartialEq, Eq, Structural)]
pub struct Reconciler {
    /// The attempt budget.
    pub max_attempts: u64,
    /// Fixed delay between polls, in milliseconds; the machine records it
    /// for the driver that does the waiting.
    pub delay_ms: u64,
    /// How many polls have been recorded.
    pub polls: u64,
    /// Where the reconciliation stands.
    pub status: ReconcileStatus,
}

impl Reconciler {
    /// The machine's invariant: while polling, the budget is not yet
    /// exhausted.
    pub open spec fn wf(self) -> bool {
        &&& self.max_attempts < u64::MAX
        &&& self.status is Polling ==> self.polls <= self.max_attempts
    }

    /// What one poll observation does: success converges; a failure past
    /// the budget times out; any earlier failure spends one attempt.  A
    /// finished machine ignores further observations.
    pub open spec fn spec_observe(self, ok: bool) -> Reconciler {
        if !(self.status is Polling) {
            self
        } else if ok {
            Reconciler { polls: (self.polls + 1) as u64, status: ReconcileStatus::Converged, ..self }
        } else if self.polls == self.max_attempts {
            Reconciler { polls: (self.polls + 1) as u64, status: ReconcileStatus::TimedOut, ..self }
        } else {
            Reconciler { polls: (self.polls + 1) as u64, ..self }
        }
    }

    /// A fresh reconciliation: no polls recorded yet.
    pub fn new(max_attempts: u64, delay_ms: u64) -> (r: Reconciler)
        requires
            max_attempts < u64::MAX,
        ensures
            r.wf(),
            r.max_attempts == max_attempts,
            r.delay_ms == delay_ms,
            r.polls == 0,
            r.status is Polling,
    {
        Reconciler { max_attempts, delay_ms, polls: 0, status: ReconcileStatus::Polling }
    }

    /// Records one poll's observation.
    pub fn observe(&mut self, ok: bool)
        requires
            old(self).wf(),
        ensures
            *final(self) == old(self).spec_observe(ok),
            final(self).wf(),
    {
        if matches!(self.status, ReconcileStatus::Polling) {
            if ok {
                self.status = ReconcileStatus::Converged;
            } else if self.polls == self.max_attempts {
                self.status = ReconcileStatus::TimedOut;
            }
            self.polls = self.polls + 1;
        }
    }

    /// Whether another poll is due.
    pub fn polling(&self) -> (r: bool)
        ensures
            r == (self.status is Polling),
    {
        matches!(self.status, ReconcileStatus::Polling)
    }
}

/// The machine after `k` poll observations that all failed.
pub open spec fn observe_all_false(r: Reconciler, k: nat) -> Reconciler
    decreases k,
{
    if k == 0 {
        r
    } else {
        observe_all_false(r, (k - 1) as nat).spec_observe(false)
    }
}

/// Law: a reconciliation whose condition never holds performs exactly its
/// `max_attempts` polls plus one final check and reports failure: after
/// `max_attempts + 1` failed observations the machine is timed out with
/// that exact poll count, and it never polls further, no matter how often
/// it is driven.
pub proof fn lemma_timeout_exact(r0: Reconciler, k: nat)
    requires
        r0.wf(),
        r0.status is Polling,
        r0.polls == 0,
    ensures
        observe_all_false(r0, k).max_attempts == r0.max_attempts,
        k <= r0.max_attempts + 1 ==> observe_all_false(r0, k).polls == k,
        k <= r0.max_attempts ==> observe_all_false(r0, k).status is Polling,
        k >= r0.max_attempts + 1 ==> {
            &&& observe_all_false(r0, k).status is TimedOut
            &&& observe_all_false(r0, k).polls == r0.max_attempts + 1
        },
    decreases k,
{
    if k > 0 {
        lemma_timeout_exact(r0, (k - 1) as nat);
        let p = observe_all_false(r0, (k - 1) as nat);
        assert(observe_all_false(r0, k) == p.spec_observe(false));
        if k - 1 <= r0.max_attempts {
            assert(p.status is Polling && p.polls == k - 1);
        } else {
            assert(p.status is TimedOut && p.polls == r0.max_attempts + 1);
        }
    }
}

/// Reconciles a storage-mirror pair against an expected value: polls every
/// receiver up to `max_attempts` times with one relay interval between
/// polls, then checks once more.
///
/// When the expectation is the sender's current value and the relayer's
/// remaining latency fits the budget, success is owed and every receiver
/// ends at that value.  On timeout the error carries the first receiver's
/// last observed value, and exactly `max_attempts` relay intervals have
/// been consumed.
pub fn reconcile_mirror(
    sys: &mut MirrorSystem,
    relayer: &mut MockRelayer,
    expected: u64,
    max_attempts: u64,
) -> (r: Result<u64, RelayTimeoutError>)
    requires
        old(sys).receivers@.len() >= 1,
    ensures
        final(sys).sender_value == old(sys).sender_value,
        final(sys).receivers@.len() == old(sys).receivers@.len(),
        r matches Ok(n) ==> {
            &&& n <= max_attempts
            &&& forall|i: int|
                0 <= i < final(sys).receivers@.len() ==> final(sys).receivers@[i] == expected
        },
        old(sys).sender_value == expected && old(relayer).countdown < max_attempts ==> r is Ok,
        r matches Err(e) ==> {
            &&& exists|i: int|
                0 <= i < final(sys).receivers@.len() && final(sys).receivers@[i] != expected
            &&& e.last_observed == final(sys).receivers@[0]
            &&& final(relayer).countdown == if old(relayer).countdown >= max_attempts {
                (old(relayer).countdown - max_attempts) as u64
            } else {
                0
            }
        },
{
    let mut n: u64 = 0;
    while n < max_attempts
        invariant
            n <= max_attempts,
            sys.receivers@.len() == old(sys).receivers@.len() >= 1,
            sys.sender_value == old(sys).sender_value,
            relayer.countdown == if old(relayer).countdown >= n {
                (old(relayer).countdown - n) as u64
            } else {
                0
            },
            old(relayer).countdown < n ==> sys.converged(),
        decreases max_attempts - n,
    {
        if check_mirror(sys, expected) {
            return Ok(n);
        }
        relayer.tick(sys);
        n = n + 1;
    }
    if check_mirror(sys, expected) {
        Ok(n)
    } else {
        Err(RelayTimeoutError { last_observed: sys.receiver_retrieve(0) })
    }
}

/// The part of the queued amounts addressed to `a`.
pub open spec fn pending_to(s: Seq<PendingTransfer>, a: Addr) -> int
    decreases s.len(),
{
    if s.len() == 0 {
        0
    } else {
        pending_to(s.drop_last(), a) + if s.last().to == a {
            s.last().amount as int
        } else {
            0
        }
    }
}

/// Reconciles a bridged-token balance: polls `receiver`'s balance up to
/// `max_attempts` times, with one relay delivery between polls, then
/// checks once more.
///
/// When the expectation equals the receiver's balance plus everything the
/// mint queue still owes it, and the queue fits the budget, success is
/// owed.  On timeout the error carries the last observed balance.
pub fn reconcile_fbb_balance(
    bridge: &mut TokenBridgeState,
    receiver: Addr,
    expected: u64,
    max_attempts: u64,
) -> (r: Result<u64, RelayTimeoutError>)
    requires
        old(bridge).wf(),
    ensures
        final(bridge).wf(),
        r matches Ok(n) ==> {
            &&& n <= max_attempts
            &&& final(bridge).fbb.spec_bal(receiver) == expected
        },
        old(bridge).fbb.spec_bal(receiver) + pending_to(old(bridge).pending_mints@, receiver)
            == expected && old(bridge).pending_mints@.len() <= max_attempts ==> r is Ok,
        r matches Err(e) ==> {
            &&& final(bridge).fbb.spec_bal(receiver) != expected
            &&& e.last_observed == final(bridge).fbb.spec_bal(receiver)
        },
{
    let mut n: u64 = 0;
    while n < max_attempts
        invariant
            n <= max_attempts,
            bridge.wf(),
            bridge.fbb.spec_bal(receiver) + pending_to(bridge.pending_mints@, receiver) == old(
                bridge,
            ).fbb.spec_bal(receiver) + pending_to(old(bridge).pending_mints@, receiver),
            bridge.pending_mints@.len() <= old(bridge).pending_mints@.len(),
            old(bridge).pending_mints@.len() > n ==> bridge.pending_mints@.len() == old(
                bridge,
            ).pending_mints@.len() - n,
            old(bridge).pending_mints@.len() <= n ==> bridge.pending_mints@.len() == 0,
        decreases max_attempts - n,
    {
        if bridge.fbb_balance_of(receiver) == expected {
            return Ok(n);
        }
        let ghost pre = *bridge;
        let _ = bridge.relay_mint();
        proof {
            if pre.pending_mints@.len() > 0 {
                assert(pending_to(pre.pending_mints@, receiver) == pending_to(
                    pre.pending_mints@.drop_last(),
                    receiver,
                ) + if pre.pending_mints@.last().to == receiver {
                    pre.pending_mints@.last().amount as int
                } else {
                    0
                });
            }
        }
        n = n + 1;
    }
    let last = bridge.fbb_balance_of(receiver);
    if last == expected {
        Ok(n)
    } else {
        Err(RelayTimeoutError { last_observed: last })
    }
}

/// Reconciles a native balance on the sending chain: polls `receiver`'s
/// balance up to `max_attempts` times, with one relay delivery between
/// polls, then checks once more.
///
/// When the expectation equals the receiver's balance plus everything the
/// release queue still owes it, and the queue fits the budget, success is
/// owed.  On timeout the error carries the last observed balance.
pub fn reconcile_native_balance(
    bridge: &mut TokenBridgeState,
    receiver: Addr,
    expected: u64,
    max_attempts: u64,
) -> (r: Result<u64, RelayTimeoutError>)
    requires
        old(bridge).wf(),
    ensures
        final(bridge).wf(),
        r matches Ok(n) ==> {
            &&& n <= max_attempts
            &&& final(bridge).native.spec_bal(receiver) == expected
        },
        old(bridge).native.spec_bal(receiver) + pending_to(
            old(bridge).pending_releases@,
            receiver,
        ) == expected && old(bridge).pending_releases@.len() <= max_attempts ==> r is Ok,
        r matches Err(e) ==> {
            &&& final(bridge).native.spec_bal(receiver) != expected
            &&& e.last_observed == final(bridge).native.spec_bal(receiver)
        },
{
    let mut n: u64 = 0;
    while n < max_attempts
        invariant
            n <= max_attempts,
            bridge.wf(),
            bridge.native.spec_bal(receiver) + pending_to(bridge.pending_releases@, receiver)
                == old(bridge).native.spec_bal(receiver) + pending_to(
                old(bridge).pending_releases@,
                receiver,
            ),
            bridge.pending_releases@.len() <= old(bridge).pending_releases@.len(),
            old(bridge).pending_releases@.len() > n ==> bridge.pending_releases@.len() == old(
                bridge,
            ).pending_releases@.len() - n,
            old(bridge).pending_releases@.len() <= n ==> bridge.pending_releases@.len() == 0,
        decreases max_attempts - n,
    {
        if bridge.native_balance_of(receiver) == expected {
            return Ok(n);
        }
        let ghost pre = *bridge;
        let _ = bridge.relay_release();
        proof {
            if pre.pending_releases@.len() > 0 {
                assert(pending_to(pre.pending_releases@, receiver) == pending_to(
                    pre.pending_releases@.drop_last(),
                    receiver,
                ) + if pre.pending_releases@.last().to == receiver {
                    pre.pending_releases@.last().amount as int
                } else {
                    0
                });
            }
        }
        n = n + 1;
    }
    let last = bridge.native_balance_of(receiver);
    if last == expected {
        Ok(n)
    } else {
        Err(RelayTimeoutError { last_observed: last })
    }
}

/// Polls every receiver of the mirror once against an expected value.
fn check_mirror(sys: &MirrorSystem, expected: u64) -> (r: bool)
    ensures
        r == forall|i: int|
            0 <= i < sys.receivers@.len() ==> sys.receivers@[i] == expected,
{
    let n = sys.receiver_count();
    let mut i: usize = 0;
    while i < n
        invariant
            i <= n,
            n == sys.receivers@.len(),
            forall|j: int| 0 <= j < i ==> sys.receivers@[j] == expected,
        decreases n - i,
    {
        if sys.receiver_retrieve(i) != expected {
            return false;
        }
        i = i + 1;
    }
    true
}

} // verus!
