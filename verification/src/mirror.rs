//! The storage-mirror relay pattern.
//!
//! A sender contract holds one mutable scalar; every successful `store`,
//! `inc` or `dec` on it is eventually forwarded by the relayer so that each
//! paired receiver converges to the sender's latest value.  Forwarding is
//! at-least-once and may coalesce intermediate values: only the latest
//! value is guaranteed to become visible.

use vstd::prelude::*;

use crate::errors::TransactionError;

verus! {

/// A sender contract and the receiver contracts mirroring it, each holding
/// one scalar.
pub struct MirrorSystem {
    pub sender_value: u64,
    pub receivers: Vec<u64>,
}

impl MirrorSystem {
    /// Every receiver holds the sender's latest value.
    pub open spec fn converged(self) -> bool {
        forall|i: int| 0 <= i < self.receivers@.len() ==> self.receivers@[i] == self.sender_value
    }

    /// Deploys the pair: the sender initialized to `sender_value`, each
    /// receiver to its entry of `receiver_values`.
    pub fn new(sender_value: u64, receiver_values: Vec<u64>) -> (r: MirrorSystem)
        ensures
            r.sender_value == sender_value,
            r.receivers@ == receiver_values@,
    {
        MirrorSystem { sender_value, receivers: receiver_values }
    }

    /// Stores a value to the sender; receivers are untouched until the
    /// relayer forwards it.
    pub fn store(&mut self, v: u64)
        ensures
            final(self).sender_value == v,
            final(self).receivers@ == old(self).receivers@,
    {
        self.sender_value = v;
    }

    /// Stores a value directly to receiver `i`, bypassing the relay.
    pub fn store_receiver(&mut self, i: usize, v: u64)
        requires
            i < old(self).receivers@.len(),
        ensures
            final(self).sender_value == old(self).sender_value,
            final(self).receivers@ == old(self).receivers@.update(i as int, v),
    {
        self.receivers.set(i, v);
    }

    /// Increments the sender's value by `d`; the ledger rejects an update
    /// that would overflow the stored quantity.
    pub fn inc(&mut self, d: u64) -> (r: Result<(), TransactionError>)
        ensures
            old(self).sender_value + d <= u64::MAX ==> {
                &&& r is Ok
                &&& final(self).sender_value == old(self).sender_value + d
            },
            old(self).sender_value + d > u64::MAX ==> {
                &&& r is Err
                &&& final(self).sender_value == old(self).sender_value
            },
            final(self).receivers@ == old(self).receivers@,
    {
        if d <= u64::MAX - self.sender_value {
            self.sender_value = self.sender_value + d;
            Ok(())
        } else {
            Err(TransactionError {})
        }
    }

    /// Decrements the sender's value by `d`; the ledger rejects an update
    /// that would underflow the stored quantity.
    pub fn dec(&mut self, d: u64) -> (r: Result<(), TransactionError>)
        ensures
            d <= old(self).sender_value ==> {
                &&& r is Ok
                &&& final(self).sender_value == old(self).sender_value - d
            },
            d > old(self).sender_value ==> {
                &&& r is Err
                &&& final(self).sender_value == old(self).sender_value
            },
            final(self).receivers@ == old(self).receivers@,
    {
        if d <= self.sender_value {
            self.sender_value = self.sender_value - d;
            Ok(())
        } else {
            Err(TransactionError {})
        }
    }

    /// Reads the sender's stored value.
    pub fn sender_retrieve(&self) -> (r: u64)
        ensures
            r == self.sender_value,
    {
        self.sender_value
    }

    /// Reads receiver `i`'s stored value.
    pub fn receiver_retrieve(&self, i: usize) -> (r: u64)
        requires
            i < self.receivers@.len(),
        ensures
            r == self.receivers@[i as int],
    {
        self.receivers[i]
    }

    /// The number of receivers mirroring the sender.
    pub fn receiver_count(&self) -> (r: usize)
        ensures
            r == self.receivers@.len(),
    {
        self.receivers.len()
    }
}

/// The relayer as the client observes it: a forwarding latency that
/// elapses tick by tick, after which the sender's latest value is delivered
/// to every receiver.
pub struct MockRelayer {
    pub countdown: u64,
}

impl MockRelayer {
    /// A relayer that delivers after `latency` ticks.
    pub fn new(latency: u64) -> (r: MockRelayer)
        ensures
            r.countdown == latency,
    {
        MockRelayer { countdown: latency }
    }

    /// One waiting interval: the latency elapses by one tick, and once it
    /// is spent the relayer forwards the sender's latest value to every
    /// receiver.
    pub fn tick(&mut self, sys: &mut MirrorSystem)
        ensures
            final(sys).sender_value == old(sys).sender_value,
            final(sys).receivers@.len() == old(sys).receivers@.len(),
            old(self).countdown > 0 ==> {
                &&& final(self).countdown == old(self).countdown - 1
                &&& final(sys).receivers@ == old(sys).receivers@
            },
            old(self).countdown == 0 ==> {
                &&& final(self).countdown == 0
                &&& final(sys).converged()
            },
    {
        if self.countdown > 0 {
            self.countdown = self.countdown - 1;
        } else {
            let n = sys.receivers.len();
            let v = sys.sender_value;
            let mut i: usize = 0;
            while i < n
                invariant
                    i <= n,
                    n == sys.receivers@.len(),
                    v == sys.sender_value,
                    forall|j: int| 0 <= j < i ==> sys.receivers@[j] == v,
                decreases n - i,
            {
                sys.receivers.set(i, v);
                i = i + 1;
            }
        }
    }
}

} // verus!
