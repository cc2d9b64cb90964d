//! Errors shared by the contract-call layer and the reconciliation loop.

use vstd::prelude::*;

verus! {

/// The underlying chain rejected or could not execute a state-changing
/// call, as a ledger does when an update would overdraw or overflow a
/// stored quantity.
#[derive(Clone, Copy, Debug, PartialEq, Eq, Structural)]
pub struct TransactionError {}

/// A readiness gate or reconciliation loop exhausted its budget without
/// observing the expected condition; carries the last observed value so the
/// caller can decide to retry, alert, or abort.
#[derive(Clone, Copy, Debug, PartialEq, Eq, Structural)]
pub struct RelayTimeoutError {
    pub last_observed: u64,
}

} // verus!
