//! A verified model of a cross-chain value-relay protocol.
//!
//! Two contracts on two independent ledgers are linked by an off-chain
//! relayer: a deployer breaks the circular address dependency between the
//! pair, a readiness gate waits for the relayer to come up, and a bounded
//! reconciliation loop confirms that values stored on one chain eventually
//! appear on the other.  Each component is specified against a mathematical
//! model of the ledgers and proved against it.

pub mod addr;
pub mod book;
pub mod bridge;
pub mod deploy;
pub mod errors;
pub mod mirror;
pub mod reconcile;
pub mod registry;
