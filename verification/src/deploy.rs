//! The paired-contract deployer.
//!
//! A chain assigns each new contract an address derived deterministically
//! from the deploying account and its nonce.  Two mutually-referencing
//! contracts are deployed either shim-first (a reduced stand-in for one
//! side is deployed to obtain a real address before the full logic) or by
//! predicting the second contract's address and asserting the prediction
//! once it is really deployed.

use vstd::prelude::*;

use crate::addr::{Addr, AddressResolutionError};
use crate::registry::{find, DeploymentRegistry};

verus! {

/// What a deploy operation can fail with.
#[derive(Clone, Copy, Debug, PartialEq, Eq, Structural)]
pub enum DeploymentError {
    /// The chain rejected or could not execute the deploying transaction.
    Transaction,
    /// A live deployment for this contract name and chain already exists
    /// and was not cleared first.
    AlreadyDeployed,
    /// The address predicted for a circularly-referenced contract does not
    /// equal its real deployed address.
    CircularDeployMismatch { predicted: Addr, actual: Addr },
}

/// A constructor argument that refers to the paired contract: either a
/// predicted address for a contract that does not exist yet, or the real
/// address of a deployed one.
#[derive(Clone, Copy, Debug, PartialEq, Eq, Structural)]
pub enum ContractRef {
    Unresolved(Addr),
    Resolved(Addr),
}

impl ContractRef {
    /// The address the reference carries, whichever state it is in.
    pub open spec fn addr(self) -> Addr {
        match self {
            ContractRef::Unresolved(a) => a,
            ContractRef::Resolved(a) => a,
        }
    }
}

/// The address a chain assigns to the contract created by `deployer`'s
/// transaction with nonce `nonce`.
pub open spec fn contract_addr(deployer: u64, nonce: u64) -> Addr {
    Addr { head: 0, tail: (deployer * 0x1_0000_0000_0000_0000 + nonce) as u128 }
}

/// Distinct creating transactions give distinct addresses.
pub proof fn lemma_contract_addr_injective(d1: u64, n1: u64, d2: u64, n2: u64)
    requires
        contract_addr(d1, n1) == contract_addr(d2, n2),
    ensures
        d1 == d2 && n1 == n2,
{
    let k: int = 0x1_0000_0000_0000_0000;
    assert(d1 * k + n1 == d2 * k + n2);
    assert(d1 == d2 && n1 == n2) by (nonlinear_arith)
        requires
            d1 * k + n1 == d2 * k + n2,
            k == 0x1_0000_0000_0000_0000,
            n1 < k,
            n2 < k,
            d1 >= 0,
            d2 >= 0,
    ;
}

/// One participating ledger, as the deployer sees it: its identity, the
/// account deploys are issued from (when determined), and that account's
/// next nonce.
#[derive(Clone, Copy, Debug, PartialEq, Eq, Structural)]
pub struct ChainModel {
    pub id: u64,
    pub deployer: Option<u64>,
    pub nonce: u64,
}

impl ChainModel {
    /// The chain can accept one more creating transaction.
    pub open spec fn can_create(self) -> bool {
        self.deployer is Some && self.nonce < u64::MAX
    }

    /// The address the next creating transaction will receive.
    pub open spec fn next_addr(self) -> Addr
        recommends
            self.deployer is Some,
    {
        contract_addr(self.deployer->0, self.nonce)
    }

    /// Predicts the address of the next contract this chain's deployer
    /// would create, without any side effect.
    ///
    /// Fails when the deployer account is not determined, since then no
    /// nonce can be predicted.
    pub fn predict_addr(&self) -> (r: Result<Addr, AddressResolutionError>)
        ensures
            self.deployer is Some ==> r == Ok::<Addr, AddressResolutionError>(self.next_addr()),
            self.deployer is None ==> r == Err::<Addr, AddressResolutionError>(
                AddressResolutionError::DeployerUnknown,
            ),
    {
        match self.deployer {
            Some(d) => Ok(
                Addr {
                    head: 0,
                    tail: (d as u128) * 0x1_0000_0000_0000_0000u128 + (self.nonce as u128),
                },
            ),
            None => Err(AddressResolutionError::DeployerUnknown),
        }
    }

    /// Issues one creating transaction: the new contract receives the
    /// predicted address and the nonce advances.
    pub fn create_contract(&mut self) -> (r: Result<Addr, DeploymentError>)
        ensures
            old(self).can_create() ==> {
                &&& r == Ok::<Addr, DeploymentError>(old(self).next_addr())
                &&& final(self).id == old(self).id
                &&& final(self).deployer == old(self).deployer
                &&& final(self).nonce == old(self).nonce + 1
            },
            !old(self).can_create() ==> {
                &&& r == Err::<Addr, DeploymentError>(DeploymentError::Transaction)
                &&& *final(self) == *old(self)
            },
    {
        match self.deployer {
            Some(d) => {
                if self.nonce < u64::MAX {
                    let a = Addr {
                        head: 0,
                        tail: (d as u128) * 0x1_0000_0000_0000_0000u128 + (self.nonce as u128),
                    };
                    self.nonce = self.nonce + 1;
                    Ok(a)
                } else {
                    Err(DeploymentError::Transaction)
                }
            },
            None => Err(DeploymentError::Transaction),
        }
    }
}

/// Checks a contract reference against the real address of the deployed
/// contract it stands for: the prediction must equal the real address, and
/// a violation raises `CircularDeployMismatch`, never proceeding silently.
pub fn resolve_ref(rf: ContractRef, actual: Addr) -> (r: Result<ContractRef, DeploymentError>)
    ensures
        rf.addr() == actual ==> r == Ok::<ContractRef, DeploymentError>(
            ContractRef::Resolved(actual),
        ),
        rf.addr() != actual ==> r == Err::<ContractRef, DeploymentError>(
            DeploymentError::CircularDeployMismatch { predicted: rf.addr(), actual },
        ),
{
    let p = match rf {
        ContractRef::Unresolved(a) => a,
        ContractRef::Resolved(a) => a,
    };
    if p == actual {
        Ok(ContractRef::Resolved(actual))
    } else {
        Err(DeploymentError::CircularDeployMismatch { predicted: p, actual })
    }
}

/// Deploys contract `name` on `chain` and records it, guarding against a
/// second live deployment: an existing record for the key fails with
/// `AlreadyDeployed` and changes nothing, so deploying twice without
/// clearing state never silently creates a second divergent contract.
pub fn deploy_contract(chain: &mut ChainModel, reg: &mut DeploymentRegistry, name: u64) -> (r:
    Result<Addr, DeploymentError>)
    ensures
        find(old(reg)@, name, old(chain).id) is Some ==> {
            &&& r == Err::<Addr, DeploymentError>(DeploymentError::AlreadyDeployed)
            &&& *final(chain) == *old(chain)
            &&& final(reg)@ == old(reg)@
        },
        find(old(reg)@, name, old(chain).id) is None && !old(chain).can_create() ==> {
            &&& r == Err::<Addr, DeploymentError>(DeploymentError::Transaction)
            &&& *final(chain) == *old(chain)
            &&& final(reg)@ == old(reg)@
        },
        find(old(reg)@, name, old(chain).id) is None && old(chain).can_create() ==> {
            &&& r == Ok::<Addr, DeploymentError>(old(chain).next_addr())
            &&& final(chain).id == old(chain).id
            &&& final(chain).deployer == old(chain).deployer
            &&& final(chain).nonce == old(chain).nonce + 1
            &&& find(final(reg)@, name, old(chain).id) == Some(old(chain).next_addr())
            &&& forall|n: u64, c: u64|
                !(n == name && c == old(chain).id) ==> #[trigger] find(final(reg)@, n, c) == find(
                    old(reg)@,
                    n,
                    c,
                )
        },
{
    if let Some(_) = reg.lookup(name, chain.id) {
        return Err(DeploymentError::AlreadyDeployed);
    }
    let addr = chain.create_contract()?;
    reg.record(name, chain.id, addr);
    Ok(addr)
}

/// Reuses the live deployment of `name` on `chain` when one is recorded,
/// and deploys it otherwise: re-running a deploy never creates a second
/// divergent contract.
pub fn ensure_deployed(chain: &mut ChainModel, reg: &mut DeploymentRegistry, name: u64) -> (r:
    Result<Addr, DeploymentError>)
    ensures
        find(old(reg)@, name, old(chain).id) matches Some(a) ==> {
            &&& r == Ok::<Addr, DeploymentError>(a)
            &&& *final(chain) == *old(chain)
            &&& final(reg)@ == old(reg)@
        },
        find(old(reg)@, name, old(chain).id) is None && old(chain).can_create() ==> {
            &&& r == Ok::<Addr, DeploymentError>(old(chain).next_addr())
            &&& find(final(reg)@, name, old(chain).id) == Some(old(chain).next_addr())
        },
        find(old(reg)@, name, old(chain).id) is None && !old(chain).can_create() ==> r == Err::<
            Addr,
            DeploymentError,
        >(DeploymentError::Transaction),
{
    if let Some(a) = reg.lookup(name, chain.id) {
        return Ok(a);
    }
    deploy_contract(chain, reg, name)
}

/// Deploys a circularly-referencing pair shim-first: a reduced stand-in
/// for `name_b` is created on `name_a`'s chain to obtain a real address,
/// `name_a` is deployed against it, then `name_a`'s own stand-in and
/// `name_b`'s full logic are deployed on the other chain.
///
/// Every address handed to a constructor is the real address of an already
/// created contract, so no prediction is involved.  An existing live
/// deployment of either contract fails with `AlreadyDeployed`; a chain that
/// cannot take two more creating transactions fails with `Transaction`; in
/// both cases nothing is changed.
pub fn deploy_pair_shim_first(
    chain_a: &mut ChainModel,
    chain_b: &mut ChainModel,
    reg: &mut DeploymentRegistry,
    name_a: u64,
    name_b: u64,
) -> (r: Result<(Addr, Addr), DeploymentError>)
    requires
        old(chain_a).id != old(chain_b).id,
        name_a != name_b,
    ensures
        ({
            let occupied = find(old(reg)@, name_a, old(chain_a).id) is Some || find(
                old(reg)@,
                name_b,
                old(chain_b).id,
            ) is Some;
            let roomy = old(chain_a).deployer is Some && old(chain_a).nonce < u64::MAX - 1 && old(
                chain_b,
            ).deployer is Some && old(chain_b).nonce < u64::MAX - 1;
            let shim_b = old(chain_a).next_addr();
            let real_a = contract_addr(old(chain_a).deployer->0, (old(chain_a).nonce + 1) as u64);
            let shim_a = old(chain_b).next_addr();
            let real_b = contract_addr(old(chain_b).deployer->0, (old(chain_b).nonce + 1) as u64);
            &&& (occupied ==> {
                &&& r == Err::<(Addr, Addr), DeploymentError>(DeploymentError::AlreadyDeployed)
                &&& *final(chain_a) == *old(chain_a)
                &&& *final(chain_b) == *old(chain_b)
                &&& final(reg)@ == old(reg)@
            })
            &&& (!occupied && !roomy ==> {
                &&& r == Err::<(Addr, Addr), DeploymentError>(DeploymentError::Transaction)
                &&& *final(chain_a) == *old(chain_a)
                &&& *final(chain_b) == *old(chain_b)
                &&& final(reg)@ == old(reg)@
            })
            &&& (!occupied && roomy ==> {
                &&& r == Ok::<(Addr, Addr), DeploymentError>((real_a, real_b))
                &&& find(final(reg)@, name_a, old(chain_a).id) == Some(real_a)
                &&& find(final(reg)@, name_b, old(chain_b).id) == Some(real_b)
                &&& find(final(reg)@, name_b, old(chain_a).id) == Some(shim_b)
                &&& find(final(reg)@, name_a, old(chain_b).id) == Some(shim_a)
                &&& (forall|n: u64, c: u64|
                    !((n == name_a || n == name_b) && (c == old(chain_a).id || c == old(
                        chain_b,
                    ).id)) ==> #[trigger] find(final(reg)@, n, c) == find(old(reg)@, n, c))
                &&& final(chain_a).id == old(chain_a).id
                &&& final(chain_a).deployer == old(chain_a).deployer
                &&& final(chain_a).nonce == old(chain_a).nonce + 2
                &&& final(chain_b).id == old(chain_b).id
                &&& final(chain_b).deployer == old(chain_b).deployer
                &&& final(chain_b).nonce == old(chain_b).nonce + 2
            })
        }),
{
    if reg.lookup(name_a, chain_a.id).is_some() || reg.lookup(name_b, chain_b.id).is_some() {
        return Err(DeploymentError::AlreadyDeployed);
    }
    let roomy_a = chain_a.deployer.is_some() && chain_a.nonce < u64::MAX - 1;
    let roomy_b = chain_b.deployer.is_some() && chain_b.nonce < u64::MAX - 1;
    if !(roomy_a && roomy_b) {
        return Err(DeploymentError::Transaction);
    }
    let shim_b = match chain_a.create_contract() {
        Ok(a) => a,
        Err(e) => {
            return Err(e);
        },
    };
    reg.record(name_b, chain_a.id, shim_b);
    let real_a = match chain_a.create_contract() {
        Ok(a) => a,
        Err(e) => {
            return Err(e);
        },
    };
    reg.record(name_a, chain_a.id, real_a);
    let shim_a = match chain_b.create_contract() {
        Ok(a) => a,
        Err(e) => {
            return Err(e);
        },
    };
    reg.record(name_a, chain_b.id, shim_a);
    let real_b = match chain_b.create_contract() {
        Ok(a) => a,
        Err(e) => {
            return Err(e);
        },
    };
    reg.record(name_b, chain_b.id, real_b);
    Ok((real_a, real_b))
}

/// Deploys a circularly-referencing pair by prediction: `name_a` is
/// constructed against an unresolved reference carrying `predicted_b`, then
/// `name_b` is really deployed and the prediction is checked against its
/// real address.
///
/// A prediction taken from `name_b`'s chain with [`ChainModel::predict_addr`]
/// immediately before this call equals the real address, so the call
/// returns the deployed pair; any other prediction fails with
/// `CircularDeployMismatch`, never proceeding silently.  Both deployments
/// are recorded before the check, so a mismatch leaves the recorded state
/// for the caller to inspect.
pub fn deploy_pair_predicted(
    chain_a: &mut ChainModel,
    chain_b: &mut ChainModel,
    reg: &mut DeploymentRegistry,
    name_a: u64,
    name_b: u64,
    predicted_b: Addr,
) -> (r: Result<(Addr, Addr), DeploymentError>)
    requires
        old(chain_a).id != old(chain_b).id,
        name_a != name_b,
    ensures
        ({
            let occupied = find(old(reg)@, name_a, old(chain_a).id) is Some || find(
                old(reg)@,
                name_b,
                old(chain_b).id,
            ) is Some;
            let roomy = old(chain_a).can_create() && old(chain_b).can_create();
            let real_a = old(chain_a).next_addr();
            let real_b = old(chain_b).next_addr();
            &&& (occupied ==> {
                &&& r == Err::<(Addr, Addr), DeploymentError>(DeploymentError::AlreadyDeployed)
                &&& *final(chain_a) == *old(chain_a)
                &&& *final(chain_b) == *old(chain_b)
                &&& final(reg)@ == old(reg)@
            })
            &&& (!occupied && !roomy ==> {
                &&& r == Err::<(Addr, Addr), DeploymentError>(DeploymentError::Transaction)
                &&& *final(chain_a) == *old(chain_a)
                &&& *final(chain_b) == *old(chain_b)
                &&& final(reg)@ == old(reg)@
            })
            &&& (!occupied && roomy ==> {
                &&& find(final(reg)@, name_a, old(chain_a).id) == Some(real_a)
                &&& find(final(reg)@, name_b, old(chain_b).id) == Some(real_b)
                &&& (forall|n: u64, c: u64|
                    !(n == name_a && c == old(chain_a).id) && !(n == name_b && c == old(
                        chain_b,
                    ).id) ==> #[trigger] find(final(reg)@, n, c) == find(old(reg)@, n, c))
                &&& final(chain_a).nonce == old(chain_a).nonce + 1
                &&& final(chain_b).nonce == old(chain_b).nonce + 1
                &&& final(chain_a).id == old(chain_a).id
                &&& final(chain_b).id == old(chain_b).id
                &&& (predicted_b == real_b ==> r == Ok::<(Addr, Addr), DeploymentError>(
                    (real_a, real_b),
                ))
                &&& (predicted_b != real_b ==> r == Err::<(Addr, Addr), DeploymentError>(
                    DeploymentError::CircularDeployMismatch {
                        predicted: predicted_b,
                        actual: real_b,
                    },
                ))
            })
        }),
{
    if reg.lookup(name_a, chain_a.id).is_some() || reg.lookup(name_b, chain_b.id).is_some() {
        return Err(DeploymentError::AlreadyDeployed);
    }
    let roomy_a = chain_a.deployer.is_some() && chain_a.nonce < u64::MAX;
    let roomy_b = chain_b.deployer.is_some() && chain_b.nonce < u64::MAX;
    if !(roomy_a && roomy_b) {
        return Err(DeploymentError::Transaction);
    }
    let b_ref = ContractRef::Unresolved(predicted_b);
    let real_a = match chain_a.create_contract() {
        Ok(a) => a,
        Err(e) => {
            return Err(e);
        },
    };
    reg.record(name_a, chain_a.id, real_a);
    let real_b = match chain_b.create_contract() {
        Ok(a) => a,
        Err(e) => {
            return Err(e);
        },
    };
    reg.record(name_b, chain_b.id, real_b);
    match resolve_ref(b_ref, real_b) {
        Ok(_) => Ok((real_a, real_b)),
        Err(e) => Err(e),
    }
}

} // verus!
