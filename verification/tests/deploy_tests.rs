use relaykit::addr::{Addr, AddressResolutionError};
use relaykit::deploy::{
    deploy_contract, deploy_pair_predicted, deploy_pair_shim_first, ensure_deployed, resolve_ref,
    ChainModel, ContractRef, DeploymentError,
};
use relaykit::registry::{chain_accounts, DeploymentRegistry};

const SENDER: u64 = 1;
const RECEIVER: u64 = 2;

fn chain(id: u64, deployer: u64) -> ChainModel {
    ChainModel { id, deployer: Some(deployer), nonce: 0 }
}

fn addr_of(deployer: u64, nonce: u64) -> Addr {
    Addr { head: 0, tail: ((deployer as u128) << 64) | nonce as u128 }
}

#[test]
fn deploy_records_address() {
    let mut c = chain(1, 0xaa);
    let mut reg = DeploymentRegistry::new();
    let a = deploy_contract(&mut c, &mut reg, SENDER).unwrap();
    assert_eq!(a, addr_of(0xaa, 0));
    assert_eq!(reg.lookup(SENDER, 1), Some(a));
    assert_eq!(c.nonce, 1);
}

#[test]
fn redeploy_without_clearing_fails() {
    let mut c = chain(1, 0xaa);
    let mut reg = DeploymentRegistry::new();
    let a = deploy_contract(&mut c, &mut reg, SENDER).unwrap();
    let second = deploy_contract(&mut c, &mut reg, SENDER);
    assert_eq!(second, Err(DeploymentError::AlreadyDeployed));
    assert_eq!(reg.lookup(SENDER, 1), Some(a));
    assert_eq!(c.nonce, 1);
}

#[test]
fn redeploy_after_clearing_succeeds() {
    let mut c = chain(1, 0xaa);
    let mut reg = DeploymentRegistry::new();
    deploy_contract(&mut c, &mut reg, SENDER).unwrap();
    reg.clear();
    let again = deploy_contract(&mut c, &mut reg, SENDER).unwrap();
    assert_eq!(again, addr_of(0xaa, 1));
}

#[test]
fn ensure_deployed_reuses_existing() {
    let mut c = chain(1, 0xaa);
    let mut reg = DeploymentRegistry::new();
    let a = deploy_contract(&mut c, &mut reg, SENDER).unwrap();
    let b = ensure_deployed(&mut c, &mut reg, SENDER).unwrap();
    assert_eq!(a, b);
    assert_eq!(c.nonce, 1);
}

#[test]
fn recording_twice_overwrites_the_key() {
    let mut reg = DeploymentRegistry::new();
    let a = addr_of(0xaa, 0);
    let b = addr_of(0xbb, 5);
    reg.record(SENDER, 1, a);
    reg.record(SENDER, 1, b);
    assert_eq!(reg.lookup(SENDER, 1), Some(b));
    reg.record(RECEIVER, 1, a);
    assert_eq!(reg.lookup(SENDER, 1), Some(b));
    assert_eq!(reg.lookup(RECEIVER, 1), Some(a));
}

#[test]
fn deployed_lookup_requires_deploy_first() {
    let reg = DeploymentRegistry::new();
    assert!(reg.deployed(SENDER, 1).is_err());
}

#[test]
fn predict_addr_needs_deployer() {
    let c = ChainModel { id: 1, deployer: None, nonce: 0 };
    assert_eq!(c.predict_addr(), Err(AddressResolutionError::DeployerUnknown));
}

#[test]
fn fresh_prediction_matches_real_address() {
    let mut ca = chain(1, 0xaa);
    let mut cb = chain(2, 0xbb);
    let mut reg = DeploymentRegistry::new();
    let predicted = cb.predict_addr().unwrap();
    let (a, b) = deploy_pair_predicted(&mut ca, &mut cb, &mut reg, SENDER, RECEIVER, predicted)
        .unwrap();
    assert_eq!(b, predicted);
    assert_eq!(a, addr_of(0xaa, 0));
    assert_eq!(reg.lookup(SENDER, 1), Some(a));
    assert_eq!(reg.lookup(RECEIVER, 2), Some(b));
}

#[test]
fn stale_prediction_raises_mismatch() {
    let mut ca = chain(1, 0xaa);
    let mut cb = chain(2, 0xbb);
    let mut reg = DeploymentRegistry::new();
    let predicted = cb.predict_addr().unwrap();
    // another transaction slips in on the target chain
    cb.create_contract().unwrap();
    let r = deploy_pair_predicted(&mut ca, &mut cb, &mut reg, SENDER, RECEIVER, predicted);
    assert_eq!(
        r,
        Err(DeploymentError::CircularDeployMismatch {
            predicted,
            actual: addr_of(0xbb, 1),
        })
    );
}

#[test]
fn resolve_ref_checks_prediction() {
    let good = Addr { head: 0, tail: 7 };
    let bad = Addr { head: 0, tail: 8 };
    assert_eq!(
        resolve_ref(ContractRef::Unresolved(good), good),
        Ok(ContractRef::Resolved(good))
    );
    assert_eq!(
        resolve_ref(ContractRef::Unresolved(bad), good),
        Err(DeploymentError::CircularDeployMismatch { predicted: bad, actual: good })
    );
}

#[test]
fn shim_first_deploys_both_sides() {
    let mut ca = chain(1, 0xaa);
    let mut cb = chain(2, 0xbb);
    let mut reg = DeploymentRegistry::new();
    let (a, b) = deploy_pair_shim_first(&mut ca, &mut cb, &mut reg, SENDER, RECEIVER).unwrap();
    // the stand-in for the receiver is created first on the sender's chain
    assert_eq!(reg.lookup(RECEIVER, 1), Some(addr_of(0xaa, 0)));
    assert_eq!(a, addr_of(0xaa, 1));
    // then the sender's stand-in and the real receiver on the other chain
    assert_eq!(reg.lookup(SENDER, 2), Some(addr_of(0xbb, 0)));
    assert_eq!(b, addr_of(0xbb, 1));
    assert_eq!(reg.lookup(SENDER, 1), Some(a));
    assert_eq!(reg.lookup(RECEIVER, 2), Some(b));
    assert_eq!((ca.nonce, cb.nonce), (2, 2));
}

#[test]
fn account_list_appends_deployed_contracts() {
    let mut ca = chain(1, 0xaa);
    let mut cb = chain(2, 0xbb);
    let mut reg = DeploymentRegistry::new();
    let base = vec![addr_of(0x11, 0), addr_of(0x22, 0)];
    // nothing deployed: the list is just the chain's accounts
    assert_eq!(chain_accounts(&base, &reg, SENDER, RECEIVER, 1), base);
    let (a, _b) = deploy_pair_shim_first(&mut ca, &mut cb, &mut reg, SENDER, RECEIVER).unwrap();
    let listed = chain_accounts(&base, &reg, SENDER, RECEIVER, 1);
    // the sender contract, then the receiver's stand-in on this chain
    assert_eq!(listed, vec![base[0], base[1], a, addr_of(0xaa, 0)]);
}

#[test]
fn shim_first_guards_live_deployments() {
    let mut ca = chain(1, 0xaa);
    let mut cb = chain(2, 0xbb);
    let mut reg = DeploymentRegistry::new();
    deploy_pair_shim_first(&mut ca, &mut cb, &mut reg, SENDER, RECEIVER).unwrap();
    let again = deploy_pair_shim_first(&mut ca, &mut cb, &mut reg, SENDER, RECEIVER);
    assert_eq!(again, Err(DeploymentError::AlreadyDeployed));
}
