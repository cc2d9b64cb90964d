//! The local deployment-state store.
//!
//! A registry records, per contract name and chain, the address of the live
//! deployment.  It is an append-only log in which the newest record for a
//! key wins, so recording a deployment overwrites any earlier one at the
//! level of [`find`], the lookup the contracts are resolved through.

use vstd::prelude::*;

use crate::addr::Addr;

verus! {

/// One persisted deployment record: a contract name, the chain it lives on,
/// and its address there.
#[derive(Clone, Copy, Debug, PartialEq, Eq, Structural)]
pub struct Deployment {
    pub name: u64,
    pub chain: u64,
    pub addr: Addr,
}

/// Looks a name and chain up in a record log; the newest record wins.
pub open spec fn find(s: Seq<Deployment>, name: u64, chain: u64) -> Option<Addr>
    decreases s.len(),
{
    if s.len() == 0 {
        None
    } else if s.last().name == name && s.last().chain == chain {
        Some(s.last().addr)
    } else {
        find(s.drop_last(), name, chain)
    }
}

/// Appending a record changes exactly its own key.
pub proof fn lemma_find_record(s: Seq<Deployment>, e: Deployment, name: u64, chain: u64)
    ensures
        find(s.push(e), name, chain) == if e.name == name && e.chain == chain {
            Some(e.addr)
        } else {
            find(s, name, chain)
        },
{
    assert(s.push(e).drop_last() =~= s);
}

/// A query against a registry with no record for the key.
#[derive(Clone, Copy, Debug, PartialEq, Eq, Structural)]
pub struct NotDeployedError {}

/// The process-local deployment-state store, passed explicitly to every
/// operation that resolves or records a deployment.
pub struct DeploymentRegistry {
    pub records: Vec<Deployment>,
}

impl View for DeploymentRegistry {
    type V = Seq<Deployment>;

    open spec fn view(&self) -> Seq<Deployment> {
        self.records@
    }
}

impl DeploymentRegistry {
    /// An empty store: nothing is deployed.
    pub fn new() -> (r: DeploymentRegistry)
        ensures
            r@ == Seq::<Deployment>::empty(),
    {
        DeploymentRegistry { records: Vec::new() }
    }

    /// Forgets every deployment, as deleting the deployment directory does
    /// before a fresh deploy.
    pub fn clear(&mut self)
        ensures
            final(self)@ == Seq::<Deployment>::empty(),
    {
        self.records = Vec::new();
    }

    /// Records a deployed address for a name and chain, overwriting any
    /// prior deployment for that key.
    pub fn record(&mut self, name: u64, chain: u64, addr: Addr)
        ensures
            final(self)@ == old(self)@.push(Deployment { name, chain, addr }),
            find(final(self)@, name, chain) == Some(addr),
            forall|n: u64, c: u64|
                !(n == name && c == chain) ==> #[trigger] find(final(self)@, n, c) == find(
                    old(self)@,
                    n,
                    c,
                ),
    {
        let e = Deployment { name, chain, addr };
        self.records.push(e);
        proof {
            assert forall|n: u64, c: u64| true implies #[trigger] find(self@, n, c) == (if e.name
                == n && e.chain == c {
                Some(e.addr)
            } else {
                find(old(self)@, n, c)
            }) by {
                lemma_find_record(old(self)@, e, n, c);
            }
        }
    }

    /// Resolves a name and chain to the address of its live deployment, if
    /// any.
    pub fn lookup(&self, name: u64, chain: u64) -> (r: Option<Addr>)
        ensures
            r == find(self@, name, chain),
    {
        let mut i: usize = self.records.len();
        proof {
            assert(self@.subrange(0, self.records.len() as int) =~= self@);
        }
        while i > 0
            invariant
                i <= self.records.len(),
                find(self@, name, chain) == find(self@.subrange(0, i as int), name, chain),
            decreases i,
        {
            let e = &self.records[i - 1];
            proof {
                let cur = self@.subrange(0, i as int);
                assert(cur.last() == self@[i - 1]);
                assert(cur.drop_last() =~= self@.subrange(0, i - 1));
            }
            if e.name == name && e.chain == chain {
                return Some(e.addr);
            }
            i = i - 1;
        }
        proof {
            assert(self@.subrange(0, 0) =~= Seq::<Deployment>::empty());
        }
        None
    }

    /// Resolves a deployed contract, failing if nothing is recorded for the
    /// key: the caller must deploy first.
    pub fn deployed(&self, name: u64, chain: u64) -> (r: Result<Addr, NotDeployedError>)
        ensures
            r matches Ok(a) ==> find(self@, name, chain) == Some(a),
            r is Err <==> find(self@, name, chain) is None,
    {
        match self.lookup(name, chain) {
            Some(a) => Ok(a),
            None => Err(NotDeployedError {}),
        }
    }
}

/// A deployment's address as a sequence: one element when resolved,
/// nothing otherwise.
pub open spec fn opt_addr_seq(o: Option<Addr>) -> Seq<Addr> {
    match o {
        Some(a) => seq![a],
        None => Seq::<Addr>::empty(),
    }
}

/// The enumerated account list of one chain, as the receiver-index form
/// of [`crate::addr::to_address`] sees it: the chain's own accounts,
/// then the chain's own contract when deployed there, then the paired
/// contract's stand-in on this chain when deployed.
pub fn chain_accounts(
    base: &Vec<Addr>,
    reg: &DeploymentRegistry,
    own: u64,
    paired: u64,
    chain: u64,
) -> (r: Vec<Addr>)
    ensures
        r@ == base@ + opt_addr_seq(find(reg@, own, chain)) + opt_addr_seq(
            find(reg@, paired, chain),
        ),
{
    let mut r: Vec<Addr> = Vec::new();
    let mut i: usize = 0;
    while i < base.len()
        invariant
            i <= base@.len(),
            r@ == base@.subrange(0, i as int),
        decreases base@.len() - i,
    {
        r.push(base[i]);
        i = i + 1;
    }
    proof {
        assert(base@.subrange(0, base@.len() as int) =~= base@);
    }
    if let Some(a) = reg.lookup(own, chain) {
        r.push(a);
    }
    if let Some(a) = reg.lookup(paired, chain) {
        r.push(a);
    }
    proof {
        assert(r@ =~= base@ + opt_addr_seq(find(reg@, own, chain)) + opt_addr_seq(
            find(reg@, paired, chain),
        ));
    }
    r
}

} // verus!
