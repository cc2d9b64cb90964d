//! The token-bridge relay pattern.
//!
//! A token-sender contract on one chain accepts native-currency payments
//! and asks the bridged-token contract on the paired chain to mint tokens
//! to a recipient, less a fee of one part in `fee_inverse`.  Burning
//! bridged tokens requests the release of the same amount of native
//! currency back on the sending chain.  The relayer delivers both kinds of
//! request eventually and unordered, so each is queued until a relay step
//! consumes it.

use vstd::prelude::*;

use crate::addr::Addr;
use crate::book::AccountBook;
use crate::errors::TransactionError;

verus! {

/// The amount minted for a payment: the payment less its fee, with the
/// division truncating toward zero.
pub open spec fn spec_minted_amount(payment_wei: u64, fee_inverse: u64) -> int {
    payment_wei - payment_wei / fee_inverse
}

/// Computes the minted amount for a payment: for every `payment_wei` and
/// nonzero `fee_inverse`, exactly `payment_wei - payment_wei / fee_inverse`
/// with integer truncation.
pub fn minted_amount(payment_wei: u64, fee_inverse: u64) -> (r: u64)
    requires
        fee_inverse >= 1,
    ensures
        r == spec_minted_amount(payment_wei, fee_inverse),
{
    proof {
        assert(payment_wei / fee_inverse <= payment_wei) by (nonlinear_arith)
            requires
                fee_inverse >= 1,
        ;
    }
    payment_wei - payment_wei / fee_inverse
}

/// One queued relay request: credit `amount` to `to` on the other chain.
#[derive(Clone, Copy, Debug, PartialEq, Eq, Structural)]
pub struct PendingTransfer {
    pub to: Addr,
    pub amount: u64,
}

/// The sum of the queued amounts.
pub open spec fn pending_total(s: Seq<PendingTransfer>) -> int
    decreases s.len(),
{
    if s.len() == 0 {
        0
    } else {
        pending_total(s.drop_last()) + s.last().amount
    }
}

/// Queued amounts are never negative in sum.
proof fn lemma_pending_total_nonneg(s: Seq<PendingTransfer>)
    ensures
        pending_total(s) >= 0,
    decreases s.len(),
{
    if s.len() > 0 {
        lemma_pending_total_nonneg(s.drop_last());
    }
}

/// Both ledgers of the bridge, the relayer's queues between them, and the
/// bridged supply.
pub struct TokenBridgeState {
    /// Fee divisor: one part in `fee_inverse` of each payment is kept.
    pub fee_inverse: u64,
    /// Native currency locked in the token-sender contract.
    pub locked: u64,
    /// Native balances on the sending chain.
    pub native: AccountBook,
    /// Bridged-token balances on the receiving chain.
    pub fbb: AccountBook,
    /// Total bridged tokens in circulation.
    pub supply: u64,
    /// Mint requests the relayer has observed but not yet delivered.
    pub pending_mints: Vec<PendingTransfer>,
    /// Release requests the relayer has observed but not yet delivered.
    pub pending_releases: Vec<PendingTransfer>,
}

impl TokenBridgeState {
    /// The bridge invariant.
    ///
    /// Balances are well-formed books; the supply equals the tokens held
    /// across balances; supply and undelivered requests together never
    /// exceed the native currency locked in the token sender; and the
    /// sending chain's currency, in balances and locked together, fits the
    /// ledger's arithmetic.
    pub open spec fn wf(self) -> bool {
        &&& self.fee_inverse >= 1
        &&& self.native.wf()
        &&& self.fbb.wf()
        &&& self.supply == self.fbb.spec_total()
        &&& self.supply + pending_total(self.pending_mints@) + pending_total(
            self.pending_releases@,
        ) <= self.locked
        &&& self.native.spec_total() + self.locked <= u64::MAX
    }

    /// A freshly deployed bridge: no tokens minted, nothing locked,
    /// nothing queued, and the given native balances.
    pub fn new(fee_inverse: u64, native: AccountBook) -> (r: TokenBridgeState)
        requires
            fee_inverse >= 1,
            native.wf(),
            native.spec_total() <= u64::MAX,
        ensures
            r.wf(),
            r.fee_inverse == fee_inverse,
            r.locked == 0,
            r.supply == 0,
            r.native == native,
            r.fbb.entries@ == Seq::<(Addr, u64)>::empty(),
            r.pending_mints@ == Seq::<PendingTransfer>::empty(),
            r.pending_releases@ == Seq::<PendingTransfer>::empty(),
    {
        TokenBridgeState {
            fee_inverse,
            locked: 0,
            native,
            fbb: AccountBook::new(),
            supply: 0,
            pending_mints: Vec::new(),
            pending_releases: Vec::new(),
        }
    }

    /// Reads the native currency held by the token-sender contract.
    pub fn sender_balance(&self) -> (r: u64)
        ensures
            r == self.locked,
    {
        self.locked
    }

    /// Reads the bridged-token balance of `a`.
    pub fn fbb_balance_of(&self, a: Addr) -> (r: u64)
        requires
            self.wf(),
        ensures
            r == self.fbb.spec_bal(a),
    {
        self.fbb.balance_of(a)
    }

    /// Reads the native balance of `a`.
    pub fn native_balance_of(&self, a: Addr) -> (r: u64)
        requires
            self.wf(),
        ensures
            r == self.native.spec_bal(a),
    {
        self.native.balance_of(a)
    }

    /// Buys bridged tokens: `payer` pays `payment_wei` native currency
    /// into the token sender, which asks the relayer to mint the payment
    /// less the fee to `fbb_receiver`.
    ///
    /// The ledger rejects a payment the payer cannot cover; nothing else
    /// fails.
    pub fn buy(&mut self, payer: Addr, payment_wei: u64, fbb_receiver: Addr) -> (r: Result<
        (),
        TransactionError,
    >)
        requires
            old(self).wf(),
        ensures
            final(self).wf(),
            payment_wei <= old(self).native.spec_bal(payer) ==> {
                &&& r is Ok
                &&& final(self).native.spec_bal(payer) == old(self).native.spec_bal(payer)
                    - payment_wei
                &&& forall|b: Addr|
                    b != payer ==> final(self).native.spec_bal(b) == old(self).native.spec_bal(b)
                &&& final(self).locked == old(self).locked + payment_wei
                &&& final(self).pending_mints@ == old(self).pending_mints@.push(
                    PendingTransfer {
                        to: fbb_receiver,
                        amount: spec_minted_amount(payment_wei, old(self).fee_inverse) as u64,
                    },
                )
                &&& final(self).pending_releases@ == old(self).pending_releases@
                &&& final(self).supply == old(self).supply
                &&& final(self).fbb == old(self).fbb
                &&& final(self).fee_inverse == old(self).fee_inverse
            },
            payment_wei > old(self).native.spec_bal(payer) ==> {
                &&& r is Err
                &&& *final(self) == *old(self)
            },
    {
        proof {
            bal_le_total_for(&self.native, payer);
        }
        let covered = {
            let b = self.native.balance_of(payer);
            payment_wei <= b
        };
        if !covered {
            return Err(TransactionError {});
        }
        let minted = minted_amount(payment_wei, self.fee_inverse);
        let ghost pre = *self;
        match self.native.debit(payer, payment_wei) {
            Ok(()) => {},
            Err(_) => {
                proof {
                    assert(false);
                }
            },
        }
        self.locked = self.locked + payment_wei;
        self.pending_mints.push(PendingTransfer { to: fbb_receiver, amount: minted });
        proof {
            assert(self.pending_mints@.drop_last() =~= pre.pending_mints@);
            lemma_pending_total_nonneg(pre.pending_mints@);
            lemma_pending_total_nonneg(pre.pending_releases@);
        }
        Ok(())
    }

    /// Sells bridged tokens back: `seller` burns `amount_fbb` tokens,
    /// and the relayer is asked to release the same amount of native
    /// currency, fee-free, to `wei_receiver`.
    ///
    /// The ledger rejects a burn the seller's balance cannot cover;
    /// nothing else fails.
    pub fn sell(&mut self, seller: Addr, amount_fbb: u64, wei_receiver: Addr) -> (r: Result<
        (),
        TransactionError,
    >)
        requires
            old(self).wf(),
        ensures
            final(self).wf(),
            amount_fbb <= old(self).fbb.spec_bal(seller) ==> {
                &&& r is Ok
                &&& final(self).fbb.spec_bal(seller) == old(self).fbb.spec_bal(seller) - amount_fbb
                &&& forall|b: Addr|
                    b != seller ==> final(self).fbb.spec_bal(b) == old(self).fbb.spec_bal(b)
                &&& final(self).supply == old(self).supply - amount_fbb
                &&& final(self).pending_releases@ == old(self).pending_releases@.push(
                    PendingTransfer { to: wei_receiver, amount: amount_fbb },
                )
                &&& final(self).pending_mints@ == old(self).pending_mints@
                &&& final(self).locked == old(self).locked
                &&& final(self).native == old(self).native
                &&& final(self).fee_inverse == old(self).fee_inverse
            },
            amount_fbb > old(self).fbb.spec_bal(seller) ==> {
                &&& r is Err
                &&& *final(self) == *old(self)
            },
    {
        proof {
            bal_le_total_for(&self.fbb, seller);
        }
        let covered = {
            let b = self.fbb.balance_of(seller);
            amount_fbb <= b
        };
        if !covered {
            return Err(TransactionError {});
        }
        let ghost pre = *self;
        match self.fbb.debit(seller, amount_fbb) {
            Ok(()) => {},
            Err(_) => {
                proof {
                    assert(false);
                }
            },
        }
        self.supply = self.supply - amount_fbb;
        self.pending_releases.push(PendingTransfer { to: wei_receiver, amount: amount_fbb });
        proof {
            assert(self.pending_releases@.drop_last() =~= pre.pending_releases@);
            lemma_pending_total_nonneg(pre.pending_mints@);
            lemma_pending_total_nonneg(pre.pending_releases@);
        }
        Ok(())
    }

    /// One relay step on the mint queue: some undelivered mint request is
    /// taken and its amount minted to its recipient.  Returns the request
    /// it delivered, or nothing when the queue is empty.
    pub fn relay_mint(&mut self) -> (r: Option<PendingTransfer>)
        requires
            old(self).wf(),
        ensures
            final(self).wf(),
            old(self).pending_mints@.len() == 0 ==> {
                &&& r is None
                &&& *final(self) == *old(self)
            },
            old(self).pending_mints@.len() > 0 ==> {
                let m = old(self).pending_mints@.last();
                &&& r == Some(m)
                &&& final(self).pending_mints@ == old(self).pending_mints@.drop_last()
                &&& final(self).supply == old(self).supply + m.amount
                &&& final(self).fbb.spec_bal(m.to) == old(self).fbb.spec_bal(m.to) + m.amount
                &&& forall|b: Addr|
                    b != m.to ==> final(self).fbb.spec_bal(b) == old(self).fbb.spec_bal(b)
                &&& final(self).pending_releases@ == old(self).pending_releases@
                &&& final(self).locked == old(self).locked
                &&& final(self).native == old(self).native
                &&& final(self).fee_inverse == old(self).fee_inverse
            },
    {
        proof {
            lemma_pending_total_nonneg(self.pending_mints@);
            lemma_pending_total_nonneg(self.pending_releases@);
            if self.pending_mints@.len() > 0 {
                lemma_pending_total_nonneg(self.pending_mints@.drop_last());
                bal_le_total_for(&self.fbb, self.pending_mints@.last().to);
            }
        }
        if self.pending_mints.len() == 0 {
            return None;
        }
        match self.pending_mints.pop() {
            Some(m) => {
                match self.fbb.credit(m.to, m.amount) {
                    Ok(()) => {},
                    Err(_) => {
                        proof {
                            assert(false);
                        }
                    },
                }
                self.supply = self.supply + m.amount;
                Some(m)
            },
            None => None,
        }
    }

    /// One relay step on the release queue: some undelivered release
    /// request is taken, the locked native currency shrinks by its amount,
    /// and its recipient is credited.  Returns the request it delivered,
    /// or nothing when the queue is empty.
    pub fn relay_release(&mut self) -> (r: Option<PendingTransfer>)
        requires
            old(self).wf(),
        ensures
            final(self).wf(),
            old(self).pending_releases@.len() == 0 ==> {
                &&& r is None
                &&& *final(self) == *old(self)
            },
            old(self).pending_releases@.len() > 0 ==> {
                let m = old(self).pending_releases@.last();
                &&& r == Some(m)
                &&& final(self).pending_releases@ == old(self).pending_releases@.drop_last()
                &&& final(self).locked == old(self).locked - m.amount
                &&& final(self).native.spec_bal(m.to) == old(self).native.spec_bal(m.to) + m.amount
                &&& forall|b: Addr|
                    b != m.to ==> final(self).native.spec_bal(b) == old(self).native.spec_bal(b)
                &&& final(self).pending_mints@ == old(self).pending_mints@
                &&& final(self).supply == old(self).supply
                &&& final(self).fbb == old(self).fbb
                &&& final(self).fee_inverse == old(self).fee_inverse
            },
    {
        proof {
            lemma_pending_total_nonneg(self.pending_mints@);
            lemma_pending_total_nonneg(self.pending_releases@);
            if self.pending_releases@.len() > 0 {
                lemma_pending_total_nonneg(self.pending_releases@.drop_last());
                bal_le_total_for(&self.native, self.pending_releases@.last().to);
            }
        }
        if self.pending_releases.len() == 0 {
            return None;
        }
        match self.pending_releases.pop() {
            Some(m) => {
                match self.native.credit(m.to, m.amount) {
                    Ok(()) => {},
                    Err(_) => {
                        proof {
                            assert(false);
                        }
                    },
                }
                self.locked = self.locked - m.amount;
                Some(m)
            },
            None => None,
        }
    }
}

impl TokenBridgeState {
    /// Buys bridged tokens and sells them straight back.
    ///
    /// Starting from a quiescent bridge, `payer` pays `amount_wei`; the
    /// relayer mints the payment less the fee to `fbb_receiver`, who sells
    /// all of the newly minted tokens back; the relayer releases them as
    /// native currency to `wei_receiver`.  Up to the fee kept on the
    /// buying leg, the currency comes back: the recipient gains exactly
    /// the minted amount, and the token sender's balance ends below its
    /// post-payment level by exactly the sold amount.
    pub fn round_trip(
        &mut self,
        payer: Addr,
        amount_wei: u64,
        fbb_receiver: Addr,
        wei_receiver: Addr,
    ) -> (r: Result<u64, TransactionError>)
        requires
            old(self).wf(),
            old(self).pending_mints@.len() == 0,
            old(self).pending_releases@.len() == 0,
        ensures
            final(self).wf(),
            amount_wei <= old(self).native.spec_bal(payer) ==> {
                let minted = spec_minted_amount(amount_wei, old(self).fee_inverse);
                &&& r == Ok::<u64, TransactionError>(minted as u64)
                &&& (wei_receiver != payer ==> {
                    &&& final(self).native.spec_bal(wei_receiver) == old(self).native.spec_bal(
                        wei_receiver,
                    ) + minted
                    &&& final(self).native.spec_bal(payer) == old(self).native.spec_bal(payer)
                        - amount_wei
                })
                &&& (wei_receiver == payer ==> final(self).native.spec_bal(payer) == old(
                    self,
                ).native.spec_bal(payer) - amount_wei + minted)
                &&& (forall|b: Addr|
                    b != payer && b != wei_receiver ==> final(self).native.spec_bal(b) == old(
                        self,
                    ).native.spec_bal(b))
                &&& final(self).locked == old(self).locked + amount_wei - minted
                &&& final(self).fbb.spec_bal(fbb_receiver) == old(self).fbb.spec_bal(fbb_receiver)
                &&& final(self).supply == old(self).supply
                &&& final(self).pending_mints@.len() == 0
                &&& final(self).pending_releases@.len() == 0
            },
            amount_wei > old(self).native.spec_bal(payer) ==> {
                &&& r is Err
                &&& *final(self) == *old(self)
            },
    {
        let covered = {
            let b = self.native.balance_of(payer);
            amount_wei <= b
        };
        if !covered {
            return Err(TransactionError {});
        }
        let minted = minted_amount(amount_wei, self.fee_inverse);
        match self.buy(payer, amount_wei, fbb_receiver) {
            Ok(()) => {},
            Err(_) => {
                proof {
                    assert(false);
                }
            },
        }
        let _delivered_mint = self.relay_mint();
        match self.sell(fbb_receiver, minted, wei_receiver) {
            Ok(()) => {},
            Err(_) => {
                proof {
                    assert(false);
                }
            },
        }
        let _delivered_release = self.relay_release();
        Ok(minted)
    }
}

/// Restates [`crate::book::lemma_bal_le_total`] on a book.
proof fn bal_le_total_for(book: &AccountBook, a: Addr)
    requires
        book.wf(),
    ensures
        book.spec_bal(a) <= book.spec_total(),
        book.spec_total() >= 0,
{
    crate::book::lemma_bal_le_total(book.entries@, a);
}

/// Law: the bridged-token supply never exceeds the native currency locked
/// in the token sender; the bridge keeps full backing after fees.
pub proof fn lemma_supply_backed(b: TokenBridgeState)
    requires
        b.wf(),
    ensures
        b.supply <= b.locked,
{
    lemma_pending_total_nonneg(b.pending_mints@);
    lemma_pending_total_nonneg(b.pending_releases@);
}

} // verus!
