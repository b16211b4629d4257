//! The withdrawal transition: the ordered checks, the public inputs of the
//! proof, the one-time use of a nullifier and the split of the deposit
//! between relayer and recipient.
//!
//! Hashing the two account identifiers and verifying the proof are the
//! caller's part. The caller asks [`Contract::check_withdraw`] first, hashes
//! and verifies over [`public_inputs`] only if the request passed, and hands
//! the verifier's answer to [`Contract::withdraw`], which repeats the checks
//! and decides.

use vstd::prelude::*;
use crate::field::U256;
use crate::contract::{Contract, PoolState};

verus! {

/// A request to withdraw one deposit.
#[derive(Clone, Debug, PartialEq, Eq)]
pub struct WithdrawRequest {
    /// Root of the tree of commitments that the proof was made against.
    pub root: U256,
    /// Nullifier of the deposit being withdrawn.
    pub nullifier_hash: U256,
    /// Account that receives the deposit less the fee.
    pub recipient: String,
    /// Account that receives the fee.
    pub relayer: String,
    /// Part of the deposit that goes to the relayer.
    pub fee: U256,
    /// Value bound into the proof and passed through unchanged.
    pub refund: U256,
    /// Root of the tree of allowed accounts that the proof was made against.
    pub whitelist_root: U256,
}

/// Why a withdrawal is rejected. A rejected withdrawal changes nothing.
#[derive(Clone, Copy, Debug, PartialEq, Eq, Structural)]
pub enum WithdrawError {
    /// The fee is the whole deposit or more.
    FeeExceedsDeposit,
    /// The nullifier has been used before.
    NullifierAlreadySpent,
    /// The root is not among the retained roots of the tree of commitments.
    UnknownCommitmentRoot,
    /// The root is not among the retained roots of the tree of allowed
    /// accounts.
    UnknownWhitelistRoot,
    /// The verifier did not accept the proof for the public inputs.
    InvalidProof,
}

/// An amount owed to an account.
#[derive(Clone, Debug, PartialEq, Eq)]
pub struct Transfer {
    pub account: String,
    pub amount: u128,
}

/// What an accepted withdrawal asks the caller to do: announce the nullifier,
/// then pay the relayer, if a fee is due, and the recipient.
#[derive(Clone, Debug, PartialEq, Eq)]
pub struct Disbursement {
    pub nullifier: U256,
    pub to_relayer: Option<Transfer>,
    pub to_recipient: Transfer,
}

/// Number of public inputs of the withdrawal proof.
pub const PUBLIC_INPUTS: usize = 7;

/// The public inputs of the proof, in the order the circuit fixes.
pub open spec fn spec_public_inputs(
    request: WithdrawRequest,
    recipient_hash: U256,
    relayer_hash: U256,
) -> Seq<U256> {
    seq![
        request.root,
        request.nullifier_hash,
        recipient_hash,
        relayer_hash,
        request.fee,
        request.refund,
        request.whitelist_root,
    ]
}

/// The public inputs of the proof for `request`, given the hashes of its two
/// accounts: commitment root, nullifier, recipient hash, relayer hash, fee,
/// refund, whitelist root.
pub fn public_inputs(request: &WithdrawRequest, recipient_hash: U256, relayer_hash: U256) -> (r:
    Vec<U256>)
    ensures
        r@ == spec_public_inputs(*request, recipient_hash, relayer_hash),
        r.len() == PUBLIC_INPUTS,
{
    let mut inputs: Vec<U256> = Vec::new();
    inputs.push(request.root);
    inputs.push(request.nullifier_hash);
    inputs.push(recipient_hash);
    inputs.push(relayer_hash);
    inputs.push(request.fee);
    inputs.push(request.refund);
    inputs.push(request.whitelist_root);
    inputs
}

impl PoolState {
    /// The first check that `request` fails, before any proof is looked at:
    /// the fee, then the nullifier, then the commitment root, then the
    /// whitelist root.
    pub open spec fn rejection(self, request: WithdrawRequest) -> Option<WithdrawError> {
        if !(request.fee@ < self.deposit_value) {
            Some(WithdrawError::FeeExceedsDeposit)
        } else if self.spent.contains(request.nullifier_hash) {
            Some(WithdrawError::NullifierAlreadySpent)
        } else if !self.commitments.knows(request.root) {
            Some(WithdrawError::UnknownCommitmentRoot)
        } else if !self.whitelist.tree.knows(request.whitelist_root) {
            Some(WithdrawError::UnknownWhitelistRoot)
        } else {
            None
        }
    }

    /// The payments of an accepted withdrawal: the fee to the relayer unless
    /// it is zero, the rest of the deposit to the recipient.
    pub open spec fn payout(self, request: WithdrawRequest) -> Disbursement {
        Disbursement {
            nullifier: request.nullifier_hash,
            to_relayer: if request.fee@ > 0 {
                Some(Transfer { account: request.relayer, amount: request.fee@ as u128 })
            } else {
                None
            },
            to_recipient: Transfer {
                account: request.recipient,
                amount: (self.deposit_value - request.fee@) as u128,
            },
        }
    }

    /// What a withdrawal returns, given the verifier's answer.
    pub open spec fn outcome(self, request: WithdrawRequest, proof_accepted: bool) -> Result<
        Disbursement,
        WithdrawError,
    > {
        match self.rejection(request) {
            Some(e) => Err(e),
            None => if proof_accepted {
                Ok(self.payout(request))
            } else {
                Err(WithdrawError::InvalidProof)
            },
        }
    }

    /// The pool after a withdrawal: with the nullifier spent if it was
    /// accepted, unchanged if it was rejected.
    pub open spec fn after(self, request: WithdrawRequest, proof_accepted: bool) -> PoolState {
        if self.outcome(request, proof_accepted) is Ok {
            PoolState { spent: self.spent.insert(request.nullifier_hash), ..self }
        } else {
            self
        }
    }
}

impl Contract {
    /// Runs the checks that come before the proof, in their order, and names
    /// the first that fails.
    pub fn check_withdraw(&self, request: &WithdrawRequest) -> (r: Result<(), WithdrawError>)
        ensures
            r == (match self@.rejection(*request) {
                Some(e) => Err::<(), WithdrawError>(e),
                None => Ok::<(), WithdrawError>(()),
            }),
    {
        let deposit: U256 = U256::from_u128(self.deposit_value);
        if !request.fee.lt(&deposit) {
            return Err(WithdrawError::FeeExceedsDeposit);
        }
        if self.nullifier.contains(&request.nullifier_hash) {
            return Err(WithdrawError::NullifierAlreadySpent);
        }
        if !self.commitments.is_known_valid_root(request.root) {
            return Err(WithdrawError::UnknownCommitmentRoot);
        }
        if !self.whitelist.is_known_valid_root(request.whitelist_root) {
            return Err(WithdrawError::UnknownWhitelistRoot);
        }
        Ok(())
    }

    /// Decides a withdrawal. `proof_accepted` is the verifier's answer for the
    /// public inputs of `request`. The checks run in their order and the first
    /// that fails rejects the request with nothing changed; the proof comes
    /// last. An accepted request spends its nullifier, and the payments it
    /// returns are for the caller to make afterwards: whether they succeed
    /// does not touch the pool again.
    pub fn withdraw(&mut self, request: WithdrawRequest, proof_accepted: bool) -> (r: Result<
        Disbursement,
        WithdrawError,
    >)
        ensures
            r == old(self)@.outcome(request, proof_accepted),
            final(self)@ == old(self)@.after(request, proof_accepted),
            r is Err ==> *final(self) == *old(self),
            final(self).commitments == old(self).commitments,
            final(self).whitelist == old(self).whitelist,
            final(self).owner == old(self).owner,
    {
        match self.check_withdraw(&request) {
            Err(e) => {
                return Err(e);
            },
            Ok(()) => {},
        }
        if !proof_accepted {
            return Err(WithdrawError::InvalidProof);
        }
        self.nullifier.insert(request.nullifier_hash);
        let fee: u128 = request.fee.lo;
        let to_relayer: Option<Transfer> = if !request.fee.is_zero() {
            Some(Transfer { account: request.relayer, amount: fee })
        } else {
            None
        };
        let to_recipient = Transfer {
            account: request.recipient,
            amount: self.deposit_value - fee,
        };
        Ok(Disbursement { nullifier: request.nullifier_hash, to_relayer, to_recipient })
    }
}

/// A nullifier is spent once. A request that passes the checks and whose
/// proof the verifier accepts is paid out and spends its nullifier. From then
/// on, in every state of the pool that still holds what the registry held
/// then, a request with the same nullifier is rejected and changes nothing,
/// whatever its roots and whatever the verifier says. The rejection names the
/// spent nullifier unless the fee of the later request already fails the
/// check before it.
pub proof fn lemma_no_replay(
    pool: PoolState,
    first: WithdrawRequest,
    later: PoolState,
    second: WithdrawRequest,
    proof_accepted: bool,
)
    requires
        pool.rejection(first) is None,
        pool.after(first, true).spent.subset_of(later.spent),
        second.nullifier_hash == first.nullifier_hash,
    ensures
        pool.outcome(first, true) == Ok::<Disbursement, WithdrawError>(pool.payout(first)),
        pool.after(first, true).spent == pool.spent.insert(first.nullifier_hash),
        later.outcome(second, proof_accepted) is Err,
        later.after(second, proof_accepted) == later,
        second.fee@ < later.deposit_value ==> later.outcome(second, proof_accepted) == Err::<
            Disbursement,
            WithdrawError,
        >(WithdrawError::NullifierAlreadySpent),
{
}

/// A withdrawal never takes a nullifier out of the registry.
pub proof fn lemma_spent_stays_spent(
    pool: PoolState,
    request: WithdrawRequest,
    proof_accepted: bool,
)
    ensures
        pool.spent.subset_of(pool.after(request, proof_accepted).spent),
        pool.after(request, proof_accepted).commitments == pool.commitments,
        pool.after(request, proof_accepted).whitelist == pool.whitelist,
        pool.after(request, proof_accepted).deposit_value == pool.deposit_value,
{
}

/// A fee equal to the deposit is rejected as such, whatever else holds. A fee
/// one unit below the deposit passes the fee check; if the other checks pass
/// and the proof is accepted, the recipient is owed that one unit and the
/// relayer, unless the fee is zero, the fee.
pub proof fn lemma_fee_boundary(pool: PoolState, request: WithdrawRequest, proof_accepted: bool)
    ensures
        request.fee@ == pool.deposit_value ==> pool.outcome(request, proof_accepted) == Err::<
            Disbursement,
            WithdrawError,
        >(WithdrawError::FeeExceedsDeposit),
        request.fee@ + 1 == pool.deposit_value ==> pool.rejection(request)
            != Some(WithdrawError::FeeExceedsDeposit),
        request.fee@ + 1 == pool.deposit_value && pool.rejection(request) is None && proof_accepted
            ==> pool.outcome(request, proof_accepted) == Ok::<Disbursement, WithdrawError>(
            Disbursement {
                nullifier: request.nullifier_hash,
                to_relayer: if pool.deposit_value == 1 {
                    None
                } else {
                    Some(
                        Transfer {
                            account: request.relayer,
                            amount: (pool.deposit_value - 1) as u128,
                        },
                    )
                },
                to_recipient: Transfer { account: request.recipient, amount: 1 },
            },
        ),
{
}

/// A request whose nullifier is spent is rejected for that, or for its fee,
/// and never for its roots or its proof.
pub proof fn lemma_spent_before_proof(
    pool: PoolState,
    request: WithdrawRequest,
    proof_accepted: bool,
)
    requires
        pool.spent.contains(request.nullifier_hash),
    ensures
        pool.outcome(request, proof_accepted) == Err::<Disbursement, WithdrawError>(
            if request.fee@ < pool.deposit_value {
                WithdrawError::NullifierAlreadySpent
            } else {
                WithdrawError::FeeExceedsDeposit
            },
        ),
{
}

} // verus!
