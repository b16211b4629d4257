//! The state of one pool: its configuration, both accumulators and the
//! registry of spent nullifiers, held as one owned value.

use vstd::prelude::*;
use crate::field::U256;
use crate::account::{is_account_id, valid_account_id};
use crate::accumulator::{LadderState, MerkleTree, SetupError, TreeState, ZeroLadder};
use crate::allowlist::{AllowlistMerkleTree, AllowlistState};
use crate::registry::FieldSet;
use crate::withdraw::PUBLIC_INPUTS;

verus! {

/// The protocol fee is given in parts of this number.
pub const FEE_DIVISOR: u128 = 100_000;

/// Why a pool could not be set up.
#[derive(Clone, Copy, Debug, PartialEq, Eq, Structural)]
pub enum InitError {
    /// The owner is not a well-formed account identifier.
    InvalidOwner,
    /// The fee rate is the whole deposit or more.
    InvalidFee,
    /// The verifying key is not for [`PUBLIC_INPUTS`] public inputs.
    ArityMismatch,
    /// The tree of commitments could not be set up.
    Commitments(SetupError),
    /// The tree of allowed accounts could not be set up.
    Whitelist(SetupError),
}

/// Why a caller is refused an owner-only operation.
#[derive(Clone, Copy, Debug, PartialEq, Eq, Structural)]
pub enum AccessError {
    /// The caller is not the owner.
    NotOwner,
    /// The call does not carry exactly one unit of the smallest denomination.
    DepositRequired,
}

/// Why a ladder and a window do not make a tree, if they do not.
pub open spec fn setup_error(ladder: LadderState, window: u8) -> Option<SetupError> {
    if !ladder.is_complete() {
        Some(SetupError::IncompleteLadder)
    } else if window == 0 {
        Some(SetupError::EmptyWindow)
    } else {
        None
    }
}

/// The absolute fee taken from a deposit at a rate given in parts of
/// [`FEE_DIVISOR`], rounded down.
pub open spec fn fee_share(deposit_value: u128, percent_fee: u128) -> nat {
    (deposit_value as nat * percent_fee as nat) / (FEE_DIVISOR as nat)
}

/// What a pool holds.
pub struct PoolState {
    pub owner: Seq<char>,
    pub kill_switch: bool,
    pub commitments: TreeState,
    pub whitelist: AllowlistState,
    pub deposit_value: u128,
    pub protocol_fee: u128,
    pub spent: Set<U256>,
}

/// One pool of a fixed denomination.
pub struct Contract {
    /// Account that manages the kill switch and the protocol fee.
    pub owner: String,
    /// Whether the pool has been halted by its owner.
    pub kill_switch: bool,
    /// Accumulator of deposit commitments.
    pub commitments: MerkleTree,
    /// Accumulator of allowed accounts.
    pub whitelist: AllowlistMerkleTree,
    /// The one deposit value that the pool accepts.
    pub deposit_value: u128,
    /// Fee taken from every deposit, as an absolute amount.
    pub protocol_fee: u128,
    /// Every nullifier used so far.
    pub nullifier: FieldSet,
}

impl View for Contract {
    type V = PoolState;

    open spec fn view(&self) -> PoolState {
        PoolState {
            owner: self.owner@,
            kill_switch: self.kill_switch,
            commitments: self.commitments@,
            whitelist: self.whitelist@,
            deposit_value: self.deposit_value,
            protocol_fee: self.protocol_fee,
            spent: self.nullifier@,
        }
    }
}

/// `deposit_value * percent_fee / FEE_DIVISOR` without leaving `u128`.
fn protocol_fee(deposit_value: u128, percent_fee: u128) -> (r: u128)
    requires
        percent_fee < FEE_DIVISOR,
    ensures
        r == fee_share(deposit_value, percent_fee),
        r <= deposit_value,
{
    let whole: u128 = deposit_value / FEE_DIVISOR;
    let rest: u128 = deposit_value % FEE_DIVISOR;
    proof {
        let d = FEE_DIVISOR as int;
        let f = percent_fee as int;
        let w = whole as int;
        let t = rest as int;
        let v = deposit_value as int;
        assert(0 <= w * f <= w * d) by (nonlinear_arith)
            requires
                0 <= w,
                0 <= f < d,
        ;
        assert(0 <= (t * f) / d <= t) by (nonlinear_arith)
            requires
                0 <= t,
                0 <= f < d,
                d > 0,
                t * f == d * ((t * f) / d) + (t * f) % d,
                0 <= (t * f) % d < d,
        ;
        assert(v * f == (w * f + (t * f) / d) * d + (t * f) % d) by (nonlinear_arith)
            requires
                v == d * w + t,
                t * f == d * ((t * f) / d) + (t * f) % d,
        ;
    }
    whole * percent_fee + rest * percent_fee / FEE_DIVISOR
}

impl Contract {
    /// Why these parameters do not make a pool, if they do not. The owner is
    /// looked at first, then the fee rate, then the number of public inputs
    /// that the verifying key was made for, then the tree of commitments,
    /// then the tree of allowed accounts.
    pub open spec fn init_error(
        owner: Seq<char>,
        zeros: LadderState,
        last_roots_len: u8,
        zeros_wl: LadderState,
        last_roots_len_wl: u8,
        percent_fee: u128,
        n_public: U256,
    ) -> Option<InitError> {
        if !valid_account_id(vstd::utf8::encode_utf8(owner)) {
            Some(InitError::InvalidOwner)
        } else if percent_fee >= FEE_DIVISOR {
            Some(InitError::InvalidFee)
        } else if n_public@ != PUBLIC_INPUTS {
            Some(InitError::ArityMismatch)
        } else if setup_error(zeros, last_roots_len) is Some {
            Some(InitError::Commitments(setup_error(zeros, last_roots_len)->0))
        } else if setup_error(zeros_wl, last_roots_len_wl) is Some {
            Some(InitError::Whitelist(setup_error(zeros_wl, last_roots_len_wl)->0))
        } else {
            None
        }
    }

    /// A new pool with two empty trees and no spent nullifier. The protocol
    /// fee is the share `percent_fee / FEE_DIVISOR` of the deposit value,
    /// rounded down. `n_public` is the number of public inputs that the
    /// verifying key was made for.
    pub fn new(
        owner: String,
        zeros: ZeroLadder,
        last_roots_len: u8,
        zeros_wl: ZeroLadder,
        last_roots_len_wl: u8,
        deposit_value: u128,
        percent_fee: u128,
        n_public: U256,
    ) -> (r: Result<Contract, InitError>)
        ensures
            match Contract::init_error(
                owner@,
                zeros@,
                last_roots_len,
                zeros_wl@,
                last_roots_len_wl,
                percent_fee,
                n_public,
            ) {
                Some(e) => r == Err::<Contract, InitError>(e),
                None => r matches Ok(c) && c@ == (PoolState {
                    owner: owner@,
                    kill_switch: false,
                    commitments: TreeState::fresh(zeros@, last_roots_len as nat),
                    whitelist: AllowlistState {
                        tree: TreeState::fresh(zeros_wl@, last_roots_len_wl as nat),
                        listed: Set::empty(),
                        denied: Set::empty(),
                    },
                    deposit_value,
                    protocol_fee: fee_share(deposit_value, percent_fee) as u128,
                    spent: Set::empty(),
                }) && c@.commitments.wf() && c@.whitelist.tree.wf(),
            },
    {
        if !is_account_id(owner.as_str()) {
            return Err(InitError::InvalidOwner);
        }
        if percent_fee >= FEE_DIVISOR {
            return Err(InitError::InvalidFee);
        }
        if n_public != U256::from_u128(PUBLIC_INPUTS as u128) {
            return Err(InitError::ArityMismatch);
        }
        let commitments = match MerkleTree::new(zeros, last_roots_len) {
            Ok(tree) => tree,
            Err(e) => {
                return Err(InitError::Commitments(e));
            },
        };
        let whitelist = match AllowlistMerkleTree::new(zeros_wl, last_roots_len_wl) {
            Ok(tree) => tree,
            Err(e) => {
                return Err(InitError::Whitelist(e));
            },
        };
        Ok(
            Contract {
                owner,
                kill_switch: false,
                commitments,
                whitelist,
                deposit_value,
                protocol_fee: protocol_fee(deposit_value, percent_fee),
                nullifier: FieldSet::new(),
            },
        )
    }

    /// Admits a call to an owner-only operation: the caller must be the owner
    /// and the call must carry exactly one unit of the smallest denomination.
    pub fn only_owner(&self, predecessor: &String, attached_deposit: u128) -> (r: Result<
        (),
        AccessError,
    >)
        ensures
            r == (if predecessor@ != self.owner@ {
                Err::<(), AccessError>(AccessError::NotOwner)
            } else if attached_deposit != 1 {
                Err::<(), AccessError>(AccessError::DepositRequired)
            } else {
                Ok::<(), AccessError>(())
            }),
    {
        if *predecessor != self.owner {
            Err(AccessError::NotOwner)
        } else if attached_deposit != 1 {
            Err(AccessError::DepositRequired)
        } else {
            Ok(())
        }
    }

    /// The most recent root of the tree of commitments.
    pub fn view_commitments_root(&self) -> (r: U256)
        ensures
            r == self@.commitments.current_root(),
    {
        self.commitments.current_root()
    }

    /// The most recent root of the tree of allowed accounts.
    pub fn view_whitelist_root(&self) -> (r: U256)
        ensures
            r == self@.whitelist.tree.current_root(),
    {
        self.whitelist.current_root()
    }

    /// Whether the account with the given hash is listed and not denied.
    pub fn view_is_in_whitelist(&self, account_hash: U256) -> (r: bool)
        ensures
            r == self@.whitelist.allows(account_hash),
    {
        self.whitelist.is_in_whitelist(&account_hash)
    }

    /// Whether `nullifier` has been used in a withdrawal.
    pub fn view_was_nullifier_spent(&self, nullifier: U256) -> (r: bool)
        ensures
            r == self@.spent.contains(nullifier),
    {
        self.nullifier.contains(&nullifier)
    }
}

} // verus!
