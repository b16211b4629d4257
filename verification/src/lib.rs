//! Core of a fixed-denomination mixer: an incremental Merkle accumulator with a
//! bounded window of recent roots, a registry of spent nullifiers, and the
//! withdrawal transition that ties them together.
//!
//! The field hash and the proof verifier are not part of this crate. Wherever
//! a digest is needed the library hands out the ordered pair to be hashed and
//! takes the digest back; a withdrawal takes the verifier's answer as an
//! argument. So every decision is made here, for every digest and every
//! answer, and the caller only computes hashes and runs the verifier.
//!
//! - [`field`]: 256-bit integers.
//! - [`accumulator`]: the tree, the ladder of empty-subtree roots that it is
//!   set up from, and the insertion that is hashed step by step.
//! - [`hashed`]: what the accumulator comes to under a given hash, and what
//!   follows for its roots, its window and its capacity.
//! - [`merkle`]: the Merkle root over all leaves, and the proof that the
//!   accumulator computes it.
//! - [`registry`]: insert-only sets of field elements.
//! - [`account`]: well-formed account identifiers.
//! - [`allowlist`]: the tree of allowed accounts with its denylist.
//! - [`contract`]: the pool as one owned value, its set-up and its views.
//! - [`withdraw`]: the withdrawal transition.

pub mod field;
pub mod accumulator;
pub mod hashed;
pub mod merkle;
pub mod registry;
pub mod account;
pub mod allowlist;
pub mod contract;
pub mod withdraw;
