//! The allowlist: an accumulator of account hashes with a set of listed
//! accounts beside it and a denylist that masks entries without removing
//! them from the tree.

use vstd::prelude::*;
use crate::field::U256;
use crate::accumulator::{InsertError, Insertion, MerkleTree, SetupError, TreeState, ZeroLadder};
use crate::registry::FieldSet;

verus! {

/// What an allowlist holds.
pub struct AllowlistState {
    pub tree: TreeState,
    pub listed: Set<U256>,
    pub denied: Set<U256>,
}

impl AllowlistState {
    /// Whether `account` was listed and is not masked by the denylist.
    pub open spec fn allows(self, account: U256) -> bool {
        self.listed.contains(account) && !self.denied.contains(account)
    }
}

/// Accumulator of allowed account hashes with a denylist override.
pub struct AllowlistMerkleTree {
    tree: MerkleTree,
    listed: FieldSet,
    denylist: FieldSet,
}

impl View for AllowlistMerkleTree {
    type V = AllowlistState;

    closed spec fn view(&self) -> AllowlistState {
        AllowlistState { tree: self.tree@, listed: self.listed@, denied: self.denylist@ }
    }
}

impl AllowlistMerkleTree {
    /// The empty allowlist over a complete ladder, retaining up to `window`
    /// roots.
    pub fn new(ladder: ZeroLadder, window: u8) -> (r: Result<AllowlistMerkleTree, SetupError>)
        ensures
            r is Ok <==> ladder@.is_complete() && window >= 1,
            r matches Ok(a) ==> a@ == (AllowlistState {
                tree: TreeState::fresh(ladder@, window as nat),
                listed: Set::empty(),
                denied: Set::empty(),
            }) && a@.tree.wf(),
            r matches Err(e) ==> e == (if ladder@.is_complete() {
                SetupError::EmptyWindow
            } else {
                SetupError::IncompleteLadder
            }),
    {
        match MerkleTree::new(ladder, window) {
            Ok(tree) => Ok(
                AllowlistMerkleTree { tree, listed: FieldSet::new(), denylist: FieldSet::new() },
            ),
            Err(e) => Err(e),
        }
    }

    /// An allowlist made of a tree, the accounts listed in it and the accounts
    /// denied.
    pub fn from_parts(tree: MerkleTree, listed: FieldSet, denylist: FieldSet) -> (r:
        AllowlistMerkleTree)
        ensures
            r@ == (AllowlistState { tree: tree@, listed: listed@, denied: denylist@ }),
    {
        AllowlistMerkleTree { tree, listed, denylist }
    }

    /// The tree, the accounts listed and the accounts denied.
    pub fn into_parts(self) -> (r: (MerkleTree, FieldSet, FieldSet))
        ensures
            self@ == (AllowlistState { tree: r.0@, listed: r.1@, denied: r.2@ }),
    {
        (self.tree, self.listed, self.denylist)
    }

    /// The most recent root of the tree.
    pub fn current_root(&self) -> (r: U256)
        ensures
            r == self@.tree.current_root(),
            self@.tree.wf(),
    {
        self.tree.current_root()
    }

    /// Whether `root` is among the retained roots of the tree.
    pub fn is_known_valid_root(&self, root: U256) -> (r: bool)
        ensures
            r == self@.tree.knows(root),
            self@.tree.wf(),
    {
        self.tree.is_known_valid_root(root)
    }

    /// Whether `account` is listed and not denied.
    pub fn is_in_whitelist(&self, account: &U256) -> (r: bool)
        ensures
            r == self@.allows(*account),
    {
        self.listed.contains(account) && !self.denylist.contains(account)
    }

    /// Starts listing `account`: the insertion of its hash as the next leaf.
    pub fn begin_insert(&self, account: U256) -> (r: Result<Insertion, InsertError>)
        ensures
            self@.tree.wf(),
            r is Ok <==> !self@.tree.is_full(),
            r matches Ok(ins) ==> ins@ == self@.tree.begin(account) && ins@.wf(),
            r matches Err(e) ==> e == InsertError::CapacityExceeded,
    {
        self.tree.begin_insert(account)
    }

    /// Writes a fully hashed insertion into the tree and lists its leaf. A
    /// refused insertion changes nothing.
    pub fn finish_insert(&mut self, ins: Insertion) -> (r: Result<U256, InsertError>)
        ensures
            r == old(self)@.tree.finish_outcome(ins@),
            final(self)@.tree == old(self)@.tree.finish(ins@),
            final(self)@.tree.wf(),
            final(self)@.listed == (if r is Ok {
                old(self)@.listed.insert(ins@.nodes[0])
            } else {
                old(self)@.listed
            }),
            final(self)@.denied == old(self)@.denied,
    {
        let account: U256 = ins.leaf();
        let r = self.tree.finish_insert(ins);
        if r.is_ok() {
            self.listed.insert(account);
        }
        r
    }

    /// Masks `account`, listed or not, and tells whether it was unmasked
    /// before. The tree and its roots stay as they are.
    pub fn deny(&mut self, account: U256) -> (r: bool)
        ensures
            r == !old(self)@.denied.contains(account),
            final(self)@ == (AllowlistState {
                denied: old(self)@.denied.insert(account),
                ..old(self)@
            }),
    {
        self.denylist.insert(account)
    }
}

} // verus!
