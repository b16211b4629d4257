//! Append-only Merkle accumulator of fixed height with a sliding window of
//! recent roots.
//!
//! An insertion touches one node per level. The accumulator keeps, per level,
//! the last left child written there, so the next insertion needs no leaf
//! storage. Hashing is requested from the caller pair by pair: a started
//! [`Insertion`] names the next pair, the caller answers with its digest, and
//! the finished insertion is handed back to the tree.

use vstd::prelude::*;
use vstd::arithmetic::power2::pow2;
use crate::field::U256;

verus! {

/// Largest supported tree height.
pub const MAX_HEIGHT: usize = 32;

/// An ordered pair of nodes to be hashed: `left` first, `right` second.
#[derive(Clone, Copy, Debug, PartialEq, Eq, Structural)]
pub struct HashRequest {
    pub left: U256,
    pub right: U256,
}

/// Why a tree could not be set up.
#[derive(Clone, Copy, Debug, PartialEq, Eq, Structural)]
pub enum SetupError {
    /// The height is zero or above [`MAX_HEIGHT`].
    InvalidHeight,
    /// The window of retained roots would be empty.
    EmptyWindow,
    /// The stored parts do not fit together as a tree.
    MalformedParts,
    /// The ladder of empty-subtree roots has not been hashed to the top.
    IncompleteLadder,
}

/// Why an insertion was refused.
#[derive(Clone, Copy, Debug, PartialEq, Eq, Structural)]
pub enum InsertError {
    /// Every leaf position of the tree is taken.
    CapacityExceeded,
    /// The insertion has not been hashed up to the root yet.
    IncompleteInsertion,
    /// The insertion was started on another state of the tree.
    StaleInsertion,
}

/// Whether position `index` lies in the right half of its parent at `level`.
pub open spec fn is_right(index: nat, level: nat) -> bool {
    (index / pow2(level)) % 2 == 1
}

/// The window after `root` enters it: the oldest root leaves once `window`
/// roots are held.
pub open spec fn slide(roots: Seq<U256>, window: nat, root: U256) -> Seq<U256> {
    if roots.len() < window {
        roots.push(root)
    } else {
        roots.drop_first().push(root)
    }
}

/// Root of an empty subtree of height `level` under hash `h`.
pub open spec fn zero_at(h: spec_fn(U256, U256) -> U256, zero_value: U256, level: nat) -> U256
    decreases level,
{
    if level == 0 {
        zero_value
    } else {
        let below = zero_at(h, zero_value, (level - 1) as nat);
        h(below, below)
    }
}

/// The roots of empty subtrees, from a single leaf upwards, as far as they
/// have been hashed.
pub struct LadderState {
    pub height: nat,
    pub rungs: Seq<U256>,
}

impl LadderState {
    pub open spec fn wf(self) -> bool {
        &&& 1 <= self.height <= MAX_HEIGHT
        &&& 1 <= self.rungs.len() <= self.height + 1
    }

    pub open spec fn is_complete(self) -> bool {
        self.rungs.len() == self.height + 1
    }

    /// The pair to hash next: the top rung with itself.
    pub open spec fn pending(self) -> Option<HashRequest> {
        if self.rungs.len() <= self.height {
            Some(HashRequest { left: self.rungs.last(), right: self.rungs.last() })
        } else {
            None
        }
    }

    /// The ladder after the digest of the pending pair came back.
    pub open spec fn advance(self, digest: U256) -> LadderState {
        if self.rungs.len() <= self.height {
            LadderState { rungs: self.rungs.push(digest), ..self }
        } else {
            self
        }
    }

    /// The ladder after every pending pair was answered by `h`.
    pub open spec fn drive(self, h: spec_fn(U256, U256) -> U256) -> LadderState
        decreases self.height + 1 - self.rungs.len(),
    {
        match self.pending() {
            Some(req) => self.advance(h(req.left, req.right)).drive(h),
            None => self,
        }
    }
}

/// Builder for the roots of empty subtrees of every height up to the tree's.
pub struct ZeroLadder {
    height: usize,
    rungs: Vec<U256>,
}

impl View for ZeroLadder {
    type V = LadderState;

    closed spec fn view(&self) -> LadderState {
        LadderState { height: self.height as nat, rungs: self.rungs@ }
    }
}

impl ZeroLadder {
    #[verifier::type_invariant]
    spec fn inv(self) -> bool {
        self@.wf()
    }

    /// Starts a ladder for a tree of the given height over `zero_value`, the
    /// value of an empty leaf.
    pub fn new(height: u64, zero_value: U256) -> (r: Result<ZeroLadder, SetupError>)
        ensures
            r is Ok <==> 1 <= height <= MAX_HEIGHT,
            r matches Ok(l) ==> l@ == (LadderState {
                height: height as nat,
                rungs: seq![zero_value],
            }),
            r matches Err(e) ==> e == SetupError::InvalidHeight,
    {
        if height == 0 || height > MAX_HEIGHT as u64 {
            return Err(SetupError::InvalidHeight);
        }
        let mut rungs: Vec<U256> = Vec::new();
        rungs.push(zero_value);
        Ok(ZeroLadder { height: height as usize, rungs })
    }

    /// Whether every rung up to the root has been hashed.
    pub fn is_complete(&self) -> (r: bool)
        ensures
            r == self@.is_complete(),
            self@.wf(),
    {
        proof {
            use_type_invariant(self);
        }
        self.rungs.len() == self.height + 1
    }

    /// The pair whose digest is the next rung, if one is missing.
    pub fn pending(&self) -> (r: Option<HashRequest>)
        ensures
            r == self@.pending(),
            self@.wf(),
    {
        proof {
            use_type_invariant(self);
        }
        let n: usize = self.rungs.len();
        if n <= self.height {
            let top: U256 = self.rungs[n - 1];
            Some(HashRequest { left: top, right: top })
        } else {
            None
        }
    }

    /// Takes the digest of the pending pair as the next rung. A complete ladder
    /// is left as it is.
    pub fn advance(self, digest: U256) -> (r: ZeroLadder)
        ensures
            r@ == self@.advance(digest),
            r@.wf(),
    {
        proof {
            use_type_invariant(&self);
        }
        let ZeroLadder { height, mut rungs } = self;
        if rungs.len() <= height {
            rungs.push(digest);
        }
        ZeroLadder { height, rungs }
    }
}

/// An insertion under way: the position of the new leaf, the siblings of its
/// path to the root, and the nodes of that path hashed so far, leaf first.
pub struct InsertionState {
    pub index: nat,
    pub siblings: Seq<U256>,
    pub nodes: Seq<U256>,
}

impl InsertionState {
    pub open spec fn height(self) -> nat {
        self.siblings.len()
    }

    pub open spec fn wf(self) -> bool {
        &&& 1 <= self.height() <= MAX_HEIGHT
        &&& 1 <= self.nodes.len() <= self.height() + 1
        &&& self.index < pow2(self.height())
    }

    pub open spec fn is_complete(self) -> bool {
        self.nodes.len() == self.height() + 1
    }

    /// The pair to hash next: the newest node of the path and its sibling,
    /// the left one first.
    pub open spec fn pending(self) -> Option<HashRequest> {
        if self.nodes.len() <= self.height() {
            let level = self.nodes.len() - 1;
            if is_right(self.index, level as nat) {
                Some(HashRequest { left: self.siblings[level], right: self.nodes.last() })
            } else {
                Some(HashRequest { left: self.nodes.last(), right: self.siblings[level] })
            }
        } else {
            None
        }
    }

    /// The insertion after the digest of the pending pair came back.
    pub open spec fn advance(self, digest: U256) -> InsertionState {
        if self.nodes.len() <= self.height() {
            InsertionState { nodes: self.nodes.push(digest), ..self }
        } else {
            self
        }
    }

    /// The insertion after every pending pair was answered by `h`.
    pub open spec fn drive(self, h: spec_fn(U256, U256) -> U256) -> InsertionState
        decreases self.height() + 1 - self.nodes.len(),
    {
        match self.pending() {
            Some(req) => self.advance(h(req.left, req.right)).drive(h),
            None => self,
        }
    }
}

/// What an accumulator holds: the roots of empty subtrees, the last left child
/// written at each level, the retained roots from oldest to newest, the size
/// of the window and the number of leaves.
pub struct TreeState {
    pub zeros: Seq<U256>,
    pub filled: Seq<U256>,
    pub roots: Seq<U256>,
    pub window: nat,
    pub count: nat,
}

impl TreeState {
    pub open spec fn height(self) -> nat {
        self.filled.len()
    }

    pub open spec fn wf(self) -> bool {
        &&& 1 <= self.height() <= MAX_HEIGHT
        &&& self.zeros.len() == self.height() + 1
        &&& 1 <= self.roots.len() <= self.window
        &&& self.count <= pow2(self.height())
    }

    /// The empty tree over a complete ladder: its only root is the top rung.
    pub open spec fn fresh(ladder: LadderState, window: nat) -> TreeState {
        TreeState {
            zeros: ladder.rungs,
            filled: ladder.rungs.take(ladder.height as int),
            roots: seq![ladder.rungs.last()],
            window,
            count: 0,
        }
    }

    /// The most recent root.
    pub open spec fn current_root(self) -> U256 {
        self.roots.last()
    }

    /// Whether `root` is one of the retained roots.
    pub open spec fn knows(self, root: U256) -> bool {
        self.roots.contains(root)
    }

    /// Whether every leaf position is taken.
    pub open spec fn is_full(self) -> bool {
        self.count >= pow2(self.height())
    }

    /// The sibling, at `level`, of the path from the next leaf to the root.
    pub open spec fn sibling(self, level: int) -> U256 {
        if is_right(self.count, level as nat) {
            self.filled[level]
        } else {
            self.zeros[level]
        }
    }

    pub open spec fn siblings(self) -> Seq<U256> {
        Seq::new(self.height(), |level: int| self.sibling(level))
    }

    /// The insertion of `leaf` at the next position, before any hashing.
    pub open spec fn begin(self, leaf: U256) -> InsertionState {
        InsertionState { index: self.count, siblings: self.siblings(), nodes: seq![leaf] }
    }

    /// Whether `ins` was started on this very state.
    pub open spec fn accepts(self, ins: InsertionState) -> bool {
        &&& !self.is_full()
        &&& ins.index == self.count
        &&& ins.siblings == self.siblings()
    }

    /// What handing back `ins` yields: its root, or the reason it is refused.
    pub open spec fn finish_outcome(self, ins: InsertionState) -> Result<U256, InsertError> {
        if !ins.is_complete() {
            Err(InsertError::IncompleteInsertion)
        } else if !self.accepts(ins) {
            Err(InsertError::StaleInsertion)
        } else {
            Ok(ins.nodes.last())
        }
    }

    /// The state after the path `nodes` (leaf first, root last) was written at
    /// the next position.
    pub open spec fn record(self, nodes: Seq<U256>) -> TreeState {
        TreeState {
            filled: Seq::new(
                self.height(),
                |level: int|
                    if is_right(self.count, level as nat) {
                        self.filled[level]
                    } else {
                        nodes[level]
                    },
            ),
            roots: slide(self.roots, self.window, nodes.last()),
            count: self.count + 1,
            ..self
        }
    }

    /// The state after `ins` was handed back.
    pub open spec fn finish(self, ins: InsertionState) -> TreeState {
        if self.finish_outcome(ins) is Ok {
            self.record(ins.nodes)
        } else {
            self
        }
    }
}

/// A tree taken apart, as it is stored between calls: the roots of empty
/// subtrees from a leaf upwards, the last left child written at each level,
/// the retained roots from oldest to newest, the size of the window and the
/// number of leaves.
#[derive(Clone, Debug, PartialEq, Eq)]
pub struct TreeParts {
    pub zeros: Vec<U256>,
    pub filled: Vec<U256>,
    pub roots: Vec<U256>,
    pub window: u8,
    pub count: u64,
}

impl View for TreeParts {
    type V = TreeState;

    open spec fn view(&self) -> TreeState {
        TreeState {
            zeros: self.zeros@,
            filled: self.filled@,
            roots: self.roots@,
            window: self.window as nat,
            count: self.count as nat,
        }
    }
}

/// Incremental Merkle tree of fixed height that remembers its last roots.
pub struct MerkleTree {
    zeros: Vec<U256>,
    filled: Vec<U256>,
    roots: Vec<U256>,
    window: u8,
    count: u64,
}

impl View for MerkleTree {
    type V = TreeState;

    closed spec fn view(&self) -> TreeState {
        TreeState {
            zeros: self.zeros@,
            filled: self.filled@,
            roots: self.roots@,
            window: self.window as nat,
            count: self.count as nat,
        }
    }
}

/// An insertion handed out by [`MerkleTree::begin_insert`].
pub struct Insertion {
    index: u64,
    siblings: Vec<U256>,
    nodes: Vec<U256>,
}

impl View for Insertion {
    type V = InsertionState;

    closed spec fn view(&self) -> InsertionState {
        InsertionState { index: self.index as nat, siblings: self.siblings@, nodes: self.nodes@ }
    }
}

/// In a `u64`, the side of a position at a level is a bit of the position.
proof fn lemma_side_is_bit(index: u64, level: u64)
    requires
        level < 64,
    ensures
        is_right(index as nat, level as nat) == ((index >> level) % 2 == 1),
{
    vstd::bits::lemma_u64_shr_is_div(index, level);
}

/// Whether position `index` is a right child at `level`.
fn right_at(index: u64, level: usize) -> (r: bool)
    requires
        level < 64,
    ensures
        r == is_right(index as nat, level as nat),
{
    proof {
        lemma_side_is_bit(index, level as u64);
    }
    (index >> (level as u64)) % 2 == 1
}

/// Number of leaf positions of a tree of the given height.
fn capacity(height: usize) -> (r: u64)
    requires
        height <= MAX_HEIGHT,
    ensures
        r == pow2(height as nat),
{
    proof {
        vstd::arithmetic::power2::lemma_pow2_strictly_increases(height as nat, 33);
        vstd::arithmetic::power2::lemma2_to64_rest();
        vstd::bits::lemma_u64_shl_is_mul(1u64, height as u64);
    }
    1u64 << (height as u64)
}

/// Whether two vectors hold the same values in the same order.
fn same_values(a: &Vec<U256>, b: &Vec<U256>) -> (r: bool)
    ensures
        r == (a@ == b@),
{
    if a.len() != b.len() {
        return false;
    }
    let mut i: usize = 0;
    while i < a.len()
        invariant
            i <= a.len(),
            a.len() == b.len(),
            forall|j: int| 0 <= j < i ==> a@[j] == b@[j],
        decreases a.len() - i,
    {
        if a[i] != b[i] {
            return false;
        }
        i = i + 1;
    }
    assert(a@ =~= b@);
    true
}

impl Insertion {
    #[verifier::type_invariant]
    spec fn inv(self) -> bool {
        self@.wf()
    }

    /// Position of the leaf being inserted.
    pub fn index(&self) -> (r: u64)
        ensures
            r == self@.index,
            self@.wf(),
    {
        proof {
            use_type_invariant(self);
        }
        self.index
    }

    /// The leaf being inserted.
    pub fn leaf(&self) -> (r: U256)
        ensures
            r == self@.nodes[0],
            self@.wf(),
    {
        proof {
            use_type_invariant(self);
        }
        self.nodes[0]
    }

    /// Whether the path has been hashed up to the root.
    pub fn is_complete(&self) -> (r: bool)
        ensures
            r == self@.is_complete(),
            self@.wf(),
    {
        proof {
            use_type_invariant(self);
        }
        self.nodes.len() == self.siblings.len() + 1
    }

    /// The pair whose digest is the next node of the path, if one is missing.
    pub fn pending(&self) -> (r: Option<HashRequest>)
        ensures
            r == self@.pending(),
            self@.wf(),
    {
        proof {
            use_type_invariant(self);
        }
        let n: usize = self.nodes.len();
        if n <= self.siblings.len() {
            let level: usize = n - 1;
            let node: U256 = self.nodes[level];
            let sibling: U256 = self.siblings[level];
            if right_at(self.index, level) {
                Some(HashRequest { left: sibling, right: node })
            } else {
                Some(HashRequest { left: node, right: sibling })
            }
        } else {
            None
        }
    }

    /// Takes the digest of the pending pair as the next node of the path. A
    /// complete insertion is left as it is.
    pub fn advance(self, digest: U256) -> (r: Insertion)
        ensures
            r@ == self@.advance(digest),
            r@.wf(),
    {
        proof {
            use_type_invariant(&self);
        }
        let Insertion { index, siblings, mut nodes } = self;
        if nodes.len() <= siblings.len() {
            nodes.push(digest);
        }
        Insertion { index, siblings, nodes }
    }
}

impl MerkleTree {
    #[verifier::type_invariant]
    spec fn inv(self) -> bool {
        self@.wf()
    }

    /// The empty tree over a complete ladder, retaining up to `window` roots.
    pub fn new(ladder: ZeroLadder, window: u8) -> (r: Result<MerkleTree, SetupError>)
        ensures
            r is Ok <==> ladder@.is_complete() && window >= 1,
            r matches Ok(t) ==> t@ == TreeState::fresh(ladder@, window as nat) && t@.wf(),
            r matches Err(e) ==> e == (if ladder@.is_complete() {
                SetupError::EmptyWindow
            } else {
                SetupError::IncompleteLadder
            }),
    {
        if !ladder.is_complete() {
            return Err(SetupError::IncompleteLadder);
        }
        if window == 0 {
            return Err(SetupError::EmptyWindow);
        }
        let ZeroLadder { height, rungs } = ladder;
        let mut filled: Vec<U256> = Vec::new();
        let mut i: usize = 0;
        while i < height
            invariant
                i <= height,
                rungs.len() == height + 1,
                filled@ == rungs@.take(i as int),
            decreases height - i,
        {
            filled.push(rungs[i]);
            i = i + 1;
        }
        let mut roots: Vec<U256> = Vec::new();
        roots.push(rungs[height]);
        Ok(MerkleTree { zeros: rungs, filled, roots, window, count: 0 })
    }

    /// Puts a stored tree together again, if its parts fit: a height between
    /// one and [`MAX_HEIGHT`], one more zero than levels, at least one root
    /// and no more than the window holds, no more leaves than positions.
    pub fn from_parts(parts: TreeParts) -> (r: Result<MerkleTree, SetupError>)
        ensures
            r is Ok <==> parts@.wf(),
            r matches Ok(t) ==> t@ == parts@,
            r matches Err(e) ==> e == SetupError::MalformedParts,
    {
        let TreeParts { zeros, filled, roots, window, count } = parts;
        let height: usize = filled.len();
        if height == 0 || height > MAX_HEIGHT || zeros.len() != height + 1 {
            return Err(SetupError::MalformedParts);
        }
        if roots.len() == 0 || roots.len() > window as usize || count > capacity(height) {
            return Err(SetupError::MalformedParts);
        }
        Ok(MerkleTree { zeros, filled, roots, window, count })
    }

    /// Takes the tree apart for storage.
    pub fn into_parts(self) -> (r: TreeParts)
        ensures
            r@ == self@,
            r@.wf(),
    {
        proof {
            use_type_invariant(&self);
        }
        let MerkleTree { zeros, filled, roots, window, count } = self;
        TreeParts { zeros, filled, roots, window, count }
    }

    /// Number of levels between a leaf and the root.
    pub fn height(&self) -> (r: usize)
        ensures
            r == self@.height(),
            self@.wf(),
    {
        proof {
            use_type_invariant(self);
        }
        self.filled.len()
    }

    /// Number of leaves inserted so far.
    pub fn leaf_count(&self) -> (r: u64)
        ensures
            r == self@.count,
            self@.wf(),
    {
        proof {
            use_type_invariant(self);
        }
        self.count
    }

    /// The most recent root; for an empty tree, the root of the empty tree.
    pub fn current_root(&self) -> (r: U256)
        ensures
            r == self@.current_root(),
            self@.wf(),
    {
        proof {
            use_type_invariant(self);
        }
        self.roots[self.roots.len() - 1]
    }

    /// Whether `root` is among the retained roots.
    pub fn is_known_valid_root(&self, root: U256) -> (r: bool)
        ensures
            r == self@.knows(root),
            self@.wf(),
    {
        proof {
            use_type_invariant(self);
        }
        let mut i: usize = 0;
        while i < self.roots.len()
            invariant
                self@.wf(),
                i <= self.roots.len(),
                forall|j: int| 0 <= j < i ==> self.roots@[j] != root,
            decreases self.roots.len() - i,
        {
            if self.roots[i] == root {
                return true;
            }
            i = i + 1;
        }
        false
    }

    /// Starts the insertion of `leaf` at the next free position. The tree
    /// itself changes only when the hashed insertion is handed back.
    pub fn begin_insert(&self, leaf: U256) -> (r: Result<Insertion, InsertError>)
        ensures
            self@.wf(),
            r is Ok <==> !self@.is_full(),
            r matches Ok(ins) ==> ins@ == self@.begin(leaf) && ins@.wf(),
            r matches Err(e) ==> e == InsertError::CapacityExceeded,
    {
        proof {
            use_type_invariant(self);
        }
        let height: usize = self.filled.len();
        if self.count >= capacity(height) {
            return Err(InsertError::CapacityExceeded);
        }
        let siblings: Vec<U256> = self.siblings();
        let mut nodes: Vec<U256> = Vec::new();
        nodes.push(leaf);
        Ok(Insertion { index: self.count, siblings, nodes })
    }

    /// Writes a fully hashed insertion into the tree and returns the new root.
    /// An insertion that is incomplete, or was started on another state of the
    /// tree, is refused and the tree stays as it is.
    pub fn finish_insert(&mut self, ins: Insertion) -> (r: Result<U256, InsertError>)
        ensures
            r == old(self)@.finish_outcome(ins@),
            final(self)@ == old(self)@.finish(ins@),
            final(self)@.wf(),
    {
        proof {
            use_type_invariant(&*self);
            use_type_invariant(&ins);
        }
        let height: usize = self.filled.len();
        if !ins.is_complete() {
            return Err(InsertError::IncompleteInsertion);
        }
        if self.count >= capacity(height) || ins.index != self.count {
            return Err(InsertError::StaleInsertion);
        }
        let expected: Vec<U256> = self.siblings();
        if !same_values(&ins.siblings, &expected) {
            return Err(InsertError::StaleInsertion);
        }
        let root: U256 = ins.nodes[height];
        let mut filled: Vec<U256> = Vec::new();
        let mut level: usize = 0;
        while level < height
            invariant
                level <= height,
                height == self.filled.len(),
                height <= MAX_HEIGHT,
                ins.nodes.len() == height + 1,
                filled.len() == level,
                forall|j: int|
                    0 <= j < level ==> filled@[j] == (if is_right(self.count as nat, j as nat) {
                        self.filled@[j]
                    } else {
                        ins.nodes@[j]
                    }),
            decreases height - level,
        {
            if right_at(self.count, level) {
                filled.push(self.filled[level]);
            } else {
                filled.push(ins.nodes[level]);
            }
            level = level + 1;
        }
        let roots: Vec<U256> = next_window(&self.roots, self.window as usize, root);
        assert(filled@ =~= old(self)@.record(ins@.nodes).filled);
        self.filled = filled;
        self.roots = roots;
        self.count = self.count + 1;
        Ok(root)
    }

    /// The siblings of the path from the next leaf to the root.
    fn siblings(&self) -> (r: Vec<U256>)
        ensures
            r@ == self@.siblings(),
    {
        proof {
            use_type_invariant(self);
        }
        let height: usize = self.filled.len();
        let mut siblings: Vec<U256> = Vec::new();
        let mut level: usize = 0;
        while level < height
            invariant
                level <= height,
                height == self.filled.len(),
                height <= MAX_HEIGHT,
                self.zeros.len() == height + 1,
                siblings.len() == level,
                forall|j: int| 0 <= j < level ==> siblings@[j] == self@.sibling(j),
            decreases height - level,
        {
            if right_at(self.count, level) {
                siblings.push(self.filled[level]);
            } else {
                siblings.push(self.zeros[level]);
            }
            level = level + 1;
        }
        siblings
    }
}

/// The retained roots after `root` enters a window of the given size.
fn next_window(roots: &Vec<U256>, window: usize, root: U256) -> (r: Vec<U256>)
    requires
        1 <= roots.len() <= window,
    ensures
        r@ == slide(roots@, window as nat, root),
        1 <= r.len() <= window,
{
    let mut next: Vec<U256> = Vec::new();
    let skip: usize = if roots.len() < window { 0 } else { 1 };
    let mut i: usize = skip;
    while i < roots.len()
        invariant
            skip <= i <= roots.len(),
            next@ == roots@.subrange(skip as int, i as int),
        decreases roots.len() - i,
    {
        next.push(roots[i]);
        i = i + 1;
    }
    next.push(root);
    next
}

} // verus!
