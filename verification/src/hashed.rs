//! What the accumulator computes when every requested pair is answered by one
//! hash function.
//!
//! The executable types never see the hash: they hand out pairs and take
//! digests. The functions here fix a hash `h` and say what a ladder, an
//! insertion and a whole sequence of insertions come to under it; the proofs
//! tie the step-by-step machines to those closed forms.

use vstd::prelude::*;
use vstd::arithmetic::power2::pow2;
use crate::field::U256;
use crate::accumulator::{
    InsertError,
    InsertionState,
    LadderState,
    TreeState,
    MAX_HEIGHT,
    is_right,
    slide,
    zero_at,
};

verus! {

impl LadderState {
    /// The first rung of a ladder over `zero_value`.
    pub open spec fn start(height: nat, zero_value: U256) -> LadderState {
        LadderState { height, rungs: seq![zero_value] }
    }

    /// The complete ladder over `zero_value` under `h`.
    pub open spec fn complete(
        h: spec_fn(U256, U256) -> U256,
        height: nat,
        zero_value: U256,
    ) -> LadderState {
        LadderState {
            height,
            rungs: Seq::new((height + 1) as nat, |level: int| zero_at(h, zero_value, level as nat)),
        }
    }
}

impl TreeState {
    /// Node at `level` on the path from the next position to the root, when
    /// that position holds `leaf`.
    pub open spec fn path_node(self, h: spec_fn(U256, U256) -> U256, leaf: U256, level: nat) -> U256
        decreases level,
    {
        if level == 0 {
            leaf
        } else {
            let below = self.path_node(h, leaf, (level - 1) as nat);
            if is_right(self.count, (level - 1) as nat) {
                h(self.filled[level - 1], below)
            } else {
                h(below, self.zeros[level - 1])
            }
        }
    }

    /// The whole path, leaf first and root last.
    pub open spec fn path(self, h: spec_fn(U256, U256) -> U256, leaf: U256) -> Seq<U256> {
        Seq::new((self.height() + 1) as nat, |level: int| self.path_node(h, leaf, level as nat))
    }

    /// The state after an insertion of `leaf` was started, had each of its
    /// requests answered by `h`, and was handed back.
    pub open spec fn insert(self, h: spec_fn(U256, U256) -> U256, leaf: U256) -> TreeState {
        self.finish(self.begin(leaf).drive(h))
    }

    /// The state after `leaves` were inserted one after the other under `h`.
    pub open spec fn insert_all(self, h: spec_fn(U256, U256) -> U256, leaves: Seq<U256>) -> TreeState
        decreases leaves.len(),
    {
        if leaves.len() == 0 {
            self
        } else {
            self.insert_all(h, leaves.drop_last()).insert(h, leaves.last())
        }
    }

    /// The root after each of the insertions of `leaves`, in their order.
    pub open spec fn roots_after(self, h: spec_fn(U256, U256) -> U256, leaves: Seq<U256>) -> Seq<
        U256,
    > {
        Seq::new(
            leaves.len(),
            |k: int| self.insert_all(h, leaves.take(k + 1)).current_root(),
        )
    }

    /// Whether two states hold the same tree, whatever roots they retain.
    pub open spec fn same_tree(self, other: TreeState) -> bool {
        &&& self.zeros == other.zeros
        &&& self.filled == other.filled
        &&& self.count == other.count
    }

    /// The empty tree of the given height over `zero_value` under `h`.
    pub open spec fn empty(
        h: spec_fn(U256, U256) -> U256,
        height: nat,
        zero_value: U256,
        window: nat,
    ) -> TreeState {
        TreeState::fresh(LadderState::complete(h, height, zero_value), window)
    }
}

/// A ladder whose rungs so far are the roots of empty subtrees under `h`
/// becomes, once driven by `h`, the complete ladder.
proof fn lemma_ladder_drive_from(h: spec_fn(U256, U256) -> U256, zero_value: U256, l: LadderState)
    requires
        l.wf(),
        forall|i: int| 0 <= i < l.rungs.len() ==> l.rungs[i] == zero_at(h, zero_value, i as nat),
    ensures
        l.drive(h) == LadderState::complete(h, l.height, zero_value),
    decreases l.height + 1 - l.rungs.len(),
{
    if l.rungs.len() <= l.height {
        let top = l.rungs.last();
        lemma_ladder_drive_from(h, zero_value, l.advance(h(top, top)));
    } else {
        assert(l.rungs =~= LadderState::complete(h, l.height, zero_value).rungs);
    }
}

/// Driving a new ladder with `h` yields the roots of the empty subtrees of
/// every height up to the tree's, and nothing is left pending.
pub proof fn lemma_ladder_driven(h: spec_fn(U256, U256) -> U256, height: nat, zero_value: U256)
    requires
        1 <= height <= MAX_HEIGHT,
    ensures
        LadderState::start(height, zero_value).drive(h) == LadderState::complete(
            h,
            height,
            zero_value,
        ),
        LadderState::complete(h, height, zero_value).is_complete(),
        LadderState::complete(h, height, zero_value).wf(),
        LadderState::complete(h, height, zero_value).pending() is None,
{
    lemma_ladder_drive_from(h, zero_value, LadderState::start(height, zero_value));
}

/// An insertion started on `s` whose nodes so far lie on the path of `leaf`
/// under `h` has, once driven by `h`, exactly that path.
proof fn lemma_insertion_drive_from(
    h: spec_fn(U256, U256) -> U256,
    s: TreeState,
    leaf: U256,
    ins: InsertionState,
)
    requires
        s.wf(),
        ins.wf(),
        ins.index == s.count,
        ins.siblings == s.siblings(),
        forall|i: int| 0 <= i < ins.nodes.len() ==> ins.nodes[i] == s.path_node(h, leaf, i as nat),
    ensures
        ins.drive(h) == (InsertionState { nodes: s.path(h, leaf), ..ins }),
    decreases ins.height() + 1 - ins.nodes.len(),
{
    if ins.nodes.len() <= ins.height() {
        let req = ins.pending()->0;
        lemma_insertion_drive_from(h, s, leaf, ins.advance(h(req.left, req.right)));
    } else {
        assert(ins.nodes =~= s.path(h, leaf));
    }
}

/// An insertion into a tree with a free position, with every request
/// answered by `h`, ends with the path of the leaf under `h`: the tree accepts
/// it, writes the path and returns its last node as the new root.
pub proof fn lemma_insertion_driven(h: spec_fn(U256, U256) -> U256, s: TreeState, leaf: U256)
    requires
        s.wf(),
        !s.is_full(),
    ensures
        s.begin(leaf).wf(),
        s.begin(leaf).drive(h).is_complete(),
        s.begin(leaf).drive(h).nodes == s.path(h, leaf),
        s.finish_outcome(s.begin(leaf).drive(h)) == Ok::<U256, InsertError>(
            s.path_node(h, leaf, s.height()),
        ),
        s.insert(h, leaf) == s.record(s.path(h, leaf)),
        s.insert(h, leaf).wf(),
        s.insert(h, leaf).current_root() == s.path_node(h, leaf, s.height()),
{
    lemma_insertion_drive_from(h, s, leaf, s.begin(leaf));
}

/// A full tree takes no further leaf: whatever is handed back, it stays as
/// it is.
pub proof fn lemma_full_tree_refuses(h: spec_fn(U256, U256) -> U256, s: TreeState, leaf: U256)
    requires
        s.is_full(),
    ensures
        s.insert(h, leaf) == s,
        s.finish_outcome(s.begin(leaf).drive(h)) is Err,
{
}

/// An empty tree of a supported height with a window is well formed.
pub proof fn lemma_empty_is_wf(
    h: spec_fn(U256, U256) -> U256,
    height: nat,
    zero_value: U256,
    window: nat,
)
    requires
        1 <= height <= MAX_HEIGHT,
        window >= 1,
    ensures
        TreeState::empty(h, height, zero_value, window).wf(),
        TreeState::empty(h, height, zero_value, window).height() == height,
        TreeState::empty(h, height, zero_value, window).count == 0,
        TreeState::empty(h, height, zero_value, window).current_root() == zero_at(
            h,
            zero_value,
            height,
        ),
{
}

/// The last `window` values of `all`, or all of them if there are fewer.
pub open spec fn newest(all: Seq<U256>, window: nat) -> Seq<U256> {
    if all.len() <= window {
        all
    } else {
        all.skip(all.len() - window)
    }
}

/// Inserting leaves for which the tree has room keeps the shape of the tree
/// and counts them.
pub proof fn lemma_insert_all_counts(
    h: spec_fn(U256, U256) -> U256,
    s: TreeState,
    leaves: Seq<U256>,
)
    requires
        s.wf(),
        s.count + leaves.len() <= pow2(s.height()),
    ensures
        s.insert_all(h, leaves).wf(),
        s.insert_all(h, leaves).count == s.count + leaves.len(),
        s.insert_all(h, leaves).height() == s.height(),
        s.insert_all(h, leaves).zeros == s.zeros,
        s.insert_all(h, leaves).window == s.window,
    decreases leaves.len(),
{
    if leaves.len() > 0 {
        lemma_insert_all_counts(h, s, leaves.drop_last());
        lemma_insertion_driven(h, s.insert_all(h, leaves.drop_last()), leaves.last());
    }
}

/// The nodes of a path depend on the tree alone, not on the roots retained.
proof fn lemma_same_tree_same_path(
    h: spec_fn(U256, U256) -> U256,
    a: TreeState,
    b: TreeState,
    leaf: U256,
    level: nat,
)
    requires
        a.same_tree(b),
    ensures
        a.path_node(h, leaf, level) == b.path_node(h, leaf, level),
    decreases level,
{
    if level > 0 {
        lemma_same_tree_same_path(h, a, b, leaf, (level - 1) as nat);
    }
}

/// Two states that hold the same tree still do after the same insertions, and
/// their newest roots agree.
proof fn lemma_same_tree_kept(
    h: spec_fn(U256, U256) -> U256,
    a: TreeState,
    b: TreeState,
    leaves: Seq<U256>,
)
    requires
        a.wf(),
        b.wf(),
        a.same_tree(b),
        a.count + leaves.len() <= pow2(a.height()),
    ensures
        a.insert_all(h, leaves).same_tree(b.insert_all(h, leaves)),
        leaves.len() > 0 ==> a.insert_all(h, leaves).current_root() == b.insert_all(
            h,
            leaves,
        ).current_root(),
    decreases leaves.len(),
{
    if leaves.len() > 0 {
        lemma_same_tree_kept(h, a, b, leaves.drop_last());
        lemma_insert_all_counts(h, a, leaves.drop_last());
        lemma_insert_all_counts(h, b, leaves.drop_last());
        let a1 = a.insert_all(h, leaves.drop_last());
        let b1 = b.insert_all(h, leaves.drop_last());
        let leaf = leaves.last();
        lemma_insertion_driven(h, a1, leaf);
        lemma_insertion_driven(h, b1, leaf);
        assert forall|level: nat| a1.path_node(h, leaf, level) == b1.path_node(h, leaf, level) by {
            lemma_same_tree_same_path(h, a1, b1, leaf, level);
        }
        assert(a1.path(h, leaf) =~= b1.path(h, leaf));
    }
}

/// Two accumulators that hold the same tree produce the same sequence of
/// roots from the same sequence of leaves for which they have room, whatever
/// the sizes of their windows and whatever roots they retained before.
pub proof fn lemma_same_leaves_same_roots(
    h: spec_fn(U256, U256) -> U256,
    a: TreeState,
    b: TreeState,
    leaves: Seq<U256>,
)
    requires
        a.wf(),
        b.wf(),
        a.same_tree(b),
        a.count + leaves.len() <= pow2(a.height()),
    ensures
        a.roots_after(h, leaves) == b.roots_after(h, leaves),
{
    assert forall|k: int| 0 <= k < leaves.len() implies a.roots_after(h, leaves)[k]
        == b.roots_after(h, leaves)[k] by {
        lemma_same_tree_kept(h, a, b, leaves.take(k + 1));
    }
}

/// Two empty trees of the same height over the same zero value produce the
/// same sequence of roots from the same sequence of leaves, as long as the
/// leaves fit.
pub proof fn lemma_empty_trees_agree(
    h: spec_fn(U256, U256) -> U256,
    height: nat,
    zero_value: U256,
    window_a: nat,
    window_b: nat,
    leaves: Seq<U256>,
)
    requires
        1 <= height <= MAX_HEIGHT,
        window_a >= 1,
        window_b >= 1,
        leaves.len() <= pow2(height),
    ensures
        TreeState::empty(h, height, zero_value, window_a).roots_after(h, leaves)
            == TreeState::empty(h, height, zero_value, window_b).roots_after(h, leaves),
{
    lemma_same_leaves_same_roots(
        h,
        TreeState::empty(h, height, zero_value, window_a),
        TreeState::empty(h, height, zero_value, window_b),
        leaves,
    );
}

/// After insertions for which the tree has room, the retained roots are the
/// newest `window` of the roots retained before followed by the roots of the
/// insertions.
pub proof fn lemma_window_holds_newest(
    h: spec_fn(U256, U256) -> U256,
    s: TreeState,
    leaves: Seq<U256>,
)
    requires
        s.wf(),
        s.count + leaves.len() <= pow2(s.height()),
    ensures
        s.insert_all(h, leaves).roots == newest(s.roots + s.roots_after(h, leaves), s.window),
    decreases leaves.len(),
{
    if leaves.len() > 0 {
        let before = leaves.drop_last();
        lemma_window_holds_newest(h, s, before);
        lemma_insert_all_counts(h, s, before);
        let t = s.insert_all(h, before);
        lemma_insertion_driven(h, t, leaves.last());
        let root = t.insert(h, leaves.last()).current_root();
        assert(s.roots_after(h, leaves) =~= s.roots_after(h, before).push(root)) by {
            assert forall|k: int| 0 <= k < before.len() implies #[trigger] s.roots_after(
                h,
                leaves,
            )[k] == s.roots_after(h, before)[k] by {
                assert(leaves.take(k + 1) =~= before.take(k + 1));
            }
            assert(leaves.take(leaves.len() as int) =~= leaves);
        }
    }
}

/// After one insertion more than the window holds, the retained roots are
/// exactly those of all insertions but the first. So each of them is known,
/// and the root of the first insertion is known only if a later insertion
/// produced the same value again.
pub proof fn lemma_window_slides(h: spec_fn(U256, U256) -> U256, s: TreeState, leaves: Seq<U256>)
    requires
        s.wf(),
        leaves.len() == s.window + 1,
        s.count + leaves.len() <= pow2(s.height()),
    ensures
        s.insert_all(h, leaves).roots == s.roots_after(h, leaves).skip(1),
        forall|k: int|
            1 <= k < leaves.len() ==> s.insert_all(h, leaves).knows(
                #[trigger] s.roots_after(h, leaves)[k],
            ),
        (forall|k: int|
            1 <= k < leaves.len() ==> #[trigger] s.roots_after(h, leaves)[k] != s.roots_after(
                h,
                leaves,
            )[0]) ==> !s.insert_all(h, leaves).knows(s.roots_after(h, leaves)[0]),
{
    lemma_window_holds_newest(h, s, leaves);
    let made = s.roots_after(h, leaves);
    let kept = s.insert_all(h, leaves).roots;
    assert forall|k: int| 1 <= k < leaves.len() implies kept.contains(#[trigger] made[k]) by {
        assert(kept[k - 1] == made[k]);
    }
}

/// Filling the free positions of a tree meets no refusal, since the tree is
/// not full before any of these insertions, and leaves it full, so that one
/// more leaf is refused and changes nothing.
pub proof fn lemma_capacity_boundary(
    h: spec_fn(U256, U256) -> U256,
    s: TreeState,
    leaves: Seq<U256>,
    extra: U256,
)
    requires
        s.wf(),
        s.count + leaves.len() == pow2(s.height()),
    ensures
        forall|k: int|
            0 <= k < leaves.len() ==> !(#[trigger] s.insert_all(h, leaves.take(k))).is_full(),
        s.insert_all(h, leaves).is_full(),
        s.insert_all(h, leaves).wf(),
        s.insert_all(h, leaves.push(extra)) == s.insert_all(h, leaves),
{
    assert(leaves.push(extra).drop_last() =~= leaves);
    lemma_insert_all_counts(h, s, leaves);
    assert forall|k: int| 0 <= k < leaves.len() implies !(#[trigger] s.insert_all(
        h,
        leaves.take(k),
    )).is_full() by {
        lemma_insert_all_counts(h, s, leaves.take(k));
    }
}

} // verus!
