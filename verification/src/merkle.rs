//! The Merkle root as a function of the leaves, and the proof that the
//! accumulator, which never stores the leaves, arrives at it.

use vstd::prelude::*;
use vstd::arithmetic::power2::pow2;
use vstd::arithmetic::power2::{lemma_pow2_pos, lemma_pow2_unfold};
use vstd::arithmetic::div_mod::{
    lemma_basic_div,
    lemma_div_denominator,
    lemma_fundamental_div_mod,
    lemma_fundamental_div_mod_converse,
};
use crate::field::U256;
use crate::accumulator::{TreeState, MAX_HEIGHT, is_right, zero_at};
use crate::hashed::{lemma_insert_all_counts, lemma_insertion_driven};

verus! {

/// The leaf at `position`: the one inserted there, or the zero value where
/// none has been inserted yet.
pub open spec fn leaf_at(leaves: Seq<U256>, zero_value: U256, position: nat) -> U256 {
    if position < leaves.len() {
        leaves[position as int]
    } else {
        zero_value
    }
}

/// Root of the subtree of height `level` that is the `position`-th of its
/// level, counted from the left.
pub open spec fn subtree_root(
    h: spec_fn(U256, U256) -> U256,
    leaves: Seq<U256>,
    zero_value: U256,
    level: nat,
    position: nat,
) -> U256
    decreases level,
{
    if level == 0 {
        leaf_at(leaves, zero_value, position)
    } else {
        h(
            subtree_root(h, leaves, zero_value, (level - 1) as nat, 2 * position),
            subtree_root(h, leaves, zero_value, (level - 1) as nat, 2 * position + 1),
        )
    }
}

/// Root of the tree of the given height whose first leaves are `leaves` and
/// whose other leaves hold the zero value.
pub open spec fn merkle_root(
    h: spec_fn(U256, U256) -> U256,
    leaves: Seq<U256>,
    zero_value: U256,
    height: nat,
) -> U256 {
    subtree_root(h, leaves, zero_value, height, 0)
}

/// Whether `s` is the accumulator of `leaves`: it counts them, its zeros are
/// the roots of empty subtrees, and wherever the next leaf's path turns right
/// the stored left sibling is the root of the finished subtree beside it.
pub open spec fn tracks(
    s: TreeState,
    h: spec_fn(U256, U256) -> U256,
    leaves: Seq<U256>,
    zero_value: U256,
) -> bool {
    &&& s.zeros.len() == s.height() + 1
    &&& s.count == leaves.len()
    &&& forall|level: int|
        0 <= level <= s.height() ==> #[trigger] s.zeros[level] == zero_at(
            h,
            zero_value,
            level as nat,
        )
    &&& forall|level: int|
        0 <= level < s.height() && is_right(s.count, level as nat) ==> #[trigger] s.filled[level]
            == subtree_root(
            h,
            leaves,
            zero_value,
            level as nat,
            (s.count / pow2(level as nat) - 1) as nat,
        )
}

/// Quotient and remainder of `n` by a power of two.
proof fn lemma_split(n: nat, level: nat)
    ensures
        pow2(level) > 0,
        n == pow2(level) * (n / pow2(level)) + n % pow2(level),
        n % pow2(level) < pow2(level),
        pow2(level + 1) == 2 * pow2(level),
        (n / pow2(level)) / 2 == n / pow2(level + 1),
{
    lemma_pow2_pos(level);
    lemma_pow2_unfold(level + 1);
    lemma_fundamental_div_mod(n as int, pow2(level) as int);
    lemma_div_denominator(n as int, pow2(level) as int, 2);
}

/// Going from `n` to `n + 1` keeps the quotient by a power of two or raises
/// it by one; which of the two shows in the side at that level.
proof fn lemma_next_position(n: nat, level: nat)
    ensures
        is_right(n, level) && is_right(n + 1, level) ==> (n + 1) / pow2(level) == n / pow2(level),
        !is_right(n, level) && is_right(n + 1, level) ==> (n + 1) / pow2(level) == n / pow2(level)
            + 1,
{
    lemma_split(n, level);
    let p = pow2(level) as int;
    let q = (n / pow2(level)) as int;
    let r = (n % pow2(level)) as int;
    if r + 1 < p {
        lemma_fundamental_div_mod_converse(n as int + 1, p, q, r + 1);
    } else {
        assert(n + 1 == (q + 1) * p + 0) by (nonlinear_arith)
            requires
                n == p * q + r,
                r + 1 == p,
        ;
        lemma_fundamental_div_mod_converse(n as int + 1, p, q + 1, 0);
    }
}

/// A subtree that lies wholly to the right of the leaves is empty.
proof fn lemma_empty_subtree(
    h: spec_fn(U256, U256) -> U256,
    leaves: Seq<U256>,
    zero_value: U256,
    level: nat,
    position: nat,
)
    requires
        position * pow2(level) >= leaves.len(),
    ensures
        subtree_root(h, leaves, zero_value, level, position) == zero_at(h, zero_value, level),
    decreases level,
{
    if level == 0 {
        assert(pow2(0) == 1) by {
            vstd::arithmetic::power2::lemma2_to64();
        }
    } else {
        let below = (level - 1) as nat;
        lemma_pow2_unfold(level);
        lemma_pow2_pos(below);
        assert((2 * position) * pow2(below) >= leaves.len()) by (nonlinear_arith)
            requires
                position * pow2(level) >= leaves.len(),
                pow2(level) == 2 * pow2(below),
        ;
        assert((2 * position + 1) * pow2(below) >= leaves.len()) by (nonlinear_arith)
            requires
                position * pow2(level) >= leaves.len(),
                pow2(level) == 2 * pow2(below),
                pow2(below) > 0,
        ;
        lemma_empty_subtree(h, leaves, zero_value, below, 2 * position);
        lemma_empty_subtree(h, leaves, zero_value, below, 2 * position + 1);
    }
}

/// A subtree that lies wholly within the leaves is not changed by a further
/// leaf.
proof fn lemma_finished_subtree(
    h: spec_fn(U256, U256) -> U256,
    leaves: Seq<U256>,
    leaf: U256,
    zero_value: U256,
    level: nat,
    position: nat,
)
    requires
        (position + 1) * pow2(level) <= leaves.len(),
    ensures
        subtree_root(h, leaves.push(leaf), zero_value, level, position) == subtree_root(
            h,
            leaves,
            zero_value,
            level,
            position,
        ),
    decreases level,
{
    if level == 0 {
        assert(pow2(0) == 1) by {
            vstd::arithmetic::power2::lemma2_to64();
        }
    } else {
        let below = (level - 1) as nat;
        lemma_pow2_unfold(level);
        lemma_pow2_pos(below);
        assert((2 * position + 1) * pow2(below) <= leaves.len()) by (nonlinear_arith)
            requires
                (position + 1) * pow2(level) <= leaves.len(),
                pow2(level) == 2 * pow2(below),
                pow2(below) > 0,
        ;
        assert((2 * position + 1 + 1) * pow2(below) <= leaves.len()) by (nonlinear_arith)
            requires
                (position + 1) * pow2(level) <= leaves.len(),
                pow2(level) == 2 * pow2(below),
        ;
        lemma_finished_subtree(h, leaves, leaf, zero_value, below, 2 * position);
        lemma_finished_subtree(h, leaves, leaf, zero_value, below, 2 * position + 1);
    }
}

/// Each node on the path of a new leaf is the root of the subtree above that
/// leaf in the tree over the leaves with the new one added.
proof fn lemma_path_is_subtree(
    h: spec_fn(U256, U256) -> U256,
    s: TreeState,
    leaves: Seq<U256>,
    leaf: U256,
    zero_value: U256,
    level: nat,
)
    requires
        tracks(s, h, leaves, zero_value),
        level <= s.height(),
    ensures
        s.path_node(h, leaf, level) == subtree_root(
            h,
            leaves.push(leaf),
            zero_value,
            level,
            s.count / pow2(level),
        ),
    decreases level,
{
    let n = s.count;
    let grown = leaves.push(leaf);
    if level == 0 {
        assert(pow2(0) == 1) by {
            vstd::arithmetic::power2::lemma2_to64();
        }
    } else {
        let below = (level - 1) as nat;
        lemma_path_is_subtree(h, s, leaves, leaf, zero_value, below);
        lemma_split(n, below);
        let p = pow2(below);
        let q = n / p;
        if is_right(n, below) {
            let r = n % p;
            let m = leaves.len();
            assert(((q - 1) as nat + 1) * p <= m) by (nonlinear_arith)
                requires
                    n == p * q + r,
                    q >= 1,
                    n == m,
            ;
            lemma_finished_subtree(h, leaves, leaf, zero_value, below, (q - 1) as nat);
        } else {
            let r = n % p;
            let m = grown.len();
            assert((q + 1) * p >= m) by (nonlinear_arith)
                requires
                    n == p * q + r,
                    r < p,
                    m == n + 1,
            ;
            lemma_empty_subtree(h, grown, zero_value, below, q + 1);
        }
    }
}

/// Inserting a leaf under `h` turns the accumulator of `leaves` into the
/// accumulator of `leaves` with that leaf added, and the new root is the
/// Merkle root of the grown sequence.
pub proof fn lemma_insert_tracks(
    h: spec_fn(U256, U256) -> U256,
    s: TreeState,
    leaves: Seq<U256>,
    leaf: U256,
    zero_value: U256,
)
    requires
        s.wf(),
        tracks(s, h, leaves, zero_value),
        s.count < pow2(s.height()),
    ensures
        tracks(s.insert(h, leaf), h, leaves.push(leaf), zero_value),
        s.insert(h, leaf).current_root() == merkle_root(
            h,
            leaves.push(leaf),
            zero_value,
            s.height(),
        ),
{
    let n = s.count;
    let t = s.insert(h, leaf);
    let grown = leaves.push(leaf);
    lemma_insertion_driven(h, s, leaf);
    assert forall|level: int|
        0 <= level < t.height() && is_right(
            t.count,
            level as nat,
        ) implies #[trigger] t.filled[level] == subtree_root(
        h,
        grown,
        zero_value,
        level as nat,
        (t.count / pow2(level as nat) - 1) as nat,
    ) by {
        let l = level as nat;
        lemma_next_position(n, l);
        lemma_split(n, l);
        let p = pow2(l);
        let q = n / p;
        if is_right(n, l) {
            let r = n % p;
            let m = leaves.len();
            assert(((q - 1) as nat + 1) * p <= m) by (nonlinear_arith)
                requires
                    n == p * q + r,
                    q >= 1,
                    n == m,
            ;
            lemma_finished_subtree(h, leaves, leaf, zero_value, l, (q - 1) as nat);
        } else {
            lemma_path_is_subtree(h, s, leaves, leaf, zero_value, l);
        }
    }
    lemma_path_is_subtree(h, s, leaves, leaf, zero_value, s.height());
    lemma_basic_div(n as int, pow2(s.height()) as int);
}

/// An accumulator that started empty and took `leaves` under `h` has as its
/// current root the root of the full tree of its height over `leaves`, every
/// other leaf holding the zero value.
pub proof fn lemma_root_is_merkle_root(
    h: spec_fn(U256, U256) -> U256,
    height: nat,
    zero_value: U256,
    window: nat,
    leaves: Seq<U256>,
)
    requires
        1 <= height <= MAX_HEIGHT,
        window >= 1,
        leaves.len() <= pow2(height),
    ensures
        tracks(
            TreeState::empty(h, height, zero_value, window).insert_all(h, leaves),
            h,
            leaves,
            zero_value,
        ),
        TreeState::empty(h, height, zero_value, window).insert_all(h, leaves).current_root()
            == merkle_root(h, leaves, zero_value, height),
    decreases leaves.len(),
{
    let start = TreeState::empty(h, height, zero_value, window);
    if leaves.len() == 0 {
        assert forall|level: int|
            0 <= level < start.height() && is_right(
                start.count,
                level as nat,
            ) implies #[trigger] start.filled[level] == subtree_root(
            h,
            leaves,
            zero_value,
            level as nat,
            (start.count / pow2(level as nat) - 1) as nat,
        ) by {
            lemma_pow2_pos(level as nat);
        }
        lemma_empty_subtree(h, leaves, zero_value, height, 0);
    } else {
        let before = leaves.drop_last();
        lemma_root_is_merkle_root(h, height, zero_value, window, before);
        lemma_insert_all_counts(h, start, before);
        assert(before.push(leaves.last()) =~= leaves);
        lemma_insert_tracks(h, start.insert_all(h, before), before, leaves.last(), zero_value);
    }
}

} // verus!
