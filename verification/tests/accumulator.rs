use mixer_core::accumulator::{
    HashRequest, InsertError, Insertion, MerkleTree, SetupError, TreeParts, ZeroLadder,
};
use mixer_core::field::U256;

/// A stand-in for the field hash: deterministic and sensitive to the order of
/// its arguments.
fn mix(left: U256, right: U256) -> U256 {
    let a = left.hi.rotate_left(5) ^ left.lo.wrapping_mul(0x9e37_79b9_7f4a_7c15);
    let b = right.hi.rotate_left(11) ^ right.lo.wrapping_mul(0xc2b2_ae3d_27d4_eb4f);
    U256::new(
        a.wrapping_mul(3).wrapping_add(b).wrapping_add(1),
        a.rotate_left(64).wrapping_add(b.wrapping_mul(7)).wrapping_add(left.lo ^ right.hi),
    )
}

fn answer(request: HashRequest) -> U256 {
    mix(request.left, request.right)
}

fn ladder(height: u64, zero: U256) -> ZeroLadder {
    let mut ladder = ZeroLadder::new(height, zero).unwrap();
    while let Some(request) = ladder.pending() {
        ladder = ladder.advance(answer(request));
    }
    ladder
}

fn tree(height: u64, window: u8, zero: U256) -> MerkleTree {
    MerkleTree::new(ladder(height, zero), window).unwrap()
}

fn hashed(mut insertion: Insertion) -> Insertion {
    while let Some(request) = insertion.pending() {
        insertion = insertion.advance(answer(request));
    }
    insertion
}

fn insert(tree: &mut MerkleTree, leaf: U256) -> Result<U256, InsertError> {
    let insertion = tree.begin_insert(leaf)?;
    tree.finish_insert(hashed(insertion))
}

/// Root of the subtree of the given height at the given position, computed
/// from all the leaves.
fn subtree(leaves: &[U256], zero: U256, level: u32, position: usize) -> U256 {
    if level == 0 {
        if position < leaves.len() {
            leaves[position]
        } else {
            zero
        }
    } else {
        mix(
            subtree(leaves, zero, level - 1, 2 * position),
            subtree(leaves, zero, level - 1, 2 * position + 1),
        )
    }
}

fn leaf(n: u128) -> U256 {
    U256::new(n.wrapping_mul(0x1234_5678_9abc_def1), n + 100)
}

const ZERO: U256 = U256 { hi: 7, lo: 11 };

#[test]
fn ladder_height_must_be_between_one_and_thirty_two() {
    assert!(matches!(ZeroLadder::new(0, ZERO), Err(SetupError::InvalidHeight)));
    assert!(matches!(ZeroLadder::new(33, ZERO), Err(SetupError::InvalidHeight)));
    assert!(matches!(ZeroLadder::new(u64::MAX, ZERO), Err(SetupError::InvalidHeight)));
    assert!(ZeroLadder::new(1, ZERO).is_ok());
    assert!(ZeroLadder::new(32, ZERO).is_ok());
}

#[test]
fn ladder_asks_for_the_top_rung_with_itself() {
    let ladder = ZeroLadder::new(2, ZERO).unwrap();
    assert!(!ladder.is_complete());
    assert_eq!(ladder.pending(), Some(HashRequest { left: ZERO, right: ZERO }));
    let first = U256::new(1, 2);
    let ladder = ladder.advance(first);
    assert!(!ladder.is_complete());
    assert_eq!(ladder.pending(), Some(HashRequest { left: first, right: first }));
    let second = U256::new(3, 4);
    let ladder = ladder.advance(second);
    assert!(ladder.is_complete());
    assert_eq!(ladder.pending(), None);
}

#[test]
fn complete_ladder_ignores_further_digests() {
    let ladder = ladder(1, ZERO).advance(U256::new(9, 9));
    assert!(ladder.is_complete());
    let tree = MerkleTree::new(ladder, 1).unwrap();
    assert_eq!(tree.current_root(), mix(ZERO, ZERO));
}

#[test]
fn tree_needs_a_complete_ladder_and_a_window() {
    let short = ZeroLadder::new(3, ZERO).unwrap().advance(mix(ZERO, ZERO));
    assert!(matches!(MerkleTree::new(short, 5), Err(SetupError::IncompleteLadder)));
    let short = ZeroLadder::new(3, ZERO).unwrap();
    assert!(matches!(MerkleTree::new(short, 0), Err(SetupError::IncompleteLadder)));
    assert!(matches!(MerkleTree::new(ladder(3, ZERO), 0), Err(SetupError::EmptyWindow)));
    assert!(MerkleTree::new(ladder(3, ZERO), 1).is_ok());
    assert!(MerkleTree::new(ladder(3, ZERO), 255).is_ok());
}

#[test]
fn empty_tree_has_the_root_of_empty_subtrees() {
    let tree = tree(2, 4, ZERO);
    let level_one = mix(ZERO, ZERO);
    let root = mix(level_one, level_one);
    assert_eq!(tree.height(), 2);
    assert_eq!(tree.leaf_count(), 0);
    assert_eq!(tree.current_root(), root);
    assert!(tree.is_known_valid_root(root));
    assert!(!tree.is_known_valid_root(level_one));
    assert!(!tree.is_known_valid_root(ZERO));
}

#[test]
fn insertion_asks_for_pairs_left_first() {
    let mut tree = tree(2, 4, ZERO);
    let zero_one = mix(ZERO, ZERO);
    let a = leaf(1);
    let b = leaf(2);
    let c = leaf(3);

    // First leaf: a left child on both levels, beside empty subtrees.
    let insertion = tree.begin_insert(a).unwrap();
    assert_eq!(insertion.index(), 0);
    assert_eq!(insertion.leaf(), a);
    assert_eq!(insertion.pending(), Some(HashRequest { left: a, right: ZERO }));
    let insertion = insertion.advance(mix(a, ZERO));
    assert!(!insertion.is_complete());
    assert_eq!(insertion.pending(), Some(HashRequest { left: mix(a, ZERO), right: zero_one }));
    let insertion = insertion.advance(mix(mix(a, ZERO), zero_one));
    assert!(insertion.is_complete());
    assert_eq!(insertion.pending(), None);
    assert_eq!(tree.finish_insert(insertion), Ok(mix(mix(a, ZERO), zero_one)));
    assert_eq!(tree.leaf_count(), 1);

    // Second leaf: a right child of the first, then a left child.
    let insertion = tree.begin_insert(b).unwrap();
    assert_eq!(insertion.index(), 1);
    assert_eq!(insertion.pending(), Some(HashRequest { left: a, right: b }));
    let insertion = insertion.advance(mix(a, b));
    assert_eq!(insertion.pending(), Some(HashRequest { left: mix(a, b), right: zero_one }));
    let insertion = insertion.advance(mix(mix(a, b), zero_one));
    assert_eq!(tree.finish_insert(insertion), Ok(mix(mix(a, b), zero_one)));

    // Third leaf: a left child, then a right child of the finished pair.
    let insertion = tree.begin_insert(c).unwrap();
    assert_eq!(insertion.index(), 2);
    assert_eq!(insertion.pending(), Some(HashRequest { left: c, right: ZERO }));
    let insertion = insertion.advance(mix(c, ZERO));
    assert_eq!(insertion.pending(), Some(HashRequest { left: mix(a, b), right: mix(c, ZERO) }));
    let insertion = insertion.advance(mix(mix(a, b), mix(c, ZERO)));
    assert_eq!(tree.finish_insert(insertion), Ok(mix(mix(a, b), mix(c, ZERO))));
    assert_eq!(tree.current_root(), mix(mix(a, b), mix(c, ZERO)));
    assert_eq!(tree.leaf_count(), 3);
}

#[test]
fn complete_insertion_ignores_further_digests() {
    let mut tree = tree(1, 2, ZERO);
    let a = leaf(1);
    let insertion = hashed(tree.begin_insert(a).unwrap());
    let insertion = insertion.advance(U256::new(5, 5));
    assert!(insertion.is_complete());
    assert_eq!(tree.finish_insert(insertion), Ok(mix(a, ZERO)));
}

#[test]
fn every_root_is_the_root_of_the_full_tree() {
    let mut tree = tree(3, 3, ZERO);
    let mut leaves: Vec<U256> = Vec::new();
    assert_eq!(tree.current_root(), subtree(&leaves, ZERO, 3, 0));
    for n in 0..8u128 {
        leaves.push(leaf(n));
        let root = insert(&mut tree, leaf(n)).unwrap();
        assert_eq!(root, subtree(&leaves, ZERO, 3, 0));
        assert_eq!(tree.current_root(), root);
        assert_eq!(tree.leaf_count(), n as u64 + 1);
    }
}

#[test]
fn same_leaves_give_same_roots() {
    let mut one = tree(4, 2, ZERO);
    let mut other = tree(4, 9, ZERO);
    assert_eq!(one.current_root(), other.current_root());
    for n in 0..16u128 {
        let a = insert(&mut one, leaf(n)).unwrap();
        let b = insert(&mut other, leaf(n)).unwrap();
        assert_eq!(a, b);
    }
}

#[test]
fn other_zero_value_gives_other_roots() {
    let mut one = tree(2, 2, ZERO);
    let mut other = tree(2, 2, U256::new(0, 1));
    assert_ne!(one.current_root(), other.current_root());
    assert_ne!(insert(&mut one, leaf(1)).unwrap(), insert(&mut other, leaf(1)).unwrap());
}

#[test]
fn window_keeps_the_newest_roots() {
    let window = 3u8;
    let mut tree = tree(4, window, ZERO);
    let initial = tree.current_root();
    let mut roots: Vec<U256> = Vec::new();
    for n in 0..(window as u128 + 1) {
        roots.push(insert(&mut tree, leaf(n)).unwrap());
        if n + 1 < window as u128 {
            assert!(tree.is_known_valid_root(initial));
        } else {
            assert!(!tree.is_known_valid_root(initial));
        }
    }
    assert!(!tree.is_known_valid_root(roots[0]));
    assert!(tree.is_known_valid_root(roots[1]));
    assert!(tree.is_known_valid_root(roots[2]));
    assert!(tree.is_known_valid_root(roots[3]));
    assert_eq!(tree.current_root(), roots[3]);
}

#[test]
fn window_of_one_keeps_the_current_root_only() {
    let mut tree = tree(2, 1, ZERO);
    let initial = tree.current_root();
    assert!(tree.is_known_valid_root(initial));
    let first = insert(&mut tree, leaf(1)).unwrap();
    assert!(!tree.is_known_valid_root(initial));
    assert!(tree.is_known_valid_root(first));
    let second = insert(&mut tree, leaf(2)).unwrap();
    assert!(!tree.is_known_valid_root(first));
    assert!(tree.is_known_valid_root(second));
}

#[test]
fn full_tree_refuses_the_next_leaf() {
    let mut tree = tree(2, 2, ZERO);
    for n in 0..4u128 {
        assert!(insert(&mut tree, leaf(n)).is_ok());
    }
    assert_eq!(tree.leaf_count(), 4);
    let root = tree.current_root();
    assert!(matches!(tree.begin_insert(leaf(4)), Err(InsertError::CapacityExceeded)));
    assert_eq!(insert(&mut tree, leaf(4)), Err(InsertError::CapacityExceeded));
    assert_eq!(tree.leaf_count(), 4);
    assert_eq!(tree.current_root(), root);
}

#[test]
fn tree_of_height_one_holds_two_leaves() {
    let mut tree = tree(1, 4, ZERO);
    assert_eq!(insert(&mut tree, leaf(1)), Ok(mix(leaf(1), ZERO)));
    assert_eq!(insert(&mut tree, leaf(2)), Ok(mix(leaf(1), leaf(2))));
    assert_eq!(insert(&mut tree, leaf(3)), Err(InsertError::CapacityExceeded));
}

#[test]
fn unfinished_insertion_is_refused() {
    let mut tree = tree(3, 2, ZERO);
    let root = tree.current_root();
    let insertion = tree.begin_insert(leaf(1)).unwrap();
    let insertion = insertion.advance(mix(leaf(1), ZERO));
    assert!(!insertion.is_complete());
    assert_eq!(tree.finish_insert(insertion), Err(InsertError::IncompleteInsertion));
    assert_eq!(tree.leaf_count(), 0);
    assert_eq!(tree.current_root(), root);
    assert_eq!(insert(&mut tree, leaf(1)), Ok(subtree(&[leaf(1)], ZERO, 3, 0)));
}

#[test]
fn insertion_started_on_an_earlier_state_is_refused() {
    let mut tree = tree(3, 2, ZERO);
    let early = hashed(tree.begin_insert(leaf(1)).unwrap());
    let late = hashed(tree.begin_insert(leaf(2)).unwrap());
    assert!(tree.finish_insert(early).is_ok());
    let root = tree.current_root();
    assert_eq!(tree.finish_insert(late), Err(InsertError::StaleInsertion));
    assert_eq!(tree.leaf_count(), 1);
    assert_eq!(tree.current_root(), root);
}

#[test]
fn insertion_started_on_another_tree_is_refused() {
    let mut one = tree(2, 2, ZERO);
    let mut other = tree(2, 2, ZERO);
    insert(&mut one, leaf(1)).unwrap();
    insert(&mut other, leaf(9)).unwrap();
    let foreign = hashed(other.begin_insert(leaf(2)).unwrap());
    assert_eq!(one.finish_insert(foreign), Err(InsertError::StaleInsertion));
    let taller = tree(3, 2, ZERO);
    let mut fresh = tree(2, 2, ZERO);
    let foreign = hashed(taller.begin_insert(leaf(2)).unwrap());
    assert_eq!(fresh.finish_insert(foreign), Err(InsertError::StaleInsertion));
}

#[test]
fn tree_of_full_height_takes_a_leaf() {
    let mut tree = tree(32, 1, ZERO);
    let root = insert(&mut tree, leaf(1)).unwrap();
    let mut expected = leaf(1);
    let mut zero = ZERO;
    for _ in 0..32 {
        expected = mix(expected, zero);
        zero = mix(zero, zero);
    }
    assert_eq!(root, expected);
    assert_eq!(tree.height(), 32);
}

#[test]
fn tree_comes_apart_and_together() {
    let mut tree = tree(2, 2, ZERO);
    let zero_one = mix(ZERO, ZERO);
    let initial = tree.current_root();
    let first = insert(&mut tree, leaf(1)).unwrap();
    let parts = tree.into_parts();
    assert_eq!(
        parts,
        TreeParts {
            zeros: vec![ZERO, zero_one, initial],
            filled: vec![leaf(1), mix(leaf(1), ZERO)],
            roots: vec![initial, first],
            window: 2,
            count: 1,
        }
    );
    let mut tree = MerkleTree::from_parts(parts).unwrap();
    assert_eq!(tree.current_root(), first);
    assert!(tree.is_known_valid_root(initial));
    assert_eq!(tree.leaf_count(), 1);
    let second = insert(&mut tree, leaf(2)).unwrap();
    assert_eq!(second, subtree(&[leaf(1), leaf(2)], ZERO, 2, 0));
    assert!(!tree.is_known_valid_root(initial));
    assert_eq!(tree.into_parts().roots, vec![first, second]);
}

fn parts() -> TreeParts {
    TreeParts {
        zeros: vec![ZERO, ZERO, ZERO],
        filled: vec![ZERO, ZERO],
        roots: vec![ZERO],
        window: 1,
        count: 4,
    }
}

fn malformed(parts: TreeParts) -> bool {
    matches!(MerkleTree::from_parts(parts), Err(SetupError::MalformedParts))
}

#[test]
fn parts_must_fit_together() {
    assert!(MerkleTree::from_parts(parts()).is_ok());
    assert!(malformed(TreeParts { count: 5, ..parts() }));
    assert!(malformed(TreeParts { window: 0, ..parts() }));
    assert!(malformed(TreeParts { roots: vec![], ..parts() }));
    assert!(malformed(TreeParts { roots: vec![ZERO, ZERO], ..parts() }));
    assert!(malformed(TreeParts { zeros: vec![ZERO, ZERO], ..parts() }));
    assert!(malformed(TreeParts { zeros: vec![ZERO; 4], ..parts() }));
    assert!(malformed(TreeParts { filled: vec![], zeros: vec![ZERO], ..parts() }));
    assert!(malformed(TreeParts { filled: vec![ZERO; 33], zeros: vec![ZERO; 34], ..parts() }));
    assert!(MerkleTree::from_parts(TreeParts {
        filled: vec![ZERO; 32],
        zeros: vec![ZERO; 33],
        count: 1 << 32,
        ..parts()
    })
    .is_ok());
    assert!(malformed(TreeParts {
        filled: vec![ZERO; 32],
        zeros: vec![ZERO; 33],
        count: (1 << 32) + 1,
        ..parts()
    }));
}

#[test]
fn full_tree_stays_full_when_stored() {
    let mut tree = MerkleTree::from_parts(parts()).unwrap();
    assert_eq!(insert(&mut tree, leaf(1)), Err(InsertError::CapacityExceeded));
}
