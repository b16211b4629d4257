use mixer_core::field::U256;

#[test]
fn halves_are_kept() {
    let x = U256::new(3, 4);
    assert_eq!(x.hi, 3);
    assert_eq!(x.lo, 4);
    assert_eq!(x, U256 { hi: 3, lo: 4 });
    assert_ne!(x, U256 { hi: 4, lo: 3 });
}

#[test]
fn zero_is_zero() {
    assert!(U256::zero().is_zero());
    assert_eq!(U256::zero(), U256::new(0, 0));
    assert!(!U256::new(0, 1).is_zero());
    assert!(!U256::new(1, 0).is_zero());
}

#[test]
fn widening_keeps_the_value() {
    assert_eq!(U256::from_u128(0), U256::zero());
    assert_eq!(U256::from_u128(u128::MAX), U256::new(0, u128::MAX));
    assert_eq!(U256::from_u128(42).to_u128(), Some(42));
}

#[test]
fn narrowing_fails_above_128_bits() {
    assert_eq!(U256::new(0, u128::MAX).to_u128(), Some(u128::MAX));
    assert_eq!(U256::new(1, 0).to_u128(), None);
    assert_eq!(U256::new(u128::MAX, 5).to_u128(), None);
}

#[test]
fn order_goes_by_the_high_half_first() {
    let small = U256::new(0, u128::MAX);
    let large = U256::new(1, 0);
    assert!(small.lt(&large));
    assert!(!large.lt(&small));
    assert!(!small.lt(&small));
    assert!(U256::new(2, 3).lt(&U256::new(2, 4)));
    assert!(!U256::new(2, 4).lt(&U256::new(2, 3)));
    assert!(U256::zero().lt(&U256::new(0, 1)));
}

#[test]
fn limbs_are_little_endian() {
    let x = U256::from_limbs([1, 2, 3, 4]);
    assert_eq!(x, U256::new((4u128 << 64) | 3, (2u128 << 64) | 1));
    assert_eq!(x.to_limbs(), [1, 2, 3, 4]);
    assert_eq!(U256::from_u128(u128::MAX).to_limbs(), [u64::MAX, u64::MAX, 0, 0]);
    assert_eq!(U256::from_limbs([0, 0, 0, 0]), U256::zero());
    assert_eq!(
        U256::from_limbs([u64::MAX, 0, u64::MAX, 0]),
        U256::new(u64::MAX as u128, u64::MAX as u128)
    );
}
