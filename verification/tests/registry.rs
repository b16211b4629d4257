use mixer_core::field::U256;
use mixer_core::registry::FieldSet;

#[test]
fn new_set_is_empty() {
    let set = FieldSet::new();
    assert!(!set.contains(&U256::zero()));
    assert!(!set.contains(&U256::new(1, 2)));
}

#[test]
fn inserted_value_is_found() {
    let mut set = FieldSet::new();
    assert!(set.insert(U256::new(1, 2)));
    assert!(set.contains(&U256::new(1, 2)));
    assert!(!set.contains(&U256::new(2, 1)));
    assert!(!set.contains(&U256::new(1, 3)));
    assert!(!set.contains(&U256::new(0, 2)));
}

#[test]
fn second_insert_reports_presence() {
    let mut set = FieldSet::new();
    assert!(set.insert(U256::new(1, 2)));
    assert!(!set.insert(U256::new(1, 2)));
    assert!(set.contains(&U256::new(1, 2)));
}

#[test]
fn values_with_the_same_low_half_are_kept_apart() {
    let mut set = FieldSet::new();
    assert!(set.insert(U256::new(1, 7)));
    assert!(set.insert(U256::new(2, 7)));
    assert!(set.insert(U256::new(3, 7)));
    assert!(!set.insert(U256::new(2, 7)));
    assert!(set.contains(&U256::new(1, 7)));
    assert!(set.contains(&U256::new(2, 7)));
    assert!(set.contains(&U256::new(3, 7)));
    assert!(!set.contains(&U256::new(4, 7)));
    assert!(!set.contains(&U256::new(7, 1)));
}

#[test]
fn earlier_values_stay() {
    let mut set = FieldSet::new();
    for n in 0..200u128 {
        assert!(set.insert(U256::new(n % 3, n)));
    }
    for n in 0..200u128 {
        assert!(set.contains(&U256::new(n % 3, n)));
        assert!(!set.contains(&U256::new(n % 3 + 3, n)));
    }
}
