use mixer_core::account::is_account_id;

#[test]
fn plain_names_are_accepted() {
    assert!(is_account_id("test.near"));
    assert!(is_account_id("owner"));
    assert!(is_account_id("a_b-c.d"));
    assert!(is_account_id("0a"));
    assert!(is_account_id("100"));
}

#[test]
fn length_is_between_two_and_sixty_four() {
    assert!(!is_account_id(""));
    assert!(!is_account_id("a"));
    assert!(is_account_id("ab"));
    let longest = "a".repeat(64);
    assert!(is_account_id(&longest));
    let too_long = "a".repeat(65);
    assert!(!is_account_id(&too_long));
}

#[test]
fn other_characters_are_refused() {
    assert!(!is_account_id("Test.near"));
    assert!(!is_account_id("test!.%.near"));
    assert!(!is_account_id("te st"));
    assert!(!is_account_id("t\u{e9}st"));
    assert!(!is_account_id("a@b"));
}

#[test]
fn separators_stand_between_parts() {
    assert!(!is_account_id(".ab"));
    assert!(!is_account_id("-ab"));
    assert!(!is_account_id("_ab"));
    assert!(!is_account_id("ab."));
    assert!(!is_account_id("ab-"));
    assert!(!is_account_id("ab_"));
    assert!(!is_account_id("a..b"));
    assert!(!is_account_id("a-_b"));
    assert!(!is_account_id("a.-b"));
    assert!(is_account_id("a.b"));
    assert!(is_account_id("a-b_c"));
}
