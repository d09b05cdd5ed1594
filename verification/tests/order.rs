use jamsession::order::{less_than, sort_strings};

#[test]
fn strings_sort_like_std() {
    let input: Vec<String> = ["pear", "apple", "Banana", "apple", "", "appl", "éclair", "zebra"]
        .iter()
        .map(|s| s.to_string())
        .collect();
    let mut expected = input.clone();
    expected.sort();
    assert_eq!(sort_strings(input), expected);
}

#[test]
fn less_than_is_std_order() {
    assert!(less_than("a", "b"));
    assert!(less_than("", "a"));
    assert!(less_than("ab", "abc"));
    assert!(!less_than("abc", "ab"));
    assert!(!less_than("same", "same"));
    assert!(less_than("Z", "a"));
}
