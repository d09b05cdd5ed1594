use jamsession::text::{
    append_joined, append_padded, chars_of, find_char, rfind_char, split_whitespace, string_of,
    trim_bounds,
};

#[test]
fn trimming_and_splitting() {
    let v = chars_of("  a\tbb \n c  ");
    let (from, to) = trim_bounds(&v);
    assert_eq!(string_of(&v[from..to]), "a\tbb \n c");
    let words: Vec<String> = split_whitespace(&v, 0, v.len())
        .iter()
        .map(|w| string_of(w))
        .collect();
    assert_eq!(words, vec!["a", "bb", "c"]);
    let blank = chars_of(" \u{2003} ");
    assert_eq!(trim_bounds(&blank).0, trim_bounds(&blank).1);
}

#[test]
fn joining_and_padding() {
    let mut out = String::from(">");
    append_joined(&mut out, &["a".to_string(), "b".to_string(), "c".to_string()], ", ");
    assert_eq!(out, ">a, b, c");
    let mut out = String::new();
    append_joined(&mut out, &[], ", ");
    assert_eq!(out, "");
    let mut out = String::new();
    append_padded(&mut out, "ab", 5);
    assert_eq!(out, "ab   ");
    let mut out = String::new();
    append_padded(&mut out, "abcdef", 3);
    assert_eq!(out, "abcdef");
}

#[test]
fn finding_characters() {
    let v = chars_of("a.b.c");
    assert_eq!(find_char(&v, 0, v.len(), '.'), Some(1));
    assert_eq!(rfind_char(&v, 0, v.len(), '.'), Some(3));
    assert_eq!(find_char(&v, 2, v.len(), '.'), Some(3));
    assert_eq!(find_char(&v, 0, v.len(), '?'), None);
}
