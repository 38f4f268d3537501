use brs::utility::text::replace;

#[test]
fn replace_with_empty_pattern_matches_std() {
    assert_eq!(replace("abc", "", "x"), "abc".replace("", "x"));
    assert_eq!(replace("abc", "", "x"), "xaxbxcx");
    assert_eq!(replace("", "", "x"), "x");
}

#[test]
fn replace_matches_std() {
    assert_eq!(replace("a{b}{b}", "{b}", "c"), "acc");
    assert_eq!(replace("aaa", "aa", "b"), "ba");
    assert_eq!(replace("abc", "z", "y"), "abc");
}
