use acl_engine::strcmp::{text_equal, text_less_than};

#[test]
fn lexicographic_order_matches_string_order() {
    let pairs = [("a", "ab"), ("ab", "b"), ("Z", "a"), ("", "a"), ("abc", "abd"), ("z", "\u{e9}")];
    for (x, y) in pairs {
        assert_eq!(text_less_than(x, y), x < y);
        assert_eq!(text_less_than(y, x), y < x);
    }
    assert!(!text_less_than("same", "same"));
}

#[test]
fn text_equality_is_by_contents() {
    assert!(text_equal(&"abc".to_string(), &"abc".to_string()));
    assert!(!text_equal(&"abc".to_string(), &"abd".to_string()));
}
