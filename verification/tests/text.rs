use loco_gen::text::{joined, same_text, strip_prefix};

#[test]
fn same_text_compares_characters() {
    assert!(same_text("", ""));
    assert!(same_text("abc", "abc"));
    assert!(!same_text("abc", "abd"));
    assert!(!same_text("abc", "ab"));
    assert!(!same_text("ab", "abc"));
    assert!(!same_text("abc", "ABC"));
    assert!(same_text("héllo", "héllo"));
    assert!(!same_text("héllo", "hello"));
}

#[test]
fn strip_prefix_splits_at_the_prefix() {
    assert_eq!(strip_prefix("references:people", "references:"), Some("people"));
    assert_eq!(strip_prefix("references:", "references:"), Some(""));
    assert_eq!(strip_prefix("references", "references:"), None);
    assert_eq!(strip_prefix("", "references:"), None);
    assert_eq!(strip_prefix("anything", ""), Some("anything"));
    assert_eq!(strip_prefix("xreferences:people", "references:"), None);
    assert_eq!(strip_prefix("äöü-rest", "äöü"), Some("-rest"));
    assert_eq!(strip_prefix("äöü-rest", "äöx"), None);
}

#[test]
fn joined_appends() {
    assert_eq!(joined("user", "_id"), "user_id");
    assert_eq!(joined("", "_id"), "_id");
    assert_eq!(joined("user", ""), "user");
}
