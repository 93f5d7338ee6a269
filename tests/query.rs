use room_hub::query::{identity_from_pairs, identity_from_query};

#[test]
fn identity_is_read_from_query() {
    assert_eq!(identity_from_query("id=123"), "123");
    assert_eq!(identity_from_query("room=r1&id=abc"), "abc");
}

#[test]
fn identity_is_decoded() {
    assert_eq!(identity_from_query("id=a%20b+c"), "a b c");
}

#[test]
fn missing_identity_is_empty() {
    assert_eq!(identity_from_query(""), "");
    assert_eq!(identity_from_query("room=r1"), "");
}

#[test]
fn last_identity_wins() {
    assert_eq!(identity_from_query("id=a&id=b"), "b");
    let pairs = vec![
        ("id".to_string(), "x".to_string()),
        ("k".to_string(), "v".to_string()),
        ("id".to_string(), "y".to_string()),
    ];
    assert_eq!(identity_from_pairs(&pairs), "y");
}
