use soulcrush::text::{same_bytes, same_text};

#[test]
fn texts_are_the_same_if_all_their_characters_are() {
    assert!(same_text("", ""));
    assert!(same_text("ToDo", "ToDo"));
    assert!(!same_text("ToDo", "Todo"));
    assert!(!same_text("ToDo", "ToDo "));
    assert!(!same_text("ToDo", "ToD"));
    assert!(same_text("é→", "é→"));
    assert!(!same_text("é", "e"));
}

#[test]
fn bytes_are_compared_one_by_one() {
    assert!(same_bytes(&[], &[]));
    assert!(same_bytes(&[1, 2, 3], &[1, 2, 3]));
    assert!(!same_bytes(&[1, 2, 3], &[1, 2, 4]));
    assert!(!same_bytes(&[1, 2, 3], &[1, 2]));
}
