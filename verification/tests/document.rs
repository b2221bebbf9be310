use mdfried::document::DocumentId;

#[test]
fn open_starts_a_new_document() {
    let first = DocumentId::default();
    let next = first.open();
    assert_eq!(next.id, 1);
    assert_eq!(next.reload_id, 0);
    assert!(next.is_first_load());
    assert!(!next.is_same_document(&first));
}

#[test]
fn reload_keeps_the_document() {
    let first = DocumentId::default().open();
    let next = first.reload().reload();
    assert_eq!(next.id, 1);
    assert_eq!(next.reload_id, 2);
    assert!(!next.is_first_load());
    assert!(next.is_same_document(&first));
}
