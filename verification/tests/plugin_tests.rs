use clawdb::plugins::{
    create_vector_compaction_filter, extract_collection_prefix, is_in_collection_domain,
    is_tombstone, merge_vector_values, tombstone,
};

#[test]
fn test_tombstone_detection() {
    let filter = create_vector_compaction_filter();

    let tombstone_value = b"TOMBSTONE".to_vec();
    let result = filter(0, b"key1", &tombstone_value);
    assert!(result.is_none());

    let normal_value = b"normal_vector_data".to_vec();
    let result = filter(0, b"key2", &normal_value);
    assert!(result.is_some());
}

#[test]
fn test_prefix_extraction() {
    let key = b"\x00\x00\x00\x01\x00\x00\x00\x00\x00\x00\x00\x01";
    let prefix = extract_collection_prefix(key);
    assert_eq!(prefix, Some(b"\x00\x00\x00\x01".as_ref()));

    assert!(is_in_collection_domain(key));
    assert!(!is_in_collection_domain(b"abc"));
}

#[test]
fn test_tombstone() {
    let tombstone = tombstone();
    assert!(is_tombstone(&tombstone));

    let normal = b"normal_data";
    assert!(!is_tombstone(normal));
}

#[test]
fn tombstone_marker_edges() {
    assert_eq!(tombstone(), b"TOMBSTONE".to_vec());
    assert!(is_tombstone(b"TOMBSTONE and more"));
    assert!(!is_tombstone(b"TOMBSTON"));
    assert!(!is_tombstone(b""));
    let filter = create_vector_compaction_filter();
    assert_eq!(filter(3, b"k", b"payload"), Some(b"payload".to_vec()));
    assert_eq!(filter(3, b"k", b"TOMBSTONEX"), None);
    assert_eq!(extract_collection_prefix(b"abc"), None);
}

#[test]
fn merge_replaces_and_patches() {
    let existing: &[u8] = &[1, 2, 3, 4, 5, 6];
    // Kind 0 replaces the value.
    let r = merge_vector_values(b"k", Some(existing), &vec![vec![0, 9, 9]]);
    assert_eq!(r, Some(vec![9, 9]));
    // Kind 1 writes at offset 2.
    let r = merge_vector_values(b"k", Some(existing), &vec![vec![1, 2, 0, 0, 0, 7, 8]]);
    assert_eq!(r, Some(vec![1, 2, 7, 8, 5, 6]));
    // A patch that does not fit changes nothing.
    let r = merge_vector_values(b"k", Some(existing), &vec![vec![1, 5, 0, 0, 0, 7, 8]]);
    assert_eq!(r, Some(vec![1, 2, 3, 4, 5, 6]));
    // Empty operands and unknown kinds change nothing; operands apply in order.
    let r = merge_vector_values(
        b"k",
        Some(existing),
        &vec![vec![], vec![5, 1], vec![0, 1, 1, 1, 1], vec![1, 0, 0, 0, 0, 2]],
    );
    assert_eq!(r, Some(vec![2, 1, 1, 1]));
    // A patch of a value shorter than 4 bytes changes nothing.
    let r = merge_vector_values(b"k", Some(&[1, 2, 3]), &vec![vec![1, 0, 0, 0, 0, 9]]);
    assert_eq!(r, Some(vec![1, 2, 3]));
}

#[test]
fn merge_without_existing_value_keeps_last_operand() {
    let r = merge_vector_values(b"k", None, &vec![]);
    assert_eq!(r, Some(vec![]));
    let r = merge_vector_values(b"k", None, &vec![vec![0, 1], vec![1, 2, 3]]);
    assert_eq!(r, Some(vec![1, 2, 3]));
}
