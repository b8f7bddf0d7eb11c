use clawdb::collection::{belongs_to_collection, CollectionId, VectorKey};

#[test]
fn test_collection_id() {
    let id = CollectionId::new(42);
    let bytes = id.to_bytes();
    let decoded = CollectionId::from_bytes(&bytes).unwrap();
    assert_eq!(id, decoded);
}

#[test]
fn test_vector_key() {
    let key = VectorKey::new(CollectionId::new(1), 12345);
    let bytes = key.to_bytes();
    let decoded = VectorKey::from_bytes(&bytes).unwrap();
    assert_eq!(key, decoded);
}

#[test]
fn collection_id_bytes_are_little_endian() {
    assert_eq!(CollectionId::new(0x0403_0201).to_bytes(), [1, 2, 3, 4]);
    assert_eq!(CollectionId::from_bytes(&[1, 2, 3, 4, 9]), Some(CollectionId(0x0403_0201)));
    assert_eq!(CollectionId::from_bytes(&[1, 2, 3]), None);
}

#[test]
fn vector_key_bytes_layout() {
    let key = VectorKey::new(CollectionId::new(1), 0x0102_0304_0506_0708);
    assert_eq!(key.to_bytes(), vec![1, 0, 0, 0, 1, 2, 3, 4, 5, 6, 7, 8]);
    assert_eq!(VectorKey::from_bytes(&[1, 0, 0, 0, 1, 2, 3, 4, 5, 6, 7]), None);
    let decoded = VectorKey::from_bytes(&[2, 0, 0, 0, 0, 0, 0, 0, 0, 0, 1, 0, 77]).unwrap();
    assert_eq!(decoded.collection_id, CollectionId(2));
    assert_eq!(decoded.vector_id, 256);
}

#[test]
fn keys_belong_only_to_their_collection() {
    let key = VectorKey::new(CollectionId::new(7), 1).to_bytes();
    assert!(belongs_to_collection(&key, &CollectionId::new(7)));
    assert!(!belongs_to_collection(&key, &CollectionId::new(8)));
    assert!(!belongs_to_collection(&[7, 0, 0], &CollectionId::new(7)));
}

#[test]
fn keys_of_one_collection_sort_by_vector_id() {
    let ids: Vec<u64> = vec![0, 1, 255, 256, 65_535, 65_536, 1 << 32, (1 << 56) - 1, 1 << 56, u64::MAX - 1, u64::MAX];
    for &a in &ids {
        for &b in &ids {
            let ka = VectorKey::new(CollectionId::new(9), a).to_bytes();
            let kb = VectorKey::new(CollectionId::new(9), b).to_bytes();
            assert_eq!(ka.len(), 12);
            assert_eq!(ka < kb, a < b, "ids {} and {}", a, b);
        }
    }
}
