use clawdb::loader::{LoadError, SiftDataLoader};

fn fvecs_bytes(vectors: &[Vec<f32>]) -> Vec<u8> {
    let mut out = Vec::new();
    for v in vectors {
        out.extend_from_slice(&(v.len() as i32).to_le_bytes());
        for x in v {
            out.extend_from_slice(&x.to_le_bytes());
        }
    }
    out
}

fn to_floats(vectors: Vec<Vec<u32>>) -> Vec<Vec<f32>> {
    vectors
        .into_iter()
        .map(|v| v.into_iter().map(f32::from_bits).collect())
        .collect()
}

#[test]
fn test_load_fvecs() {
    let bytes = fvecs_bytes(&[vec![1.0f32, 2.0, 3.0], vec![4.0f32, 5.0, 6.0]]);
    let (dim, bits) = SiftDataLoader::parse_fvecs(&bytes).unwrap();
    let vectors = to_floats(bits);

    assert_eq!(dim, 3);
    assert_eq!(vectors.len(), 2);
    assert_eq!(vectors[0], vec![1.0, 2.0, 3.0]);
    assert_eq!(vectors[1], vec![4.0, 5.0, 6.0]);
}

#[test]
fn test_load_bvecs() {
    let mut bytes = Vec::new();
    for v in [vec![10u8, 20, 30], vec![40u8, 50, 60]] {
        bytes.extend_from_slice(&(v.len() as i32).to_le_bytes());
        bytes.extend_from_slice(&v);
    }
    let (dim, raw) = SiftDataLoader::parse_bvecs(&bytes).unwrap();
    let vectors: Vec<Vec<f32>> = raw
        .iter()
        .map(|v| v.iter().map(|&b| b as f32).collect())
        .collect();

    assert_eq!(dim, 3);
    assert_eq!(vectors.len(), 2);
    assert_eq!(vectors[0], vec![10.0, 20.0, 30.0]);
    assert_eq!(vectors[1], vec![40.0, 50.0, 60.0]);
}

#[test]
fn test_load_ivecs() {
    let mut bytes = Vec::new();
    for v in [vec![1i32, 2, 3], vec![4i32, 5, 6]] {
        bytes.extend_from_slice(&(v.len() as i32).to_le_bytes());
        for x in v {
            bytes.extend_from_slice(&x.to_le_bytes());
        }
    }
    let vectors = SiftDataLoader::parse_ivecs(&bytes).unwrap();

    assert_eq!(vectors.len(), 2);
    assert_eq!(vectors[0], vec![1, 2, 3]);
    assert_eq!(vectors[1], vec![4, 5, 6]);
}

#[test]
fn fvecs_errors() {
    // Dimensions 2 then 3.
    let bytes = fvecs_bytes(&[vec![1.0f32, 2.0], vec![1.0f32, 2.0, 3.0]]);
    assert_eq!(
        SiftDataLoader::parse_fvecs(&bytes),
        Err(LoadError::InconsistentDimensions { expected: 2, actual: 3 })
    );
    // A record cut short.
    let mut bytes = fvecs_bytes(&[vec![1.0f32, 2.0]]);
    bytes.pop();
    assert_eq!(SiftDataLoader::parse_fvecs(&bytes), Err(LoadError::Truncated));
    // A negative dimension.
    let bytes = (-1i32).to_le_bytes().to_vec();
    assert!(matches!(
        SiftDataLoader::parse_fvecs(&bytes),
        Err(LoadError::CapacityOverflow { .. })
    ));
}

#[test]
fn fvecs_edges() {
    assert_eq!(SiftDataLoader::parse_fvecs(&[]), Ok((0, vec![])));
    // Up to three trailing bytes end the file without error.
    let mut bytes = fvecs_bytes(&[vec![7.5f32]]);
    bytes.extend_from_slice(&[1, 2, 3]);
    let (dim, bits) = SiftDataLoader::parse_fvecs(&bytes).unwrap();
    assert_eq!(dim, 1);
    assert_eq!(to_floats(bits), vec![vec![7.5f32]]);
    // An empty first record leaves the dimension open.
    let bytes = fvecs_bytes(&[vec![], vec![1.0f32, 2.0]]);
    let (dim, bits) = SiftDataLoader::parse_fvecs(&bytes).unwrap();
    assert_eq!(dim, 2);
    assert_eq!(bits.len(), 2);
}

#[test]
fn bvecs_and_ivecs_errors() {
    let mut bytes = 3i32.to_le_bytes().to_vec();
    bytes.extend_from_slice(&[1, 2]);
    assert_eq!(SiftDataLoader::parse_bvecs(&bytes), Err(LoadError::Truncated));
    let mut bytes = 1i32.to_le_bytes().to_vec();
    bytes.push(9);
    bytes.extend_from_slice(&2i32.to_le_bytes());
    bytes.extend_from_slice(&[1, 2]);
    assert_eq!(
        SiftDataLoader::parse_bvecs(&bytes),
        Err(LoadError::InconsistentDimensions { expected: 1, actual: 2 })
    );
    let mut bytes = 2i32.to_le_bytes().to_vec();
    bytes.extend_from_slice(&5i32.to_le_bytes());
    assert_eq!(SiftDataLoader::parse_ivecs(&bytes), Err(LoadError::Truncated));
    // Records of an .ivecs file may differ in length.
    let mut bytes = 1i32.to_le_bytes().to_vec();
    bytes.extend_from_slice(&(-5i32).to_le_bytes());
    bytes.extend_from_slice(&2i32.to_le_bytes());
    bytes.extend_from_slice(&6i32.to_le_bytes());
    bytes.extend_from_slice(&7i32.to_le_bytes());
    assert_eq!(SiftDataLoader::parse_ivecs(&bytes), Ok(vec![vec![-5], vec![6, 7]]));
    assert!(matches!(
        SiftDataLoader::parse_ivecs(&(-3i32).to_le_bytes()),
        Err(LoadError::CapacityOverflow { .. })
    ));
}
