use clawdb::{DiskAnnConfig, DiskAnnTableFactory, DistanceMetric, GraphEntry, IoUringEnv};
use clawdb::graph_entry::first_highest;

#[test]
fn diskann_defaults() {
    let config = DiskAnnConfig::new();
    assert_eq!(config.n_subvectors, 8);
    assert_eq!(config.n_bits, 8);
    assert_eq!(config.n_centroids, 256);
    let factory = DiskAnnTableFactory::new(config.clone(), 128);
    assert_eq!(factory.vector_dimension(), 128);
    assert_eq!(factory.config_ref(), &config);
}

#[test]
fn small_types() {
    assert_eq!(IoUringEnv::new(), IoUringEnv::default());
    assert_ne!(DistanceMetric::Cosine, DistanceMetric::Euclidean);
}

#[test]
fn graph_entry_follows_the_highest_node() {
    let mut e = GraphEntry::empty();
    assert_eq!(e.entry_point, None);
    assert_eq!(e.insert(10, 2), None);
    assert_eq!(e, GraphEntry { entry_point: Some(10), max_level: 2 });
    // A lower or equal level leaves the entry as it was.
    assert_eq!(e.insert(11, 2), Some(10));
    assert_eq!(e.insert(12, 0), Some(10));
    assert_eq!(e, GraphEntry { entry_point: Some(10), max_level: 2 });
    // A higher level takes over; the search still starts from the old entry.
    assert_eq!(e.insert(13, 5), Some(10));
    assert_eq!(e, GraphEntry { entry_point: Some(13), max_level: 5 });
}

#[test]
fn first_highest_picks_the_first_top_level() {
    assert_eq!(first_highest(&[]), 0);
    assert_eq!(first_highest(&[0]), 0);
    assert_eq!(first_highest(&[1, 3, 2, 3, 0]), 1);
    assert_eq!(first_highest(&[0, 0, 0]), 0);
    assert_eq!(first_highest(&[0, 1, 2]), 2);
}
