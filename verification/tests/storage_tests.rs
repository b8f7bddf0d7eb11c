use clawdb::storage::ColumnFamily;

#[test]
fn test_column_family_names() {
    let cfs = ColumnFamily::default_names();
    assert!(cfs.contains(&"default".to_string()));
    assert!(cfs.contains(&"metadata".to_string()));
    assert!(cfs.contains(&"data".to_string()));
    assert!(cfs.contains(&"index".to_string()));
}

#[test]
fn column_family_names_round_trip() {
    for cf in ColumnFamily::all_default() {
        assert_eq!(ColumnFamily::from_name(cf.name()), cf);
    }
    assert_eq!(ColumnFamily::all_default().len(), 7);
    assert_eq!(ColumnFamily::Snapshot.name(), "snapshot");
    let custom = ColumnFamily::from_name("custom1");
    assert_eq!(custom, ColumnFamily::Custom("custom1".to_string()));
    assert_eq!(custom.name(), "custom1");
    // A custom family named like a default one reads back as the default one.
    assert_eq!(ColumnFamily::from_name(ColumnFamily::Custom("data".to_string()).name()), ColumnFamily::Data);
    assert_eq!(
        ColumnFamily::default_names(),
        vec!["default", "metadata", "data", "index", "cache", "history", "snapshot"]
    );
}
