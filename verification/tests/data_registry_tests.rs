use intel_registry::data_registry::DataRegistry;

#[test]
fn test_set_and_get_data() {
    let mut registry = DataRegistry::new();
    registry.set_data(
        "alice.near".to_string(),
        7,
        "QmTest123".to_string(),
        "abc123hash".to_string(),
        "pubkey123".to_string(),
    );

    let entry = registry.get_data("alice.near".to_string()).unwrap();
    assert_eq!(entry.cid, "QmTest123");
    assert_eq!(entry.version, 1);
    assert_eq!(entry.data_hash, "abc123hash");
    assert_eq!(entry.public_key, "pubkey123");
}

#[test]
fn test_update_increments_version() {
    let mut registry = DataRegistry::new();
    registry.set_data(
        "alice.near".to_string(),
        7,
        "QmFirst".to_string(),
        "hash1".to_string(),
        "pk1".to_string(),
    );
    registry.set_data(
        "alice.near".to_string(),
        8,
        "QmSecond".to_string(),
        "hash2".to_string(),
        "pk2".to_string(),
    );

    let entry = registry.get_data("alice.near".to_string()).unwrap();
    assert_eq!(entry.version, 2);
    assert_eq!(entry.cid, "QmSecond");
}

#[test]
fn test_delete_data() {
    let mut registry = DataRegistry::new();
    registry.set_data(
        "alice.near".to_string(),
        7,
        "QmTest".to_string(),
        "hash".to_string(),
        "pk".to_string(),
    );

    assert!(registry.delete_data("alice.near".to_string()));
    assert!(!registry.has_data("alice.near".to_string()));
    assert!(registry.get_data("alice.near".to_string()).is_none());
}

#[test]
fn counters_and_lookups_track_accounts() {
    let mut registry = DataRegistry::new();
    assert_eq!(registry.get_total_users(), 0);
    assert_eq!(registry.get_version("alice.near".to_string()), 0);

    registry.set_data(
        "alice.near".to_string(),
        1,
        "cid-a".to_string(),
        "h-a".to_string(),
        "pk-a".to_string(),
    );
    registry.set_data(
        "bob.near".to_string(),
        2,
        "cid-b".to_string(),
        "h-b".to_string(),
        "pk-b".to_string(),
    );
    assert_eq!(registry.get_total_users(), 2);
    assert_eq!(registry.get_cid("bob.near".to_string()).unwrap(), "cid-b");
    assert_eq!(registry.get_public_key("alice.near".to_string()).unwrap(), "pk-a");
    assert_eq!(registry.get_version("alice.near".to_string()), 1);

    // deleting one account leaves the other untouched
    assert!(registry.delete_data("alice.near".to_string()));
    assert!(!registry.delete_data("alice.near".to_string()));
    assert_eq!(registry.get_total_users(), 1);
    assert_eq!(registry.get_cid("bob.near".to_string()).unwrap(), "cid-b");
}
