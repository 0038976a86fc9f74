use embedding_store::entity::{EntityMappingPersistor, InMemoryEntityMappingPersistor};

#[test]
fn insert_then_lookup_and_has() {
    let mut m = InMemoryEntityMappingPersistor::new();
    assert!(!m.contains(42));
    assert_eq!(m.get_entity(42), None);
    m.put_data(42, "alice".to_string());
    assert!(m.contains(42));
    assert_eq!(m.get_entity(42), Some("alice".to_string()));
}

#[test]
fn last_write_wins() {
    let mut m = InMemoryEntityMappingPersistor::new();
    m.put_data(7, "first".to_string());
    m.put_data(7, "second".to_string());
    assert_eq!(m.get_entity(7), Some("second".to_string()));
}

#[test]
fn other_keys_untouched() {
    let mut m = InMemoryEntityMappingPersistor::new();
    m.put_data(1, "one".to_string());
    m.put_data(u64::MAX, "max".to_string());
    assert_eq!(m.get_entity(1), Some("one".to_string()));
    assert_eq!(m.get_entity(u64::MAX), Some("max".to_string()));
    assert!(!m.contains(2));
}

#[test]
fn shared_map_insert_then_lookup() {
    let m = embedding_store::entity::SharedEntityMapping::new();
    assert!(!m.contains(5));
    assert_eq!(m.get_entity(5), None);
    m.put_data(5, "bob".to_string());
    m.put_data(6, "carol".to_string());
    assert!(m.contains(5));
    assert_eq!(m.get_entity(5), Some("bob".to_string()));
    m.put_data(5, "dave".to_string());
    assert_eq!(m.get_entity(5), Some("dave".to_string()));
    assert_eq!(m.get_entity(6), Some("carol".to_string()));
}

#[test]
fn default_map_is_empty() {
    let m = InMemoryEntityMappingPersistor::default();
    assert!(!m.contains(0));
    assert_eq!(m.get_entity(0), None);
}
