use sms_client::fault::Fault;
use sms_client::store::{Category, DedupStore, SCHEMA_VERSION};

#[test]
fn test_record_then_contains() {
    let mut store = DedupStore::new();
    let id = String::from("abc123");
    assert!(!store.contains(Category::Messages, &id));
    assert!(store.record(Category::Messages, id.clone(), 1000).is_ok());
    assert!(store.contains(Category::Messages, &id));
    // The other category is untouched.
    assert!(!store.contains(Category::CallLogs, &id));
    // A never-inserted identifier is not contained.
    assert!(!store.contains(Category::Messages, &String::from("never")));
}

#[test]
fn test_duplicate_record_fails_and_changes_nothing() {
    let mut store = DedupStore::new();
    let id = String::from("abc123");
    assert!(store.record(Category::CallLogs, id.clone(), 1000).is_ok());
    assert_eq!(
        store.record(Category::CallLogs, id.clone(), 2000),
        Err(Fault::Storage)
    );
    assert_eq!(store.count(Category::CallLogs), 1);
    assert!(store.contains(Category::CallLogs, &id));
}

#[test]
fn test_initialize_and_version() {
    let mut store = DedupStore::new();
    assert!(!store.is_initialized());
    assert_eq!(store.version(), None);
    store.initialize();
    assert!(store.is_initialized());
    assert_eq!(store.version(), Some(SCHEMA_VERSION));
    assert_eq!(store.version(), Some(1));
}

#[test]
fn test_counts_grow_per_category() {
    let mut store = DedupStore::new();
    assert_eq!(store.count(Category::Messages), 0);
    assert!(store.record(Category::Messages, String::from("a"), 1).is_ok());
    assert!(store.record(Category::Messages, String::from("b"), 2).is_ok());
    assert!(store.record(Category::CallLogs, String::from("a"), 3).is_ok());
    assert_eq!(store.count(Category::Messages), 2);
    assert_eq!(store.count(Category::CallLogs), 1);
}
