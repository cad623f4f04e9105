use std::collections::hash_map::DefaultHasher;
use std::hash::BuildHasherDefault;
use std::hash::RandomState;
use storage_map::outcome::PrepareResult;
use storage_map::store::StorageMap;

fn string_store() -> StorageMap<String, u64, RandomState> {
    StorageMap::with_hasher(RandomState::new())
}

fn require_send_sync<T: Send + Sync>(_t: &T) {}

#[test]
fn store_is_send_and_sync() {
    let store = string_store();
    require_send_sync(&store);
}

#[test]
fn new_store_is_empty() {
    let store: StorageMap<String, u64, RandomState> = StorageMap::new();
    assert_eq!(store.len().0, 0);
    let r = store.prepare_maybe(&"missing".to_string(), || None).0;
    assert_eq!(r, PrepareResult::UnableToCreate);
}

#[test]
fn scenario_create_then_ignore_stale_factory() {
    let store = string_store();
    let g = store.get_or_create_with(&"a".to_string(), || 1);
    assert_eq!(*g.value(), 1);
    assert!(g.is_exclusive());
    g.release();
    assert_eq!(store.len().0, 1);

    let g = store.get_or_create_with(&"a".to_string(), || 999);
    assert_eq!(*g.value(), 1);
    assert!(!g.is_exclusive());
    g.release();
    assert_eq!(store.len().0, 1);
}

#[test]
fn idempotence_many_factories() {
    let store = string_store();
    let g = store.get_or_create_with(&"k".to_string(), || 42);
    assert_eq!(*g.value(), 42);
    g.release();
    for other in [0u64, 7, 42, 1000] {
        let g = store.get_or_create_with(&"k".to_string(), move || other);
        assert_eq!(*g.value(), 42);
        g.release();
    }
    assert_eq!(store.len().0, 1);
}

#[test]
fn fast_path_does_not_invoke_factory() {
    let store = string_store();
    store.get_or_create_with(&"k".to_string(), || 5).release();
    let mut called = false;
    let g = store.get_or_create_with(&"k".to_string(), || {
        called = true;
        6
    });
    assert_eq!(*g.value(), 5);
    g.release();
    assert!(!called);
}

#[test]
fn concurrent_read_guards_coexist() {
    let store = string_store();
    store.get_or_create_with(&"k1".to_string(), || 10).release();
    store.get_or_create_with(&"k2".to_string(), || 20).release();

    // Both guards are alive at once: reads of existing keys take only the
    // shared lock, so neither acquisition blocks on the other.
    let g1 = store.get_or_create_with(&"k1".to_string(), || 0);
    let g2 = store.get_or_create_with(&"k2".to_string(), || 0);
    let g1_again = store.get_or_create_with(&"k1".to_string(), || 0);
    assert!(!g1.is_exclusive());
    assert!(!g2.is_exclusive());
    assert!(!g1_again.is_exclusive());
    assert_eq!(*g1.value(), 10);
    assert_eq!(*g2.value(), 20);
    assert_eq!(*g1_again.value(), 10);
    g1.release();
    g2.release();
    g1_again.release();
}

#[test]
fn value_is_stable_while_guard_held() {
    let store = string_store();
    let g = store.get_or_create_with(&"k".to_string(), || 3);
    assert_eq!(*g.value(), 3);
    assert_eq!(*g.value(), 3);
    g.release();
}

#[test]
fn empty_string_key_works() {
    let store = string_store();
    let g = store.get_or_create_with(&String::new(), || 8);
    assert_eq!(*g.value(), 8);
    g.release();
    assert_eq!(store.len().0, 1);
}

#[test]
fn prepare_maybe_tri_state() {
    let store = string_store();

    let r = store.prepare_maybe(&"k".to_string(), || None).0;
    assert_eq!(r, PrepareResult::UnableToCreate);
    assert_eq!(store.len().0, 0);

    let r = store.prepare_maybe(&"k".to_string(), || Some(7)).0;
    assert_eq!(r, PrepareResult::Created);
    assert_eq!(store.len().0, 1);
    let g = store.get_or_create_with(&"k".to_string(), || 0);
    assert_eq!(*g.value(), 7);
    g.release();

    let mut called = false;
    let r = store
        .prepare_maybe(&"k".to_string(), || {
            called = true;
            Some(9)
        })
        .0;
    assert_eq!(r, PrepareResult::AlreadyExists);
    assert!(!called);
    assert_eq!(store.len().0, 1);
    let g = store.get_or_create_with(&"k".to_string(), || 0);
    assert_eq!(*g.value(), 7);
    g.release();
}

#[test]
fn integer_keys_and_default_hasher_builder() {
    let store: StorageMap<u64, String, BuildHasherDefault<DefaultHasher>> =
        StorageMap::with_hasher(BuildHasherDefault::default());
    let g = store.get_or_create_with(&17, || "seventeen".to_string());
    assert_eq!(g.value(), "seventeen");
    g.release();
    let g = store.get_or_create_with(&17, || "other".to_string());
    assert_eq!(g.value(), "seventeen");
    g.release();
    assert_eq!(store.len().0, 1);
}
