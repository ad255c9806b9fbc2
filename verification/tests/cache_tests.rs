use pink_core::cache::CacheStore;

#[test]
fn cache_isolation_by_identity() {
    let mut store = CacheStore::new();
    let module_a = vec![1u8; 32];
    let module_b = vec![2u8; 32];
    let key = b"k".to_vec();
    store.set(&module_a, &key, b"v1".to_vec());
    store.set(&module_b, &key, b"v2".to_vec());
    assert_eq!(store.get(&module_a, &key), Some(b"v1".to_vec()));
    assert_eq!(store.get(&module_b, &key), Some(b"v2".to_vec()));
}

#[test]
fn set_overwrites_within_identity() {
    let mut store = CacheStore::new();
    let id = vec![1u8; 32];
    let key = b"key".to_vec();
    store.set(&id, &key, b"old".to_vec());
    store.set(&id, &key, b"new".to_vec());
    assert_eq!(store.get(&id, &key), Some(b"new".to_vec()));
}

#[test]
fn remove_returns_prior_value() {
    let mut store = CacheStore::new();
    let id = vec![1u8; 32];
    let key = b"key".to_vec();
    store.set(&id, &key, b"value".to_vec());
    assert_eq!(store.remove(&id, &key), Some(b"value".to_vec()));
    assert_eq!(store.get(&id, &key), None);
    assert_eq!(store.remove(&id, &key), None);
}

#[test]
fn get_misses_on_fresh_store() {
    let store = CacheStore::new();
    assert_eq!(store.get(&vec![1u8; 32], &b"key".to_vec()), None);
}
