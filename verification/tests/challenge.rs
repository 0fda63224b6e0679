//! The store of challenge contexts.

use ech_tls_tunnel::challenge::ChallengeStore;

fn dummy_ctx() -> Vec<u8> {
    vec![1, 2, 3]
}

#[test]
fn install_get_remove() {
    let mut store = ChallengeStore::new();
    assert!(store.is_empty());
    store.install("a.example.com", dummy_ctx());
    assert_eq!(store.len(), 1);
    assert!(store.get("a.example.com").is_some());
    assert!(store.get("b.example.com").is_none());
    store.remove("a.example.com");
    assert!(store.is_empty());
}

#[test]
fn install_replaces_existing() {
    let mut store = ChallengeStore::new();
    store.install("a.example.com", dummy_ctx());
    store.install("a.example.com", dummy_ctx()); // overwrite
    assert_eq!(store.len(), 1);
}

#[test]
fn names_do_not_touch_each_other() {
    let mut store: ChallengeStore<u32> = ChallengeStore::default();
    store.install("a", 1);
    store.install("b", 2);
    store.install("a", 3);
    store.remove("c");
    assert_eq!(store.get("a"), Some(&3));
    assert_eq!(store.get("b"), Some(&2));
    store.remove("a");
    assert_eq!(store.get("a"), None);
    assert_eq!(store.get("b"), Some(&2));
}

#[test]
fn remove_all_leaves_the_others() {
    let mut store = ChallengeStore::new();
    for (i, name) in ["a", "b", "c"].iter().enumerate() {
        store.install(name, i);
    }
    store.remove_all(&vec!["c".to_string(), "x".to_string(), "a".to_string(), "a".to_string()]);
    assert_eq!(store.len(), 1);
    assert_eq!(store.get("b"), Some(&1));
}

#[test]
fn store_is_logged_by_its_length() {
    struct Opaque;
    let mut store = ChallengeStore::new();
    assert_eq!(store.summary(), "ChallengeStore { len: 0 }");
    store.install("a", Opaque);
    assert_eq!(store.summary(), "ChallengeStore { len: 1 }");
}
