//! The cache of handles by name.
use ads_client::handle_cache::HandleCache;

#[test]
fn new_cache_is_empty() {
    let cache = HandleCache::new();
    assert!(cache.is_empty());
    assert_eq!(cache.len(), 0);
    assert_eq!(cache.get("Main.counter"), None);
}

#[test]
fn insert_then_get() {
    let mut cache = HandleCache::new();
    cache.insert("Main.counter", 7);
    cache.insert("Main.mi_uint", 9);
    assert_eq!(cache.get("Main.counter"), Some(7));
    assert_eq!(cache.get("Main.mi_uint"), Some(9));
    assert_eq!(cache.get("Main"), None);
    assert_eq!(cache.get(""), None);
    assert_eq!(cache.len(), 2);
    assert!(!cache.is_empty());
}

#[test]
fn insert_replaces_the_handle_of_a_name() {
    let mut cache = HandleCache::new();
    cache.insert("a", 1);
    cache.insert("b", 2);
    cache.insert("a", 3);
    assert_eq!(cache.get("a"), Some(3));
    assert_eq!(cache.get("b"), Some(2));
    assert_eq!(cache.len(), 2);
}

#[test]
fn remove_takes_one_name_out() {
    let mut cache = HandleCache::new();
    cache.insert("a", 1);
    cache.insert("b", 2);
    cache.insert("c", 3);
    assert_eq!(cache.remove("b"), Some(2));
    assert_eq!(cache.remove("b"), None);
    assert_eq!(cache.get("a"), Some(1));
    assert_eq!(cache.get("b"), None);
    assert_eq!(cache.get("c"), Some(3));
    assert_eq!(cache.len(), 2);
    assert_eq!(cache.remove("a"), Some(1));
    assert_eq!(cache.remove("c"), Some(3));
    assert!(cache.is_empty());
}

#[test]
fn clear_forgets_everything() {
    let mut cache = HandleCache::new();
    cache.insert("a", 1);
    cache.insert("b", 2);
    cache.clear();
    assert!(cache.is_empty());
    assert_eq!(cache.get("a"), None);
    cache.insert("a", 5);
    assert_eq!(cache.get("a"), Some(5));
}

#[test]
fn names_are_compared_by_their_characters() {
    let mut cache = HandleCache::new();
    cache.insert("Größe", 1);
    cache.insert("Grösse", 2);
    assert_eq!(cache.get("Größe"), Some(1));
    assert_eq!(cache.get("Grösse"), Some(2));
    assert_eq!(cache.get("größe"), None);
    assert_eq!(cache.len(), 2);
}
