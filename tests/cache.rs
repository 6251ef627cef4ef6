use script_compiler::cache::{calculate_hash, MemoCache};

#[test]
fn overflow_empties_the_cache() {
    let capacity: usize = 3;
    let mut cache: MemoCache<Vec<u8>> = MemoCache::new(capacity);
    let sources = ["a", "b", "c", "d"];
    for (i, s) in sources.iter().enumerate() {
        cache.store(s, vec![i as u8]);
    }
    assert!(cache.lookup("a").is_none());
    assert!(cache.lookup("b").is_none());
    assert!(cache.lookup("c").is_none());
    assert_eq!(cache.lookup("d"), Some(&vec![3u8]));
}

#[test]
fn full_cache_accepts_a_known_key() {
    let mut cache: MemoCache<String> = MemoCache::new(2);
    cache.store("a", "1".to_string());
    cache.store("b", "2".to_string());
    cache.store("a", "3".to_string());
    assert_eq!(cache.lookup("a"), Some(&"3".to_string()));
    assert_eq!(cache.lookup("b"), Some(&"2".to_string()));
}

#[test]
fn transform_capacity_bound_holds() {
    let mut cache: MemoCache<u64> = MemoCache::new(1000);
    for i in 0..1001u64 {
        cache.store(&format!("source {}", i), i);
    }
    for i in 0..1000u64 {
        assert!(cache.lookup(&format!("source {}", i)).is_none());
    }
    assert_eq!(cache.lookup("source 1000"), Some(&1000));
}

#[test]
fn fingerprint_ignores_nothing_but_is_deterministic() {
    assert_eq!(calculate_hash("const x = 1;"), calculate_hash("const x = 1;"));
    assert_ne!(calculate_hash("const x = 1;"), calculate_hash("const x = 2;"));
}
