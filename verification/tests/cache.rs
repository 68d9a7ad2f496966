use coxswain::cache::{cache_key, eviction_delta, purge_key, purge_outcome};

#[test]
fn cache_key_is_deterministic_for_identical_inputs() {
    let a = cache_key("GET", "example.com", "/a");
    let b = cache_key("GET", "example.com", "/a");
    assert_eq!(a.primary, b.primary, "identical method/host/path must give the same key");
    assert_eq!(a, b);
}

#[test]
fn cache_key_differs_by_method_host_and_path() {
    let base = cache_key("GET", "example.com", "/a");
    assert_ne!(
        base,
        cache_key("HEAD", "example.com", "/a"),
        "method must be part of the key (GET and HEAD are distinct entries)"
    );
    assert_ne!(base, cache_key("GET", "other.com", "/a"), "host must scope the key");
    assert_ne!(base, cache_key("GET", "example.com", "/b"), "path must be part of the key");
}

#[test]
fn a_key_holds_host_method_and_path() {
    let key = cache_key("GET", "example.com", "/a?b=c");
    assert_eq!(key.namespace, "example.com");
    assert_eq!(key.primary, "GET /a?b=c");
    assert_eq!(key.user_tag, "");
}

#[test]
fn a_purge_goes_by_the_key_of_the_stored_answer() {
    assert_eq!(purge_key("h", "/a"), cache_key("GET", "h", "/a"));
    assert_ne!(purge_key("h", "/a"), cache_key("HEAD", "h", "/a"));
}

#[test]
fn only_a_removed_entry_counts_as_purged() {
    assert_eq!(purge_outcome(Ok(true)), (true, "hit"));
    assert_eq!(purge_outcome(Ok(false)), (false, "miss"));
    assert_eq!(purge_outcome(Err(())), (false, "miss"));
}

#[test]
fn the_eviction_counter_follows_the_manager() {
    let looks: [u64; 5] = [0, 3, 3, 10, 12];
    let mut previous: u64 = 0;
    let mut counter: u64 = 0;
    for current in looks {
        counter += eviction_delta(current, previous);
        previous = current;
    }
    assert_eq!(counter, 12);
    assert_eq!(eviction_delta(2, 5), 0);
}
