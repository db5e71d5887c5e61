use ens_rest::cache::{ResultCache, DEFAULT_TTL_SECONDS};
use ens_rest::errors::ResolutionError;
use ens_rest::Address;

fn addr(byte: u8) -> Address {
    Address::from_bytes(vec![byte; 20])
}

#[test]
fn second_access_within_ttl_needs_no_resolution() {
    let mut cache = ResultCache::new(DEFAULT_TTL_SECONDS);
    let a = addr(0x65);
    let endpoint = "http://localhost:8545";
    let mut resolutions: u32 = 0;

    // First access: a miss, one resolution, its outcome memoized.
    let t0: u64 = 1_000;
    let first = match cache.lookup(endpoint, &a, t0) {
        Some(name) => name,
        None => {
            resolutions += 1;
            cache.store_outcome(endpoint, &a, Ok("enormouscloud.eth".to_string()), t0)
        },
    };
    assert_eq!(first, "enormouscloud.eth");
    assert_eq!(resolutions, 1);

    // Second access inside the TTL window: served from the cache.
    let t1: u64 = t0 + DEFAULT_TTL_SECONDS - 1;
    let second = match cache.lookup(endpoint, &a, t1) {
        Some(name) => name,
        None => {
            resolutions += 1;
            cache.store_outcome(endpoint, &a, Ok("enormouscloud.eth".to_string()), t1)
        },
    };
    assert_eq!(second, "enormouscloud.eth");
    assert_eq!(resolutions, 1);

    // Third access past the TTL: a fresh resolution happens.
    let t2: u64 = t0 + DEFAULT_TTL_SECONDS;
    let third = match cache.lookup(endpoint, &a, t2) {
        Some(name) => name,
        None => {
            resolutions += 1;
            cache.store_outcome(endpoint, &a, Ok("enormouscloud.eth".to_string()), t2)
        },
    };
    assert_eq!(third, "enormouscloud.eth");
    assert_eq!(resolutions, 2);
}

#[test]
fn failures_memoize_as_the_empty_name() {
    let mut cache = ResultCache::new(DEFAULT_TTL_SECONDS);
    let a = addr(0x01);
    let flat = cache.store_outcome(
        "http://localhost:8545",
        &a,
        Err(ResolutionError::ResolverLookupFailed),
        50,
    );
    assert_eq!(flat, "");
    assert_eq!(cache.lookup("http://localhost:8545", &a, 60), Some("".to_string()));
}

#[test]
fn storing_again_replaces_the_entry() {
    let mut cache = ResultCache::new(100);
    let a = addr(0x02);
    cache.store("e", &a, "first.eth".to_string(), 10);
    cache.store("e", &a, "second.eth".to_string(), 20);
    assert_eq!(cache.lookup("e", &a, 30), Some("second.eth".to_string()));
    // The refreshed timestamp governs the window.
    assert_eq!(cache.lookup("e", &a, 115), Some("second.eth".to_string()));
    assert_eq!(cache.lookup("e", &a, 120), None);
}

#[test]
fn keys_are_endpoint_and_address_together() {
    let mut cache = ResultCache::new(100);
    let a = addr(0x03);
    let b = addr(0x04);
    cache.store("one", &a, "a.eth".to_string(), 0);
    cache.store("two", &a, "b.eth".to_string(), 0);
    cache.store("one", &b, "c.eth".to_string(), 0);
    assert_eq!(cache.lookup("one", &a, 1), Some("a.eth".to_string()));
    assert_eq!(cache.lookup("two", &a, 1), Some("b.eth".to_string()));
    assert_eq!(cache.lookup("one", &b, 1), Some("c.eth".to_string()));
    assert_eq!(cache.lookup("two", &b, 1), None);
}

#[test]
fn a_clock_behind_the_entry_is_a_miss() {
    let mut cache = ResultCache::new(100);
    let a = addr(0x05);
    cache.store("e", &a, "x.eth".to_string(), 50);
    assert_eq!(cache.lookup("e", &a, 49), None);
    assert_eq!(cache.lookup("e", &a, 50), Some("x.eth".to_string()));
}
