use map_bench::keys::{FromU64, Keys, PoolError};

fn all_distinct<T: PartialEq>(v: &[T]) -> bool {
    for i in 0..v.len() {
        for j in (i + 1)..v.len() {
            if v[i] == v[j] {
                return false;
            }
        }
    }
    true
}

#[test]
fn pool_keys_are_unique_u64() {
    let mut pool: Keys<u64> = Keys::new(100);
    let keys = pool.alloc_n(100).unwrap();
    assert_eq!(keys.len(), 100);
    assert!(all_distinct(&keys));
}

#[test]
fn pool_keys_are_unique_hex_strings() {
    let mut pool: Keys<String> = Keys::new(50);
    let keys = pool.alloc_n(50).unwrap();
    assert_eq!(keys.len(), 50);
    assert!(all_distinct(&keys));
    for k in &keys {
        assert!(!k.is_empty());
        assert!(k.chars().all(|c| c.is_ascii_hexdigit() && !c.is_ascii_uppercase()));
    }
}

#[test]
fn from_u64_is_identity_on_u64() {
    assert_eq!(<u64 as FromU64>::from_u64(0), 0);
    assert_eq!(<u64 as FromU64>::from_u64(7), 7);
    assert_eq!(<u64 as FromU64>::from_u64(u64::MAX), u64::MAX);
}

#[test]
fn from_u64_is_lowercase_hex_on_string() {
    assert_eq!(<String as FromU64>::from_u64(0), "0");
    assert_eq!(<String as FromU64>::from_u64(9), "9");
    assert_eq!(<String as FromU64>::from_u64(10), "a");
    assert_eq!(<String as FromU64>::from_u64(16), "10");
    assert_eq!(<String as FromU64>::from_u64(255), "ff");
    assert_eq!(<String as FromU64>::from_u64(3735928559), "deadbeef");
    assert_eq!(<String as FromU64>::from_u64(u64::MAX), "ffffffffffffffff");
}

#[test]
fn hex_string_matches_std_formatting() {
    for v in [0u64, 1, 15, 16, 4096, 123456789, u64::MAX] {
        assert_eq!(map_bench::keys::hex_string(v), format!("{:x}", v));
    }
}

#[test]
fn alloc_ranges_are_disjoint() {
    let mut pool: Keys<u64> = Keys::new(100);
    let a = pool.alloc_n(30).unwrap();
    let b = pool.alloc_n(30).unwrap();
    assert_eq!(a.len(), 30);
    assert_eq!(b.len(), 30);
    for x in &a {
        assert!(!b.contains(x));
    }
}

#[test]
fn alloc_past_capacity_fails_fast() {
    // An undersized pool: asking for more than it holds must fail at
    // once, without moving the cursor or handing out wrapped keys.
    let mut pool: Keys<u64> = Keys::new(50);
    assert_eq!(pool.alloc_n(100), Err(PoolError::Exhausted));
    // The failed request consumed nothing: the full pool is still there.
    let rest = pool.alloc_n(50).unwrap();
    assert_eq!(rest.len(), 50);
    assert_eq!(pool.alloc_n(1), Err(PoolError::Exhausted));
}

#[test]
fn cursor_after_allocs_equals_sum_of_counts() {
    let mut pool: Keys<u64> = Keys::new(100);
    pool.alloc_n(10).unwrap();
    pool.alloc_n(20).unwrap();
    pool.alloc_n(30).unwrap();
    // Cursor stands at 60: exactly 40 keys remain.
    assert_eq!(pool.alloc_n(41), Err(PoolError::Exhausted));
    assert_eq!(pool.alloc_n(40).unwrap().len(), 40);
}

#[test]
fn reset_rewinds_cursor_to_zero() {
    let mut pool: Keys<u64> = Keys::new(1000);
    let first = pool.alloc_n(100).unwrap();
    pool.reset();
    let again = pool.alloc_n(10).unwrap();
    assert_eq!(&again[..], &first[..10]);
}

#[test]
fn random_reads_only_the_allocated_prefix() {
    let mut pool: Keys<u64> = Keys::new(64);
    let a = pool.alloc_n(5).unwrap();
    assert_eq!(pool.random(2), a[2]);
    assert_eq!(pool.random(7), a[2]);
    assert_eq!(pool.random(5), a[0]);
}
