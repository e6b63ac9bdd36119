use o1::error::O1Error;
use o1::fks::FKSMap;
use o1::hashing::hashers::msp::MSPHasher;
use rand_chacha::rand_core::{Rng, SeedableRng};
use rand_chacha::ChaCha20Rng;

#[test]
fn test_book_ratings_lookup() {
    let data: Vec<(String, u8)> = vec![
        (String::from("The Great Gatsby"), 5),
        (String::from("Moby Dick"), 4),
        (String::from("Pride and Prejudice"), 5),
        (String::from("The Catcher in the Rye"), 3),
    ];
    let map = FKSMap::<String, u8, MSPHasher<String>>::new(data, 42, 75).unwrap();

    assert_eq!(map.get(&String::from("Moby Dick")), Some(&4));
    assert_eq!(map.get(&String::from("The Great Gatsby")), Some(&5));
    assert_eq!(map.get(&String::from("Pride and Prejudice")), Some(&5));
    assert_eq!(map.get(&String::from("The Catcher in the Rye")), Some(&3));
    assert_eq!(map.get(&String::from("War and Peace")), None);
    assert_eq!(map.len(), 4);
    assert!(!map.is_empty());
}

#[test]
fn test_integer_squares_lookup() {
    let data: Vec<(u32, u32)> = (1..=10).map(|k| (k, k * k)).collect();
    let map = FKSMap::<u32, u32, MSPHasher<u32>>::new(data, 42, 75).unwrap();

    for k in 1..=10u32 {
        assert_eq!(map.get(&k), Some(&(k * k)));
    }
    assert_eq!(map.get(&0), None);
    assert_eq!(map.get(&11), None);
    assert_eq!(map.len(), 10);
}

#[test]
fn test_all_byte_keys() {
    let data: Vec<(u8, u8)> = (0..=255).map(|k| (k, k)).collect();
    let map = FKSMap::<u8, u8, MSPHasher<u8>>::new(data, 42, 75).unwrap();

    for k in 0..=255u8 {
        assert_eq!(map.get(&k), Some(&k));
    }
    assert_eq!(map.len(), 256);
    // Second-level oversizing is bounded by the slot count.
    assert!(map.num_collisions() <= map.num_slots());
}

#[test]
fn test_empty_input() {
    let data: Vec<(u64, u64)> = Vec::new();
    let map = FKSMap::<u64, u64, MSPHasher<u64>>::new(data, 1, 75).unwrap();
    assert_eq!(map.len(), 0);
    assert!(map.is_empty());
    assert_eq!(map.get(&0), None);
    assert_eq!(map.get(&u64::MAX), None);
    assert_eq!(map.num_collisions(), 0);
}

#[test]
fn test_single_input() {
    let data: Vec<(u64, String)> = vec![(77, String::from("only"))];
    let map = FKSMap::<u64, String, MSPHasher<u64>>::new(data, 42, 100).unwrap();
    assert_eq!(map.len(), 1);
    assert_eq!(map.get(&77), Some(&String::from("only")));
    assert_eq!(map.get(&78), None);
    // A single key gets exactly one cell, so the table spends nothing
    // beyond one cell per occupied bucket.
    assert_eq!(map.num_collisions(), 0);
    assert_eq!(map.num_slots(), 1);
}

#[test]
fn test_tight_load_factor() {
    // A full load factor must still resolve small tightly-packed inputs.
    let data: Vec<(u32, u32)> = (0..64).map(|k| (k * 3 + 1, k)).collect();
    let map = FKSMap::<u32, u32, MSPHasher<u32>>::new(data, 9, 100).unwrap();
    for k in 0..64u32 {
        assert_eq!(map.get(&(k * 3 + 1)), Some(&k));
    }
}

#[test]
fn test_build_deterministic() {
    let mut rng = ChaCha20Rng::seed_from_u64(99);
    let mut keys: Vec<u64> = Vec::new();
    while keys.len() < 100 {
        let k = rng.next_u64();
        if !keys.contains(&k) {
            keys.push(k);
        }
    }
    let data1: Vec<(u64, u64)> = keys.iter().map(|&k| (k, k ^ 0xABCD)).collect();
    let data2 = data1.clone();

    let map1 = FKSMap::<u64, u64, MSPHasher<u64>>::new(data1, 7, 75).unwrap();
    let map2 = FKSMap::<u64, u64, MSPHasher<u64>>::new(data2, 7, 75).unwrap();

    // Same data and seed give the same table layout and the same answers.
    assert_eq!(map1.len(), map2.len());
    assert_eq!(map1.num_buckets(), map2.num_buckets());
    assert_eq!(map1.num_slots(), map2.num_slots());
    assert_eq!(map1.num_collisions(), map2.num_collisions());
    for &k in keys.iter() {
        assert_eq!(map1.get(&k), map2.get(&k));
        assert_eq!(map1.get(&k), Some(&(k ^ 0xABCD)));
    }
}

#[test]
fn test_random_members_and_non_members() {
    let mut rng = ChaCha20Rng::seed_from_u64(5);
    let mut keys: Vec<u64> = Vec::new();
    while keys.len() < 1000 {
        let k = rng.next_u64();
        if !keys.contains(&k) {
            keys.push(k);
        }
    }
    let data: Vec<(u64, u128)> = keys
        .iter()
        .map(|&k| (k, ((k as u128) << 64) | 0x55))
        .collect();
    let map = FKSMap::<u64, u128, MSPHasher<u64>>::new(data, 42, 75).unwrap();

    for &k in keys.iter() {
        assert_eq!(map.get(&k), Some(&(((k as u128) << 64) | 0x55)));
    }
    let mut misses = 0;
    while misses < 300 {
        let k = rng.next_u64();
        if !keys.contains(&k) {
            assert_eq!(map.get(&k), None);
            misses += 1;
        }
    }
}

#[test]
fn test_generated_style_construction() {
    // The constant-style twin resolves and answers just like the runtime
    // construction, from its own deterministic seed stream.
    let data: Vec<(u32, u32)> = (1..=10).map(|k| (k, k + 100)).collect();
    let map = FKSMap::<u32, u32, MSPHasher<u32>>::new_const(data, 42, 75).unwrap();
    for k in 1..=10u32 {
        assert_eq!(map.get(&k), Some(&(k + 100)));
    }
    assert_eq!(map.get(&11), None);

    let again: Vec<(u32, u32)> = (1..=10).map(|k| (k, k + 100)).collect();
    let map2 = FKSMap::<u32, u32, MSPHasher<u32>>::new_const(again, 42, 75).unwrap();
    assert_eq!(map.num_buckets(), map2.num_buckets());
    assert_eq!(map.num_slots(), map2.num_slots());
}

#[test]
fn test_wide_and_pointer_sized_keys() {
    let data: Vec<(u128, u8)> = (0..20u128).map(|k| (k << 100 | k, k as u8)).collect();
    let map = FKSMap::<u128, u8, MSPHasher<u128>>::new(data, 13, 75).unwrap();
    for k in 0..20u128 {
        assert_eq!(map.get(&(k << 100 | k)), Some(&(k as u8)));
    }
    assert_eq!(map.get(&1), None);

    let data2: Vec<(usize, usize)> = (0..20usize).map(|k| (k * 7, k)).collect();
    let map2 = FKSMap::<usize, usize, MSPHasher<usize>>::new(data2, 13, 75).unwrap();
    for k in 0..20usize {
        assert_eq!(map2.get(&(k * 7)), Some(&k));
    }
}

#[test]
fn test_option_keys() {
    let data: Vec<(Option<u32>, &str)> = vec![
        (None, "nothing"),
        (Some(1), "one"),
        (Some(2), "two"),
        (Some(3), "three"),
    ];
    let map = FKSMap::<Option<u32>, &str, MSPHasher<Option<u32>>>::new(data, 42, 75).unwrap();
    assert_eq!(map.get(&None), Some(&"nothing"));
    assert_eq!(map.get(&Some(2)), Some(&"two"));
    assert_eq!(map.get(&Some(4)), None);
}

#[test]
fn test_long_string_keys() {
    // Strings past 256 bytes take the polynomial path of the hasher.
    let data: Vec<(String, usize)> = (0..8)
        .map(|k| ("x".repeat(300 + k * 37), k))
        .collect();
    let map = FKSMap::<String, usize, MSPHasher<String>>::new(data, 42, 75).unwrap();
    for k in 0..8usize {
        assert_eq!(map.get(&"x".repeat(300 + k * 37)), Some(&k));
    }
    assert_eq!(map.get(&"x".repeat(299)), None);
}

#[test]
fn test_error_message() {
    let e = O1Error::UnableToFindHashFunction;
    assert_eq!(
        e.message(),
        "Unable to find hash function suitable for resolving collisions."
    );
    assert_eq!(e, O1Error::UnableToFindHashFunction);
}

#[test]
fn test_array_keys() {
    let data: Vec<([u64; 2], u32)> = (0..16u64).map(|k| ([k, k * k], k as u32)).collect();
    let map = FKSMap::<[u64; 2], u32, MSPHasher<[u64; 2]>>::new(data, 42, 75).unwrap();
    for k in 0..16u64 {
        assert_eq!(map.get(&[k, k * k]), Some(&(k as u32)));
    }
    assert_eq!(map.get(&[1, 2]), None);

    let data2: Vec<([u8; 4], u8)> = (0..16u8).map(|k| ([k, k + 1, k + 2, k + 3], k)).collect();
    let map2 = FKSMap::<[u8; 4], u8, MSPHasher<[u8; 4]>>::new(data2, 42, 75).unwrap();
    for k in 0..16u8 {
        assert_eq!(map2.get(&[k, k + 1, k + 2, k + 3]), Some(&k));
    }

    let data3: Vec<([u128; 2], u8)> = (0..10u128).map(|k| ([k << 90, k], k as u8)).collect();
    let map3 = FKSMap::<[u128; 2], u8, MSPHasher<[u128; 2]>>::new(data3, 42, 75).unwrap();
    for k in 0..10u128 {
        assert_eq!(map3.get(&[k << 90, k]), Some(&(k as u8)));
    }
}

#[test]
fn test_resolution_failure_on_inseparable_keys() {
    // Two equal keys lie outside the construction contract; no hash
    // function can ever separate them, so the resolver spends its budgets
    // and surfaces its one failure.
    let data: Vec<(u32, u32)> = vec![(5, 1), (5, 2)];
    let r = FKSMap::<u32, u32, MSPHasher<u32>>::new(data, 42, 75);
    assert_eq!(r.err(), Some(O1Error::UnableToFindHashFunction));
}
