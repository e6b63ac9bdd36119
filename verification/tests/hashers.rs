use o1::hashing::hashers::msp::{ConstMSPHasher, MSPHasher};
use o1::traits::{ConstHasher, Hasher};
use rand_chacha::rand_core::{Rng, SeedableRng};
use rand_chacha::ChaCha20Rng;

fn random_string(rng: &mut ChaCha20Rng, max_len: usize) -> String {
    let len = (rng.next_u64() as usize) % (max_len + 1);
    let mut s = String::new();
    for _ in 0..len {
        let c = (b'a' + (rng.next_u64() % 26) as u8) as char;
        s.push(c);
    }
    s
}

#[test]
fn test_msp_hasher_equivalence_u32() {
    let mut rng = ChaCha20Rng::seed_from_u64(21);
    for _ in 0..999 {
        let seed = rng.next_u64() | 1;
        let hasher = MSPHasher::<u32>::from_seed(seed, 1 << 16);
        let value = rng.next_u64() as u32;
        assert_eq!(hasher.hash(&value), hasher.hash_const(&value));
        assert_eq!(hasher.num_buckets(), 1 << 16);
    }
}

#[test]
fn test_msp_hasher_equivalence_u64() {
    let mut rng = ChaCha20Rng::seed_from_u64(22);
    for _ in 0..999 {
        let seed = rng.next_u64() | 1;
        let hasher = MSPHasher::<u64>::from_seed(seed, 1 << 16);
        let value = rng.next_u64();
        assert_eq!(hasher.hash(&value), hasher.hash_const(&value));
    }
}

#[test]
fn test_msp_hasher_equivalence_u128() {
    let mut rng = ChaCha20Rng::seed_from_u64(23);
    for _ in 0..999 {
        let seed = rng.next_u64() | 1;
        let hasher = MSPHasher::<u128>::from_seed(seed, 1 << 16);
        let value = ((rng.next_u64() as u128) << 64) | rng.next_u64() as u128;
        assert_eq!(hasher.hash(&value), hasher.hash_const(&value));
    }
}

#[test]
fn test_msp_hasher_equivalence_str() {
    let mut rng = ChaCha20Rng::seed_from_u64(24);
    for _ in 0..99 {
        let seed = rng.next_u64() | 1;
        let hasher = MSPHasher::<String>::from_seed(seed, 1 << 16);
        let value = random_string(&mut rng, 512);
        assert_eq!(hasher.hash(&value), hasher.hash_const(&value));
    }
}

#[test]
fn test_const_hasher_roundtrip() {
    let hasher = ConstMSPHasher::<u32>::from_seed(7, 100);
    let runtime = hasher.to_hasher();
    assert_eq!(hasher.num_buckets(), runtime.num_buckets());
    let value = 12345u32;
    // The constant-style face hashes exactly like its runtime face built
    // from the same state.
    assert_eq!(hasher.hash(&value), runtime.hash_const(&value));
    let owned = hasher.into_hasher();
    assert_eq!(owned.hash_const(&value), runtime.hash_const(&value));

    let state = *runtime.state();
    let rebuilt = MSPHasher::<u32>::from_state(state);
    assert_eq!(rebuilt.hash(&value), runtime.hash(&value));
    let rebuilt_const = MSPHasher::<u32>::from_state_const(state);
    assert_eq!(rebuilt_const.hash(&value), runtime.hash(&value));

    let again = ConstMSPHasher::<u32>::from_state(state);
    assert_eq!(again.hash(&value), runtime.hash(&value));
}

#[test]
fn test_hasher_states_are_deterministic() {
    // Two derivations from one seed agree everywhere; a different seed is
    // overwhelmingly likely to hash at least one of the probed values
    // differently.
    let a = MSPHasher::<u64>::from_seed(1234, 1024);
    let b = MSPHasher::<u64>::from_seed(1234, 1024);
    let c = MSPHasher::<u64>::from_seed(1235, 1024);
    let mut differs = false;
    for v in 0..64u64 {
        assert_eq!(a.hash(&v), b.hash(&v));
        if a.hash(&v) != c.hash(&v) {
            differs = true;
        }
    }
    assert!(differs);
}

#[test]
fn test_default_hasher_has_empty_range() {
    // The default hasher carries the all-default state; installing a real
    // state makes it usable.
    let d = MSPHasher::<u32>::default();
    let real = MSPHasher::<u32>::from_seed(5, 16);
    let _ = d.clone_const();
    assert_eq!(real.num_buckets(), 16);
}

fn probe<C: ConstHasher<u32>>() -> bool {
    true
}

#[test]
fn test_const_hasher_names_its_runtime_face() {
    assert!(probe::<ConstMSPHasher<u32>>());
}
