use o1::hashing::common::{extract_bits_64, mod_mersenne_prime, num_bits_for_buckets,
    num_buckets_for_bits};
use o1::hashing::flawed::lowest_bits;
use o1::hashing::mod_prime::mod_prime;
use o1::hashing::multiply_shift::{multiply_shift, pair_multiply_shift, pair_multiply_shift_u128,
    pair_multiply_shift_vector_u64, pair_multiply_shift_vector_u64_const,
    pair_multiply_shift_vector_u8, pair_multiply_shift_vector_u8_const,
    pair_multiply_shift_vector_u128, pair_multiply_shift_vector_u128_const};
use o1::hashing::polynomial::{polynomial, polynomial_const, PolynomialSeed};
use o1::random::xorshift::XorShift;
use o1::random::xoshiro::SeedStream;
use rand_xoshiro::Xoshiro256PlusPlus;
use rand_chacha::rand_core::{Rng, SeedableRng};
use rand_chacha::ChaCha20Rng;

fn fill_random(rng: &mut ChaCha20Rng, len: usize) -> Vec<u64> {
    let mut out = Vec::new();
    for _ in 0..len {
        out.push(rng.next_u64());
    }
    out
}

#[test]
fn test_bits_and_buckets_mapping() {
    assert_eq!(num_bits_for_buckets(0), 0);
    assert_eq!(num_bits_for_buckets(1), 1);
    assert_eq!(num_bits_for_buckets(2), 1);
    assert_eq!(num_bits_for_buckets(3), 2);
    assert_eq!(num_bits_for_buckets(5), 3);
    assert_eq!(num_bits_for_buckets(1024), 10);
    assert_eq!(num_bits_for_buckets(1025), 11);
    assert_eq!(num_buckets_for_bits(0), 1);
    assert_eq!(num_buckets_for_bits(3), 8);
    assert_eq!(num_buckets_for_bits(31), 0x8000_0000);
}

#[test]
fn test_extract_bits_64_exact() {
    assert_eq!(extract_bits_64::<64>(u64::MAX, 8), 0xFF);
    assert_eq!(extract_bits_64::<64>(1u64 << 63, 1), 1);
    assert_eq!(extract_bits_64::<64>(0x0123_4567_89AB_CDEF, 16), 0x0123);
}

#[test]
fn test_mod_mersenne_prime_exact() {
    const P: u128 = 0x1FFFFFFFFFFFFFFFFFFFFFF;
    assert_eq!(mod_mersenne_prime::<89, P>(0), 0);
    assert_eq!(mod_mersenne_prime::<89, P>(P), 0);
    assert_eq!(mod_mersenne_prime::<89, P>(P + 5), 5);
    assert_eq!(mod_mersenne_prime::<89, P>(u128::MAX), u128::MAX % P);
}

#[test]
fn test_xorshift64_reference() {
    let mut rng = XorShift::<u64>::new(1);
    assert_eq!(rng.next(), 1082269761);
    let mut rng16 = XorShift::<u16>::new(1);
    let first16 = rng16.next();
    assert!(first16 != 0);
    let mut rng32 = XorShift::<u32>::new(1);
    let first32 = rng32.next();
    assert!(first32 != 0);
}

#[test]
fn test_lowest_bits_masks() {
    assert_eq!(lowest_bits(0xFFFF_FFFF_FFFF_FFFF, 4), 0xF);
    assert_eq!(lowest_bits(0x1234_5678, 16), 0x5678);
    assert_eq!(lowest_bits(0xAAAA_AAAA_AAAA_AAAA, 32), 0xAAAA_AAAA);
}

#[test]
fn test_hash_output_widths() {
    // For each kernel and each width of one, sixteen and thirty-two bits,
    // outputs lie below two to that power.
    let mut rng = ChaCha20Rng::seed_from_u64(7);
    for &num_bits in [1u32, 16, 32].iter() {
        let bound = if num_bits == 32 {
            u32::MAX as u64 + 1
        } else {
            1u64 << num_bits
        };
        for _ in 0..50 {
            let s2 = [rng.next_u64() | 1, rng.next_u64()];
            let s3 = [rng.next_u64(), rng.next_u64(), rng.next_u64()];
            let s5 = [rng.next_u64(), rng.next_u64(), rng.next_u64(), rng.next_u64(),
                rng.next_u64()];
            let v32 = rng.next_u64() as u32;
            let v64 = rng.next_u64();
            let v128 = ((rng.next_u64() as u128) << 64) | rng.next_u64() as u128;
            assert!((multiply_shift(v32, num_bits, &s2) as u64) < bound);
            assert!((pair_multiply_shift(v64, num_bits, &s3) as u64) < bound);
            assert!((pair_multiply_shift_u128(v128, num_bits, &s5) as u64) < bound);

            let words = fill_random(&mut rng, 4);
            let seed = fill_random(&mut rng, 9);
            assert!((pair_multiply_shift_vector_u64(&words, num_bits, &seed) as u64) < bound);

            let mut poly_words = fill_random(&mut rng, 132);
            poly_words[0] |= 1;
            let poly_seed = PolynomialSeed::from_slice(&poly_words);
            let bytes: Vec<u8> = (0..600).map(|_| rng.next_u64() as u8).collect();
            assert!((polynomial(&bytes, num_bits, &poly_seed) as u64) < bound);
        }
    }
}

#[test]
fn test_mod_prime_width() {
    let mut rng = ChaCha20Rng::seed_from_u64(11);
    const P: u128 = 0x1FFFFFFFFFFFFFFFFFFFFFF;
    for &num_bits in [1u32, 16, 31].iter() {
        for _ in 0..100 {
            let s0 = (((rng.next_u64() as u128) << 64) | rng.next_u64() as u128) % (P - 1) + 1;
            let s1 = (((rng.next_u64() as u128) << 64) | rng.next_u64() as u128) % P;
            let x = rng.next_u64();
            let h = mod_prime(x, num_bits, &[s0, s1]);
            assert!((h as u64) < (1u64 << num_bits));
        }
    }
}

#[test]
fn multiply_shift_test_pair_multiply_shift_vector_u64_const_equivalence() {
    let mut rng = ChaCha20Rng::seed_from_u64(1);

    for vec_len in [1usize, 4, 8, 32, 256] {
        for _ in 0..50 {
            let seed = fill_random(&mut rng, vec_len * 2 + 1);
            let key = fill_random(&mut rng, vec_len);
            for num_bits in [1u32, 16, 32] {
                assert_eq!(
                    pair_multiply_shift_vector_u64(&key, num_bits, &seed),
                    pair_multiply_shift_vector_u64_const(&key, num_bits, &seed),
                );
            }
        }
    }
}

#[test]
fn multiply_shift_test_pair_multiply_shift_vector_u8_const_equivalence() {
    let mut rng = ChaCha20Rng::seed_from_u64(2);

    for vec_len in [0usize, 1, 3, 4, 5, 7, 8, 9, 16, 32, 64, 128] {
        for _ in 0..50 {
            let u64_count = (vec_len + 7) >> 3;
            let seed_len = if vec_len <= 8 { 3 } else { u64_count * 2 + 1 };
            let mut seed = fill_random(&mut rng, seed_len);
            seed[0] |= 1;
            let key: Vec<u8> = (0..vec_len).map(|_| rng.next_u64() as u8).collect();
            for num_bits in [1u32, 16, 32] {
                assert_eq!(
                    pair_multiply_shift_vector_u8(&key, num_bits, &seed),
                    pair_multiply_shift_vector_u8_const(&key, num_bits, &seed),
                );
            }
        }
    }
}

#[test]
fn test_pair_multiply_shift_vector_u128_const_equivalence() {
    let mut rng = ChaCha20Rng::seed_from_u64(3);

    for vec_len in [1usize, 2, 8, 32] {
        for _ in 0..50 {
            let header = rng.next_u64();
            let value_seed = fill_random(&mut rng, vec_len * 4);
            let key: Vec<u128> = (0..vec_len)
                .map(|_| ((rng.next_u64() as u128) << 64) | rng.next_u64() as u128)
                .collect();
            for num_bits in [1u32, 16, 32] {
                assert_eq!(
                    pair_multiply_shift_vector_u128(&key, num_bits, header, &value_seed),
                    pair_multiply_shift_vector_u128_const(&key, num_bits, header, &value_seed),
                );
            }
        }
    }
}

#[test]
fn test_polynomial_const_equivalence() {
    let mut rng = ChaCha20Rng::seed_from_u64(4);

    for byte_len in [0usize, 1, 255, 256, 257, 512, 1000, 4096] {
        for _ in 0..10 {
            let mut seed_words = fill_random(&mut rng, 132);
            seed_words[0] |= 1;
            let seed = PolynomialSeed::from_slice(&seed_words);
            let key: Vec<u8> = (0..byte_len).map(|_| rng.next_u64() as u8).collect();
            for num_bits in [1u32, 16, 32] {
                assert_eq!(
                    polynomial(&key, num_bits, &seed),
                    polynomial_const(&key, num_bits, &seed),
                );
            }
        }
    }
}

#[test]
fn test_seed_stream_matches_generator() {
    // The runtime seed stream hands out exactly the words of a
    // Xoshiro256++ generator seeded from the same word.
    for seed in [0u64, 1, 42, u64::MAX] {
        let mut stream = SeedStream::new(seed);
        let mut oracle = Xoshiro256PlusPlus::seed_from_u64(seed);
        for _ in 0..16 {
            assert_eq!(stream.next_u64(), oracle.next_u64());
        }
    }
}
