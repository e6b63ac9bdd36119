//! The multiply-mod-prime hashing scheme of Carter and Wegman.
//!
//! Slower than multiply-shift, but textbook-simple; it serves as a ground
//! truth that the faster kernels can be compared against.

use vstd::prelude::*;

verus! {

use vstd::arithmetic::power2::pow2;
use crate::hashing::common::spec_num_buckets_for_bits;
use crate::hashing::common::num_buckets_for_bits;
use crate::hashing::polynomial::P;

/// `(s0 * x + s1) mod P mod 2^num_bits` over the Mersenne prime `2^89 - 1`,
/// the multiply wrapping in 128 bits.
pub open spec fn spec_mod_prime(x: u64, num_bits: u32, seed: Seq<u128>) -> u32
    recommends
        1 <= num_bits <= 31,
        seed.len() >= 2,
{
    ((seed[0].wrapping_mul(x as u128).wrapping_add(seed[1]) as nat % P as nat) % pow2(
        num_bits as nat,
    )) as u32
}

/// Hashes a 64-bit value into a 32-bit hash using the multiply-mod-prime
/// scheme.  The multiplier must lie in `[1, P-1]`.
pub fn mod_prime(x: u64, num_bits: u32, seed: &[u128; 2]) -> (r: u32)
    requires
        1 <= num_bits <= 31,
        0 < seed[0] < P,
    ensures
        r == spec_mod_prime(x, num_bits, seed@),
        r < pow2(num_bits as nat),
{
    proof {
        vstd::arithmetic::power2::lemma_pow2_pos(num_bits as nat);
        vstd::arithmetic::power2::lemma2_to64();
    }
    let num_buckets = num_buckets_for_bits(num_bits);
    (seed[0].wrapping_mul(x as u128).wrapping_add(seed[1]) % P % (num_buckets as u128)) as u32
}

} // verus!
