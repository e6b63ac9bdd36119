//! An intentionally weak hash function, kept as a negative example: a
//! testing suite that probes distribution quality should reject it.

use vstd::prelude::*;

verus! {

use vstd::arithmetic::power2::pow2;

/// The low `num_bits` bits of the input.
pub open spec fn spec_lowest_bits(x: u64, num_bits: u32) -> u32
    recommends
        1 <= num_bits <= 32,
{
    (x as nat % pow2(num_bits as nat)) as u32
}

/// Hashes a 64-bit value into a 32-bit hash by extracting its lowest
/// `num_bits` bits.  Deliberately far from universal: inputs that agree on
/// the low bits always collide.
pub fn lowest_bits(x: u64, num_bits: u32) -> (r: u32)
    requires
        1 <= num_bits <= 32,
    ensures
        r == spec_lowest_bits(x, num_bits),
        r < pow2(num_bits as nat),
{
    proof {
        vstd::arithmetic::power2::lemma_pow2_pos(num_bits as nat);
        vstd::arithmetic::power2::lemma2_to64();
        vstd::bits::lemma_u64_low_bits_mask_is_mod(x, num_bits as nat);
        vstd::bits::lemma_low_bits_mask_values();
        if num_bits < 32 {
            vstd::arithmetic::power2::lemma_pow2_strictly_increases(num_bits as nat, 32);
        }
    }
    proof {
        vstd::bits::lemma_u64_shl_is_mul(1u64, num_bits as u64);
    }
    let mask = if num_bits == 32 {
        0xFFFF_FFFFu64
    } else {
        (1u64 << (num_bits as u64)) - 1
    };
    proof {
        assert(mask == vstd::bits::low_bits_mask(num_bits as nat));
    }
    (x & mask) as u32
}

} // verus!
