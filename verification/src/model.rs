//! The mathematical model of the generator: the 128-bit state as two 64-bit
//! words, the state-transition function, the tempering (output) function, and
//! the output and byte streams they generate.

use vstd::bytes::{lemma_auto_spec_u64_to_from_le_bytes, spec_u64_from_le_bytes,
    spec_u64_to_le_bytes};
use vstd::prelude::*;

verus! {

/// The low 64-bit word of a 128-bit state.
pub open spec fn lo(s: u128) -> u64 {
    (s & 0xffff_ffff_ffff_ffff) as u64
}

/// The high 64-bit word of a 128-bit state.
pub open spec fn hi(s: u128) -> u64 {
    (s >> 64) as u64
}

/// The 128-bit state whose low word is `x` and whose high word is `y`.
pub open spec fn combine(x: u64, y: u64) -> u128 {
    (x as u128) | ((y as u128) << 64)
}

/// `x` rotated right by 7 bits.
pub open spec fn rot_r7(x: u64) -> u64 {
    (x >> 7) | (x << 57)
}

/// The low word of the successor state: the low word rotated right by 7,
/// xored with the high word.
pub open spec fn mix_lo(x: u64, y: u64) -> u64 {
    rot_r7(x) ^ y
}

/// The high word of the successor state: the low word xored with itself
/// shifted right by 19.
pub open spec fn mix_hi(x: u64) -> u64 {
    x ^ (x >> 19)
}

/// The high 64 bits of the full 128-bit product of `x` and `y`.
pub open spec fn mul_hi(x: u64, y: u64) -> u64 {
    (((x * y) as u128) >> 64) as u64
}

/// The output drawn while the state `(x, y)` advances: the successor's low
/// word plus (wrapping) the xor of the two halves of the product `x * y`.
/// The full product mixes both words so that the output is not a linear
/// function of the state, though the transition itself is.
pub open spec fn temper(x: u64, y: u64) -> u64 {
    mix_lo(x, y).wrapping_add(x.wrapping_mul(y) ^ mul_hi(x, y))
}

/// The state-transition function: one advance of the generator.
pub open spec fn step(s: u128) -> u128 {
    combine(mix_lo(lo(s), hi(s)), mix_hi(lo(s)))
}

/// The output produced as state `s` advances to `step(s)`.
pub open spec fn output(s: u128) -> u64 {
    temper(lo(s), hi(s))
}

/// The state after `n` advances from `s`.
pub open spec fn nth_state(s: u128, n: nat) -> u128
    decreases n,
{
    if n == 0 {
        s
    } else {
        step(nth_state(s, (n - 1) as nat))
    }
}

/// The first `n` outputs drawn from state `s`.
pub open spec fn outputs(s: u128, n: nat) -> Seq<u64> {
    Seq::new(n, |i: int| output(nth_state(s, i as nat)))
}

/// The little-endian byte concatenation of the first `n` outputs drawn from
/// state `s`.
pub open spec fn stream_bytes(s: u128, n: nat) -> Seq<u8>
    decreases n,
{
    if n == 0 {
        Seq::<u8>::empty()
    } else {
        stream_bytes(s, (n - 1) as nat) + spec_u64_to_le_bytes(output(nth_state(s, (n - 1) as nat)))
    }
}

/// The number of outputs a byte fill of length `len` draws: one per eight
/// bytes, and one more for a partial tail.
pub open spec fn draws(len: nat) -> nat {
    (len + 7) / 8
}

/// The state a 16-byte seed denotes: the bytes read as one little-endian
/// 128-bit integer, the low eight bytes giving the low word and the high
/// eight the high word.
pub open spec fn seed_state(seed: Seq<u8>) -> u128
    recommends
        seed.len() == 16,
{
    combine(
        spec_u64_from_le_bytes(seed.subrange(0, 8)),
        spec_u64_from_le_bytes(seed.subrange(8, 16)),
    )
}

/// Splitting a state into words and recombining them gives the state back.
pub proof fn lemma_combine_lo_hi(s: u128)
    ensures
        combine(lo(s), hi(s)) == s,
{
    assert(((s & 0xffff_ffff_ffff_ffff) as u64 as u128) | (((s >> 64) as u64 as u128) << 64)
        == s) by (bit_vector);
}

/// The words of a combined state are the words it was combined from.
pub proof fn lemma_lo_hi_combine(x: u64, y: u64)
    ensures
        lo(combine(x, y)) == x,
        hi(combine(x, y)) == y,
{
    assert(((((x as u128) | ((y as u128) << 64)) & 0xffff_ffff_ffff_ffff) as u64) == x)
        by (bit_vector);
    assert(((((x as u128) | ((y as u128) << 64)) >> 64) as u64) == y) by (bit_vector);
}

/// A stream of `n` outputs is `8 * n` bytes long.
pub proof fn lemma_stream_bytes_len(s: u128, n: nat)
    ensures
        stream_bytes(s, n).len() == 8 * n,
    decreases n,
{
    lemma_auto_spec_u64_to_from_le_bytes();
    if n > 0 {
        lemma_stream_bytes_len(s, (n - 1) as nat);
    }
}

} // verus!
