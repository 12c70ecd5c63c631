//! Structural facts about the state transition: it is an invertible (hence
//! full-rank linear) map on the 128-bit state space, and the all-zero state
//! is a fixed point, so every nonzero trajectory stays nonzero.

use crate::model::{combine, hi, lo, mix_hi, mix_lo, nth_state, rot_r7, step,
    lemma_combine_lo_hi, lemma_lo_hi_combine};
use vstd::prelude::*;

verus! {

/// The inverse of `mix_hi`: xoring with shifts by 19, 38 and 57 undoes the
/// single xor with the shift by 19.
pub open spec fn unmix_hi(b: u64) -> u64 {
    b ^ (b >> 19) ^ (b >> 38) ^ (b >> 57)
}

/// The inverse of the state transition: recover the old low word from the
/// new high word, then the old high word from the new low word.
pub open spec fn step_back(s: u128) -> u128 {
    combine(unmix_hi(hi(s)), lo(s) ^ rot_r7(unmix_hi(hi(s))))
}

/// The state transition is a bijection on the 128-bit state space:
/// `step_back` inverts it on every state. Viewed as a linear map over the
/// 128-dimensional binary vector space, the transition is therefore
/// invertible.
pub proof fn lemma_step_bijective(s: u128)
    ensures
        step_back(step(s)) == s,
        step(step_back(s)) == s,
{
    let x = lo(s);
    let y = hi(s);
    lemma_lo_hi_combine(mix_lo(x, y), mix_hi(x));
    assert(unmix_hi(mix_hi(x)) == x) by (bit_vector);
    assert(mix_lo(x, y) ^ rot_r7(x) == y) by (bit_vector);
    lemma_combine_lo_hi(s);

    let b = unmix_hi(y);
    lemma_lo_hi_combine(b, x ^ rot_r7(b));
    assert(mix_hi(unmix_hi(y)) == y) by (bit_vector);
    assert(mix_lo(b, x ^ rot_r7(b)) == x) by (bit_vector);
}

/// The state transition is linear over the two-element field: it distributes
/// over xor. Together with `lemma_step_bijective`, the transition is an
/// invertible linear map on the 128-dimensional binary vector space, the
/// structure the generator's full-period claim rests on.
pub proof fn lemma_step_linear(s1: u128, s2: u128)
    ensures
        step(s1 ^ s2) == step(s1) ^ step(s2),
{
    assert(step(s1 ^ s2) == step(s1) ^ step(s2)) by (bit_vector);
}

/// No two states advance to the same state.
pub proof fn lemma_step_injective(s1: u128, s2: u128)
    requires
        step(s1) == step(s2),
    ensures
        s1 == s2,
{
    lemma_step_bijective(s1);
    lemma_step_bijective(s2);
}

/// The all-zero state is the transition's one fixed point: it advances to
/// itself, and no other state advances to it.
pub proof fn lemma_zero_fixed_point(s: u128)
    ensures
        step(0) == 0,
        step(s) == 0 ==> s == 0,
{
    assert(step(0) == 0) by (bit_vector);
    if step(s) == 0 {
        lemma_step_injective(s, 0);
    }
}

/// A trajectory that starts at a nonzero state never reaches the all-zero
/// state: the reachable space of a seeded generator excludes the fixed
/// point.
pub proof fn lemma_nonzero_trajectory(s: u128, n: nat)
    requires
        s != 0,
    ensures
        nth_state(s, n) != 0,
    decreases n,
{
    if n > 0 {
        lemma_nonzero_trajectory(s, (n - 1) as nat);
        lemma_zero_fixed_point(nth_state(s, (n - 1) as nat));
    }
}

} // verus!
