//! The generator itself: construction, state access, advancing, splitting,
//! and byte filling.

use crate::model::{
    combine, draws, mul_hi, nth_state, output, outputs, seed_state, step, stream_bytes,
    lemma_lo_hi_combine, lemma_stream_bytes_len,
};
use vstd::arithmetic::div_mod::lemma_div_multiples_vanish_fancy;
use vstd::arithmetic::mul::lemma_mul_upper_bound;
use vstd::bytes::{lemma_auto_spec_u64_to_from_le_bytes, spec_u64_to_le_bytes, u64_from_le_bytes,
    u64_to_le_bytes};
use vstd::prelude::*;
use vstd::slice::slice_subrange;

verus! {

/// A fast non-cryptographic random number generator: 128 bits of state held
/// as two 64-bit words. Any pair of words is a valid state, the all-zero
/// pair included; a good start state should be drawn from a distribution
/// with sufficient entropy.
#[derive(Clone)]
pub struct Rng {
    /// The low word of the state.
    pub x: u64,
    /// The high word of the state.
    pub y: u64,
}

impl View for Rng {
    type V = u128;

    open spec fn view(&self) -> u128 {
        combine(self.x, self.y)
    }
}

/// The high 64 bits of the unsigned 64-by-64-bit product.
fn umulh(x: u64, y: u64) -> (r: u64)
    ensures
        r == mul_hi(x, y),
{
    proof {
        lemma_mul_upper_bound(x as int, 0xffff_ffff_ffff_ffff, y as int, 0xffff_ffff_ffff_ffff);
    }
    let p = (x as u128) * (y as u128);
    (p >> 64) as u64
}

impl Rng {
    /// Creates a new random number generator starting from the given state.
    pub fn new(state: u128) -> (g: Rng)
        ensures
            g@ == state,
    {
        let g = Rng { x: (state & 0xffff_ffff_ffff_ffff) as u64, y: (state >> 64) as u64 };
        proof {
            assert(combine(((state & 0xffff_ffff_ffff_ffff) as u64), ((state >> 64) as u64))
                == state) by (bit_vector);
        }
        g
    }

    /// Creates a new random number generator using the given seed, read as a
    /// little-endian 128-bit integer, as the start state. Every byte pattern
    /// is accepted as it stands, the all-zero seed included.
    pub fn from_seed(seed: [u8; 16]) -> (g: Rng)
        ensures
            g@ == seed_state(seed@),
    {
        let s = seed.as_slice();
        let x = u64_from_le_bytes(slice_subrange(s, 0, 8));
        let y = u64_from_le_bytes(slice_subrange(s, 8, 16));
        Rng { x, y }
    }

    /// Creates a new random number generator with a seed requested from the
    /// operating system's entropy source. Failure of that source is fatal:
    /// the call never falls back to a fixed state. Nothing is promised of
    /// the resulting state, which is as random as its seed.
    pub fn from_system_seed() -> Rng {
        Rng::from_seed(system_entropy_16())
    }

    /// Accesses the random number generator's current state.
    pub fn state(&self) -> (s: u128)
        ensures
            s == self@,
    {
        (self.x as u128) | ((self.y as u128) << 64)
    }

    /// Samples a `u64` from the uniform distribution, advancing the state
    /// exactly once. Both the output and the new state are functions of the
    /// old state alone, so for a fixed seed the output sequence is exactly
    /// reproducible.
    pub fn u64(&mut self) -> (r: u64)
        ensures
            final(self)@ == step(old(self)@),
            r == output(old(self)@),
    {
        let x = self.x;
        let y = self.y;
        let a = ((x >> 7) | (x << 57)) ^ y;
        let b = x ^ (x >> 19);
        let r = a.wrapping_add(x.wrapping_mul(y) ^ umulh(x, y));
        self.x = a;
        self.y = b;
        proof {
            lemma_lo_hi_combine(x, y);
        }
        r
    }

    /// Splits off a new, independent random number generator that may be
    /// used in addition to the original: its state is built from two fresh
    /// outputs of this one, low word first, each word taken as it stands.
    /// The original generator advances by exactly two steps.
    pub fn split(&mut self) -> (g: Rng)
        ensures
            final(self)@ == nth_state(old(self)@, 2),
            g@ == combine(output(old(self)@), output(step(old(self)@))),
    {
        let p = self.u64();
        let q = self.u64();
        proof {
            assert(nth_state(old(self)@, 0) == old(self)@);
            assert(nth_state(old(self)@, 1) == step(old(self)@));
            assert(nth_state(old(self)@, 2) == step(step(old(self)@)));
        }
        Rng { x: p, y: q }
    }

    /// Samples an array of i.i.d. `u64`s from the uniform distribution: the
    /// outputs of `N` sequential draws, in order.
    pub fn array_u64<const N: usize>(&mut self) -> (a: [u64; N])
        ensures
            a@ == outputs(old(self)@, N as nat),
            final(self)@ == nth_state(old(self)@, N as nat),
    {
        let mut a = [0u64; N];
        let mut i: usize = 0;
        while i < N
            invariant
                i <= N,
                self@ == nth_state(old(self)@, i as nat),
                forall|j: int| 0 <= j < i ==> a@[j] == output(nth_state(old(self)@, j as nat)),
            decreases N - i,
        {
            let v = self.u64();
            a[i] = v;
            i += 1;
        }
        proof {
            assert(a@ =~= outputs(old(self)@, N as nat));
        }
        a
    }

    /// Fills a slice with i.i.d. bytes sampled from the uniform
    /// distribution: the little-endian byte concatenation of consecutive
    /// outputs, truncated to the slice's length, drawing one output per
    /// eight bytes. A partial tail takes the low-order bytes of the last
    /// output drawn, never a fresh one; an empty slice draws nothing and
    /// leaves the state where it stands.
    pub fn fill(&mut self, dst: &mut [u8])
        ensures
            final(dst)@.len() == old(dst)@.len(),
            final(dst)@ == stream_bytes(old(self)@, draws(old(dst)@.len() as nat)).take(
                old(dst)@.len() as int,
            ),
            final(self)@ == nth_state(old(self)@, draws(old(dst)@.len() as nat)),
            old(dst)@.len() == 0 ==> final(self)@ == old(self)@,
    {
        let len = dst.len();
        let mut i: usize = 0;
        let ghost mut k: nat = 0;
        while len - i >= 8
            invariant
                i <= len,
                i == 8 * k,
                len == old(dst)@.len(),
                dst@.len() == len,
                self@ == nth_state(old(self)@, k),
                dst@.take(i as int) == stream_bytes(old(self)@, k),
            decreases len - i,
        {
            let o = self.u64();
            write_le_prefix(dst, i, 8, o);
            proof {
                lemma_auto_spec_u64_to_from_le_bytes();
                lemma_stream_bytes_len(old(self)@, k);
                k = k + 1;
                assert(dst@.take((i + 8) as int) =~= stream_bytes(old(self)@, k));
            }
            i += 8;
        }
        if i < len {
            let o = self.u64();
            let ghost pre = dst@;
            write_le_prefix(dst, i, len - i, o);
            proof {
                lemma_auto_spec_u64_to_from_le_bytes();
                lemma_stream_bytes_len(old(self)@, k);
                k = k + 1;
                lemma_stream_bytes_len(old(self)@, k);
                assert forall|j: int| 0 <= j < len implies dst@[j] == stream_bytes(
                    old(self)@,
                    k,
                ).take(len as int)[j] by {
                    if j < i {
                        assert(pre[j] == pre.take(i as int)[j]);
                    }
                }
                assert(dst@ =~= stream_bytes(old(self)@, k).take(len as int));
                lemma_div_multiples_vanish_fancy(k as int, (len + 7) - 8 * k as int, 8);
                assert(draws(len as nat) == k);
            }
        } else {
            proof {
                lemma_stream_bytes_len(old(self)@, k);
                assert(dst@ =~= stream_bytes(old(self)@, k).take(len as int));
                lemma_div_multiples_vanish_fancy(k as int, 7, 8);
                assert(draws(len as nat) == k);
            }
        }
    }
}

/// Copies the low `count` little-endian bytes of `o` into `dst` starting at
/// `start`, leaving the rest of `dst` unchanged.
fn write_le_prefix(dst: &mut [u8], start: usize, count: usize, o: u64)
    requires
        count <= 8,
        start + count <= old(dst)@.len(),
    ensures
        final(dst)@.len() == old(dst)@.len(),
        forall|j: int| 0 <= j < count ==> final(dst)@[start + j] == spec_u64_to_le_bytes(o)[j],
        forall|j: int|
            0 <= j < old(dst)@.len() && !(start <= j < start + count) ==> final(dst)@[j] == old(
                dst,
            )@[j],
{
    let bytes = u64_to_le_bytes(o);
    let n = dst.len();
    let mut t: usize = 0;
    while t < count
        invariant
            t <= count,
            count <= 8,
            bytes@ == spec_u64_to_le_bytes(o),
            bytes@.len() == 8,
            start + count <= n,
            n == dst@.len(),
            dst@.len() == old(dst)@.len(),
            forall|j: int| 0 <= j < t ==> dst@[start + j] == spec_u64_to_le_bytes(o)[j],
            forall|j: int|
                0 <= j < dst@.len() && !(start <= j < start + t) ==> dst@[j] == old(dst)@[j],
        decreases count - t,
    {
        dst[start + t] = bytes[t];
        t += 1;
    }
}

/// Relies on `getrandom::getrandom`: fills the buffer with entropy from the
/// operating system, or reports failure. Failure is fatal here, as a
/// system-seeded generator must never silently fall back to a fixed state.
/// Nothing can be stated of the bytes themselves.
#[verifier::external_body]
fn system_entropy_16() -> [u8; 16] {
    let mut seed = [0u8; 16];
    getrandom::getrandom(&mut seed).expect("system entropy source failed");
    seed
}

} // verus!
