//! The per-thread ambient generator's protocol. A thread's storage cell
//! holds the generator state as one bare 128-bit word, zero-initialized at
//! thread start; the zero word is the "not yet seeded" sentinel. Each access
//! resumes a transient generator from the stored word, performs one
//! operation, and hands back the advanced state word for the caller to write
//! into the cell. The caller owns that read-operate-write sequence and must
//! not re-enter it from inside the operation: a nested access would read the
//! pre-operation state and one of the two advances would be lost when the
//! writes race. Thread-local storage itself is a platform facility that
//! stays outside this library; only the word read from it and the word
//! written back pass through here.

use crate::model::{combine, draws, nth_state, output, outputs, step, stream_bytes};
use crate::rng::Rng;
use vstd::prelude::*;

verus! {

/// Rebuilds the ambient generator from a thread cell's stored word: the zero
/// sentinel is replaced by a freshly system-seeded generator, and any other
/// word is the state itself. No nonzero state ever advances to the all-zero
/// state (see [`crate::cycle`]), so once a nonzero word stands in the cell,
/// the words written back are never mistaken for the sentinel.
pub fn resume(stored: u128) -> (g: Rng)
    ensures
        stored != 0 ==> g@ == stored,
{
    if stored == 0 {
        Rng::from_system_seed()
    } else {
        Rng::new(stored)
    }
}

/// Samples a `u64` from the ambient generator: one draw against the stored
/// word, yielding the output and the state word to store back. Whatever
/// state the sentinel was reseeded to, output and new word come from one
/// draw of one state.
pub fn u64(stored: u128) -> (r: (u64, u128))
    ensures
        stored != 0 ==> r.0 == output(stored) && r.1 == step(stored),
        exists|s: u128| r.0 == output(s) && r.1 == #[trigger] step(s),
{
    let mut g = resume(stored);
    let ghost s0 = g@;
    let x = g.u64();
    let next = g.state();
    proof {
        assert(x == output(s0) && next == step(s0));
    }
    (x, next)
}

/// Splits a new, independent generator off the ambient one: the child and
/// the state word to store back, the parent having advanced by two steps.
pub fn split(stored: u128) -> (r: (Rng, u128))
    ensures
        stored != 0 ==> r.0@ == combine(output(stored), output(step(stored))) && r.1 == nth_state(
            stored,
            2,
        ),
        exists|s: u128| r.0@ == combine(output(s), output(step(s))) && r.1 == #[trigger] nth_state(
            s,
            2,
        ),
{
    let mut g = resume(stored);
    let ghost s0 = g@;
    let child = g.split();
    let next = g.state();
    proof {
        assert(child@ == combine(output(s0), output(step(s0))) && next == nth_state(s0, 2));
    }
    (child, next)
}

/// Samples an array of i.i.d. `u64`s from the ambient generator: `N`
/// sequential draws against the stored word, and the state word to store
/// back.
pub fn array_u64<const N: usize>(stored: u128) -> (r: ([u64; N], u128))
    ensures
        stored != 0 ==> r.0@ == outputs(stored, N as nat) && r.1 == nth_state(stored, N as nat),
        exists|s: u128| r.0@ == outputs(s, N as nat) && r.1 == #[trigger] nth_state(s, N as nat),
{
    let mut g = resume(stored);
    let ghost s0 = g@;
    let a = g.array_u64();
    let next = g.state();
    proof {
        assert(a@ == outputs(s0, N as nat) && next == nth_state(s0, N as nat));
    }
    (a, next)
}

/// Fills a slice with i.i.d. bytes from the ambient generator, returning the
/// state word to store back. The bytes and the advance follow `Rng::fill`:
/// one draw per eight bytes, a partial tail from the last draw, and no
/// advance at all for an empty slice.
pub fn fill(stored: u128, dst: &mut [u8]) -> (r: u128)
    ensures
        final(dst)@.len() == old(dst)@.len(),
        stored != 0 ==> final(dst)@ == stream_bytes(stored, draws(old(dst)@.len() as nat)).take(
            old(dst)@.len() as int,
        ) && r == nth_state(stored, draws(old(dst)@.len() as nat)),
        stored != 0 && old(dst)@.len() == 0 ==> r == stored,
        exists|s: u128|
            final(dst)@ == stream_bytes(s, draws(old(dst)@.len() as nat)).take(
                old(dst)@.len() as int,
            ) && r == #[trigger] nth_state(s, draws(old(dst)@.len() as nat)),
{
    let mut g = resume(stored);
    let ghost s0 = g@;
    g.fill(dst);
    let next = g.state();
    proof {
        assert(dst@ == stream_bytes(s0, draws(old(dst)@.len() as nat)).take(
            old(dst)@.len() as int,
        ) && next == nth_state(s0, draws(old(dst)@.len() as nat)));
    }
    next
}

} // verus!
