use vstd::prelude::*;

use rand::seq::SliceRandom;
use rand::{Rng, RngCore, SeedableRng};
use rand_xorshift::XorShiftRng;

verus! {

#[verifier::external_type_specification]
#[verifier::external_body]
pub struct ExXorShiftRng(XorShiftRng);

/// Relies on `rand::thread_rng` with `RngCore::next_u64`: any 64-bit value.
#[verifier::external_body]
fn fresh_seed() -> u64 {
    rand::thread_rng().next_u64()
}

/// Relies on `SeedableRng::seed_from_u64` for `XorShiftRng`.
#[verifier::external_body]
fn seeded_xorshift(seed: u64) -> XorShiftRng {
    XorShiftRng::seed_from_u64(seed)
}

/// Relies on `RngCore::next_u32` of `XorShiftRng`: any 32-bit value.
#[verifier::external_body]
fn xorshift_next_u32(rng: &mut XorShiftRng) -> u32 {
    rng.next_u32()
}

/// Relies on `RngCore::next_u64` of `XorShiftRng`: any 64-bit value.
#[verifier::external_body]
fn xorshift_next_u64(rng: &mut XorShiftRng) -> u64 {
    rng.next_u64()
}

/// Relies on `Rng::gen_range` of `rand::thread_rng` over `start..end`, which
/// panics on an empty range and otherwise returns a value inside it.
#[verifier::external_body]
fn thread_range(start: usize, end: usize) -> (r: usize)
    requires
        start < end,
    ensures
        start <= r < end,
{
    rand::thread_rng().gen_range(start..end)
}

/// Relies on `SliceRandom::shuffle` with `rand::thread_rng`: it only swaps
/// elements, so the same elements remain.
#[verifier::external_body]
fn thread_shuffle<T>(values: &mut Vec<T>)
    ensures
        final(values)@.to_multiset() == old(values)@.to_multiset(),
{
    values.as_mut_slice().shuffle(&mut rand::thread_rng())
}

/// Draws from the generator of the calling thread.
#[derive(Debug)]
pub struct Random();

impl Random {
    /// A value of `r`, which must not be empty.
    pub fn range(r: std::ops::Range<usize>) -> (x: usize)
        requires
            r.start < r.end,
        ensures
            r.start <= x < r.end,
    {
        thread_range(r.start, r.end)
    }

    /// One of `values`, which must not be empty.
    pub fn pick<T>(values: &[T]) -> (r: &T)
        requires
            values@.len() > 0,
        ensures
            exists|i: int| 0 <= i < values@.len() && *r == values@[i],
    {
        let i = thread_range(0, values.len());
        &values[i]
    }

    /// Puts `values` in a random order.
    pub fn shuffle<T>(values: &mut Vec<T>)
        ensures
            final(values)@.to_multiset() == old(values)@.to_multiset(),
            final(values)@.len() == old(values)@.len(),
    {
        thread_shuffle(values);
        proof {
            old(values)@.to_multiset_ensures();
            values@.to_multiset_ensures();
        }
    }
}

/// Random bits reduced to `0..width`.
pub open spec fn reduced(bits: u32, width: int) -> int {
    (bits as int) % width
}

/// A fast xorshift generator, one per worker thread.
#[derive(Debug)]
pub struct FastRng {
    rng: XorShiftRng,
}

impl FastRng {
    /// A generator seeded from the thread's generator.
    pub fn new() -> FastRng {
        FastRng { rng: seeded_xorshift(fresh_seed()) }
    }

    /// A generator with a fixed seed, for reproducible sequences.
    pub fn with_seed(seed: u64) -> FastRng {
        FastRng { rng: seeded_xorshift(seed) }
    }

    /// The next 64 random bits.
    pub fn next_u64(&mut self) -> u64 {
        xorshift_next_u64(&mut self.rng)
    }

    /// A value in `start..end`: `start` plus the next 32 random bits
    /// reduced modulo the width of the range.
    pub fn irange(&mut self, start: usize, end: usize) -> (r: usize)
        requires
            start < end,
        ensures
            start <= r < end,
            exists|bits: u32| r == start + #[trigger] reduced(bits, (end - start) as int),
    {
        let bits = xorshift_next_u32(&mut self.rng);
        let r = start + (bits as usize) % (end - start);
        assert(r == start + reduced(bits, (end - start) as int));
        r
    }
}

} // verus!
