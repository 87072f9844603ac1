//! The source of randomness, and how a draw is cut down to a range.

use vstd::prelude::*;

verus! {

/// A source of random 32-bit numbers, to be implemented by the embedding
/// program on top of whatever entropy the machine offers. A draw never fails.
/// Nothing is promised about the numbers: the simulation is correct for every
/// sequence of them.
pub trait Rng {
    fn random_u32(&mut self) -> u32;
}

/// Cuts a raw draw down to `0 .. limit` by taking the remainder.
///
/// Unless `limit` divides 2^32, the low results are slightly more likely than
/// the high ones. That bias is part of the behaviour: no draw is rejected and
/// the source is asked exactly once per result.
pub fn bounded(raw: u32, limit: u32) -> (value: u32)
    requires
        limit > 0,
    ensures
        value == raw % limit,
        value < limit,
{
    raw % limit
}

/// Takes one number from `rng` and cuts it down to `0 .. limit`.
pub fn draw_bounded<R: Rng>(rng: &mut R, limit: u32) -> (value: u32)
    requires
        limit > 0,
    ensures
        value < limit,
{
    let raw = rng.random_u32();
    bounded(raw, limit)
}

} // verus!
