//! A small deterministic generator: the same seed gives the same stream on
//! every machine, which makes sampling and jitter repeatable.

use vstd::arithmetic::div_mod::lemma_add_mod_noop;
use vstd::prelude::*;

verus! {

/// Multiplier of the generator's step.
pub const MULTIPLIER: u64 = 6364136223846793005;

/// Increment of the generator's step.
pub const INCREMENT: u64 = 1442695040888963407;

/// The state that follows `state`: one step of a linear congruential
/// generator modulo 2^64.
pub open spec fn next_state(state: u64) -> u64 {
    ((state * MULTIPLIER + INCREMENT) % 0x1_0000_0000_0000_0000) as u64
}

/// The number that a state yields: its upper 53 bits.
pub open spec fn draw_of(state: u64) -> u64 {
    state / 2048
}

/// One more than the largest number a state can yield.
pub const DRAW_RANGE: u64 = 0x20_0000_0000_0000;

/// A generator and its current state.
#[derive(Clone, Copy, Debug)]
pub struct Rng {
    state: u64,
}

impl View for Rng {
    type V = u64;

    closed spec fn view(&self) -> u64 {
        self.state
    }
}

impl Rng {
    /// A generator that starts from `seed`.
    pub fn new(seed: u64) -> (rng: Rng)
        ensures
            rng@ == seed,
    {
        Rng { state: seed }
    }

    /// The number the next step will yield, without taking the step.
    pub fn peek(&self) -> (draw: u64)
        ensures
            draw == draw_of(next_state(self@)),
            draw < DRAW_RANGE,
    {
        let stepped: u64 = step(self.state);
        stepped / 2048
    }

    /// Takes one step and returns the number it yields.
    pub fn next(&mut self) -> (draw: u64)
        ensures
            final(self)@ == next_state(old(self)@),
            draw == draw_of(final(self)@),
            draw < DRAW_RANGE,
    {
        self.state = step(self.state);
        self.state / 2048
    }
}

/// Computes the state that follows `state`.
fn step(state: u64) -> (stepped: u64)
    ensures
        stepped == next_state(state),
{
    let product: u64 = state.wrapping_mul(MULTIPLIER);
    proof {
        lemma_add_mod_noop(
            state * MULTIPLIER,
            INCREMENT as int,
            0x1_0000_0000_0000_0000,
        );
    }
    product.wrapping_add(INCREMENT)
}

} // verus!
