//! The random source of the simulation, from macroquad's `rand` module.
use vstd::prelude::*;

use crate::movement::GridMovement;
use macroquad::rand::{ChooseRandom, RandGenerator};

verus! {

/// The pseudo-random generator that breaks movement ties; opaque here.
#[verifier::external_type_specification]
#[verifier::external_body]
pub struct ExRandGenerator(RandGenerator);

/// Relies on `RandGenerator::gen_range(0, 2)`: a value of the half-open range
/// `[0, 2)`.
#[verifier::external_body]
pub(crate) fn coin_flip(rng: &RandGenerator) -> (r: i8)
    ensures
        0 <= r < 2,
{
    rng.gen_range(0i8, 2i8)
}

/// Relies on `ChooseRandom::shuffle_with_state`: a Fisher-Yates shuffle, which
/// only swaps elements, so the result is a permutation of the input.
#[verifier::external_body]
pub(crate) fn shuffle_movements(movements: &mut Vec<GridMovement>, rng: &RandGenerator)
    ensures
        final(movements)@.to_multiset() == old(movements)@.to_multiset(),
{
    movements.shuffle_with_state(rng);
}

} // verus!
