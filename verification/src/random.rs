//! Random choices, drawn from the standard generator of `rand`.
//!
//! What a generator returns is not determined by the arguments of a call, so
//! the contracts below state only what holds of every outcome.

use vstd::prelude::*;
use rand::rngs::StdRng;
use rand::seq::IteratorRandom;
use rand::seq::SliceRandom;
use rand::Rng;
use rand::SeedableRng;

verus! {

#[verifier::external_type_specification]
#[verifier::external_body]
pub struct ExStdRng(StdRng);

/// `SeedableRng::from_seed`: the generator that the seed determines.
#[verifier::external_body]
pub(crate) fn rng_from_seed(seed: [u8; 32]) -> StdRng {
    StdRng::from_seed(seed)
}

/// `Rng::gen_ratio`: `true` with a chance of `numerator` in `denominator`;
/// always where the two are equal, never where `numerator` is 0.
#[verifier::external_body]
pub(crate) fn gen_ratio(rng: &mut StdRng, numerator: u32, denominator: u32) -> (hit: bool)
    requires
        denominator > 0,
        numerator <= denominator,
    ensures
        numerator == denominator ==> hit,
        numerator == 0 ==> !hit,
{
    rng.gen_ratio(numerator, denominator)
}

/// `IteratorRandom::choose` on the numbers below `len`: one of them, or
/// nothing where there is none.
#[verifier::external_body]
pub(crate) fn choose_index(len: usize, rng: &mut StdRng) -> (picked: Option<usize>)
    ensures
        picked is None <==> len == 0,
        picked matches Some(i) ==> i < len,
{
    (0..len).choose(rng)
}

/// `IteratorRandom::choose_stable` on the items of a list: one of them, or
/// nothing where the list is empty.
#[verifier::external_body]
pub(crate) fn choose_stable_of(candidates: &Vec<usize>, rng: &mut StdRng) -> (picked: Option<usize>)
    ensures
        picked is None <==> candidates@.len() == 0,
        picked matches Some(c) ==> candidates@.contains(c),
{
    candidates.iter().copied().choose_stable(rng)
}

/// `SliceRandom::shuffle`: the items are swapped about; none is lost, none
/// is added.
#[verifier::external_body]
pub(crate) fn shuffle<T>(items: &mut Vec<T>, rng: &mut StdRng)
    ensures
        final(items)@.to_multiset() == old(items)@.to_multiset(),
{
    items.shuffle(rng)
}

} // verus!
