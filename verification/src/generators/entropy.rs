//! The source of chance that the strategies draw from: `rand`'s standard
//! generator, which can be seeded to repeat a game.

use crate::generators::dice_generator::DiceSide;
use rand::rngs::StdRng;
use rand::seq::{IteratorRandom, SliceRandom};
use vstd::prelude::*;

verus! {

/// `rand::rngs::StdRng`, handed through as it is: nothing is claimed of what
/// it holds.
#[verifier::external_type_specification]
#[verifier::external_body]
pub struct ExStdRng(rand::rngs::StdRng);

/// Picks one of `sides` at random with `rand::seq::SliceRandom::choose`.
///
/// Trusted: the pick is an entry of the slice, and there is a pick unless the
/// slice is empty. Which entry is picked is left open.
#[verifier::external_body]
pub(crate) fn choose_side(sides: &[DiceSide], rng: &mut StdRng) -> (picked: Option<DiceSide>)
    ensures
        sides@.len() == 0 ==> picked is None,
        sides@.len() > 0 ==> picked is Some && sides@.contains(picked->Some_0),
{
    sides.choose(rng).copied()
}

/// Picks a number from `low` to `high`, both included, at random with
/// `rand::seq::IteratorRandom::choose` on the inclusive range.
///
/// Trusted: the pick lies in the range, and there is a pick unless the range
/// is empty. Which number is picked is left open.
#[verifier::external_body]
pub(crate) fn choose_in_range(low: u16, high: u16, rng: &mut StdRng) -> (picked: Option<u16>)
    ensures
        low > high ==> picked is None,
        low <= high ==> picked is Some && low <= picked->Some_0 <= high,
{
    (low..=high).choose(rng)
}

} // verus!
