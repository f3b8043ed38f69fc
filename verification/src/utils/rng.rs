//! The random number generator, which is not the library's own.
use rand::seq::SliceRandom;
use rand::{Rng, RngCore, SeedableRng};
use rand_chacha::ChaCha8Rng;
use vstd::prelude::*;

verus! {

#[verifier::external_type_specification]
#[verifier::external_body]
pub struct ExChaCha8Rng(ChaCha8Rng);

/// `SeedableRng::seed_from_u64` of `ChaCha8Rng`: a generator that starts
/// from `seed`.
#[verifier::external_body]
pub(crate) fn rng_from_seed(seed: u64) -> ChaCha8Rng {
    ChaCha8Rng::seed_from_u64(seed)
}

/// `RngCore::next_u32`: the next 32 bits of the generator.
#[verifier::external_body]
pub(crate) fn rng_next_u32(rng: &mut ChaCha8Rng) -> u32 {
    rng.next_u32()
}

/// `Rng::gen_range` on `low..high`, which must not be empty: some number
/// of that range.
#[verifier::external_body]
pub(crate) fn rng_gen_range(rng: &mut ChaCha8Rng, low: usize, high: usize) -> (drawn: usize)
    requires
        low < high,
    ensures
        low <= drawn < high,
{
    rng.gen_range(low..high)
}

/// `chosen` holds the items at `amount` different places of `items`, or
/// at all places where there are fewer.
pub open spec fn chosen_from(items: Seq<usize>, amount: usize, chosen: Seq<usize>) -> bool {
    exists|places: Seq<int>|
        {
            &&& #[trigger] places.len() == chosen.len()
            &&& places.len() == if amount <= items.len() {
                amount as nat
            } else {
                items.len()
            }
            &&& places.no_duplicates()
            &&& forall|k: int|
                0 <= k < places.len() ==> 0 <= #[trigger] places[k] < items.len() && chosen[k] == items[places[k]]
        }
}

/// `SliceRandom::choose_multiple`: `amount` items of `items` from
/// different places, in any order; all items where there are fewer.
#[verifier::external_body]
pub(crate) fn rng_choose_multiple(
    rng: &mut ChaCha8Rng,
    items: &Vec<usize>,
    amount: usize,
) -> (chosen: Vec<usize>)
    ensures
        chosen_from(items@, amount, chosen@),
{
    items.choose_multiple(rng, amount).copied().collect()
}

} // verus!
