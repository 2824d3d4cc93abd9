//! The seeded generator behind the demonstration witnesses.

use rand::rngs::StdRng;
use rand::{Rng, SeedableRng};
use vstd::prelude::*;

verus! {

/// The generator of rand that witnesses are drawn from.
#[verifier::external_type_specification]
#[verifier::external_body]
pub struct ExStdRng(rand::rngs::StdRng);

/// The words that a generator has yet to hand out: under `i`, what the `i`-th of the coming calls
/// of `next_u64` returns.
pub uninterp spec fn upcoming(rng: StdRng) -> Map<nat, u64>;

/// The words of a generator made from `seed`.
pub uninterp spec fn seeded_words(seed: u64) -> Map<nat, u64>;

/// What a uniform draw from `low..=high` makes of the words to come: the number drawn, and how
/// many words it has used up.
pub uninterp spec fn uniform_draw(words: Map<nat, u64>, low: u64, high: u64) -> (u64, nat);

/// The words that are left once the first `used` are gone.
pub open spec fn skip_words(words: Map<nat, u64>, used: nat) -> Map<nat, u64> {
    Map::new(|i: nat| true, |i: nat| words[i + used])
}

/// Calls `StdRng::seed_from_u64` of rand.
///
/// Claimed: the words of the generator depend on the seed alone. In the pinned version of rand the
/// generator is ChaCha with twelve rounds, on every machine.
#[verifier::external_body]
pub(crate) fn seed_generator(seed: u64) -> (rng: StdRng)
    ensures
        upcoming(rng) == seeded_words(seed),
{
    StdRng::seed_from_u64(seed)
}

/// Calls `Rng::gen_range` of rand with an inclusive range of `u64`.
///
/// Claimed: the number lies in the range, and the words to come fix both the number and how many
/// of them are used up. The draw takes words from the front, and rejects some, until one gives a
/// number.
#[verifier::external_body]
pub(crate) fn draw_in_range(rng: &mut StdRng, low: u64, high: u64) -> (number: u64)
    requires
        low <= high,
    ensures
        low <= number <= high,
        number == uniform_draw(upcoming(*old(rng)), low, high).0,
        upcoming(*final(rng)) == skip_words(
            upcoming(*old(rng)),
            uniform_draw(upcoming(*old(rng)), low, high).1,
        ),
{
    rng.gen_range(low..=high)
}

/// Calls `Rng::gen` of rand for a `u64`.
///
/// Claimed: the number is the next word, and that word is then gone.
#[verifier::external_body]
pub(crate) fn draw_u64(rng: &mut StdRng) -> (number: u64)
    ensures
        number == upcoming(*old(rng))[0],
        upcoming(*final(rng)) == skip_words(upcoming(*old(rng)), 1),
{
    rng.gen::<u64>()
}

} // verus!
