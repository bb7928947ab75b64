//! Randomness, through the `rand` crate. Each item here is trusted: its
//! contract states only what `rand`'s source shows, and nothing is promised
//! of which value a random draw yields.

use vstd::prelude::*;
use crate::movable::MovableSprite;

verus! {

#[verifier::external_type_specification]
#[verifier::external_body]
pub struct ExThreadRng(rand::rngs::ThreadRng);

/// Relies on `rand::Rng::gen::<bool>`: an arbitrary draw; nothing holds of
/// a random value, so nothing is stated.
#[verifier::external_body]
pub fn random_bool(rng: &mut rand::rngs::ThreadRng) -> (r: bool) {
    rand::Rng::gen::<bool>(rng)
}

/// Relies on `rand::Rng::gen_range` over `lo..hi`: the draw lies in the
/// range. It panics on an empty range, which `requires` excludes.
#[verifier::external_body]
pub fn gen_range_i32(rng: &mut rand::rngs::ThreadRng, lo: i32, hi: i32) -> (r: i32)
    requires
        lo < hi,
    ensures
        lo <= r < hi,
{
    rand::Rng::gen_range(rng, lo..hi)
}

/// Relies on `rand::seq::SliceRandom::shuffle`: an in-place permutation
/// built from swaps, so the sprites are the same multiset as before.
#[verifier::external_body]
pub fn shuffle_sprites(rng: &mut rand::rngs::ThreadRng, v: &mut Vec<MovableSprite>)
    ensures
        final(v)@.len() == old(v)@.len(),
        final(v)@.to_multiset() == old(v)@.to_multiset(),
{
    rand::seq::SliceRandom::shuffle(v.as_mut_slice(), rng)
}

/// One of the two values, by a coin flip.
pub fn rng_choice_2<T>(rng: &mut rand::rngs::ThreadRng, v1: T, v2: T) -> (r: T)
    ensures
        r == v1 || r == v2,
{
    let random_bool_drawn: bool = random_bool(rng);
    if random_bool_drawn {
        v1
    } else {
        v2
    }
}

} // verus!
