//! The bot's one source of chance: picking one reply among several.

use rand::seq::SliceRandom;
use vstd::prelude::*;

verus! {

/// `rand::seq::SliceRandom::choose` with the thread-local generator
/// (`rand::thread_rng`): `None` when `items` is empty, otherwise a copy of one
/// of its items, picked at random. Which item comes back is left unsaid: it
/// rests on the generator.
#[verifier::external_body]
pub(crate) fn choose_one(items: &[String]) -> (r: Option<String>)
    ensures
        items@.len() == 0 <==> r is None,
        r matches Some(s) ==> exists|i: int| 0 <= i < items@.len() && (#[trigger] items@[i])@ == s@,
{
    items.choose(&mut rand::thread_rng()).cloned()
}

} // verus!
