//! Random choice, by `rand`.

use rand::seq::SliceRandom;
use vstd::prelude::*;

verus! {

/// `SliceRandom::choose` on the list, with the generator of
/// `rand::thread_rng`. Trusted: an empty list gives `None`, and any other
/// list gives one of its items. Which item is left open: it differs from call
/// to call. The generator is seeded by the system on its first use in a
/// thread.
#[verifier::external_body]
pub(crate) fn choose_one(items: &Vec<usize>) -> (chosen: Option<usize>)
    ensures
        items@.len() == 0 ==> chosen is None,
        items@.len() > 0 ==> chosen is Some && items@.contains(chosen.unwrap()),
{
    items.choose(&mut rand::thread_rng()).copied()
}

} // verus!
