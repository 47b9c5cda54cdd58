//! Chance, from the `rand` crate: of what it returns only that is stated which
//! holds whatever the generator gave.

use rand::seq::IteratorRandom;
use rand::seq::SliceRandom;
use vstd::prelude::*;

verus! {

/// Calls `SliceRandom::shuffle` with the generator of the thread. The shuffle
/// only swaps items, so afterwards the list holds what it held, each id as
/// often as before; in which order is left open.
#[verifier::external_body]
pub(crate) fn shuffle(ids: &mut Vec<String>)
    ensures
        final(ids).deep_view().to_multiset() == old(ids).deep_view().to_multiset(),
{
    ids.shuffle(&mut rand::thread_rng());
}

/// Calls `IteratorRandom::choose` on the ids with the generator of the
/// thread. It gives `None` if and only if there is no id to choose from, and
/// else one of the ids; which one is left open.
#[verifier::external_body]
pub(crate) fn pick_one(ids: &Vec<String>) -> (r: Option<String>)
    ensures
        r is Some <==> ids@.len() > 0,
        r matches Some(id) ==> ids.deep_view().contains(id@),
{
    ids.iter().choose(&mut rand::thread_rng()).cloned()
}

} // verus!
