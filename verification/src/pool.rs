//! The bounded queue of the `crossbeam` crate, as far as the picker of random
//! papers uses it: what a queue holds is named, and each call says what it
//! does to that.

use crossbeam::queue::ArrayQueue;
use vstd::prelude::*;

verus! {

/// `crossbeam::queue::ArrayQueue`, a bounded queue. Nothing of its inside is
/// known here; what it holds is named below.
#[verifier::external_type_specification]
#[verifier::external_body]
#[verifier::reject_recursive_types(T)]
pub struct ExArrayQueue<T>(ArrayQueue<T>);

/// The ids that a queue holds, the one that was pushed first at index 0.
pub uninterp spec fn queued(q: ArrayQueue<String>) -> Seq<Seq<char>>;

/// The number of ids that a queue was made to hold.
pub uninterp spec fn queue_limit(q: ArrayQueue<String>) -> nat;

/// Calls `ArrayQueue::new`, which gives an empty queue with room for `cap`
/// items. It panics on a capacity of zero and on one whose next power of two
/// does not fit the queue's index; both are left out here.
#[verifier::external_body]
pub(crate) fn queue_new(cap: usize) -> (q: ArrayQueue<String>)
    requires
        0 < cap <= 0x4000_0000,
    ensures
        queued(q) == Seq::<Seq<char>>::empty(),
        queue_limit(q) == cap,
{
    ArrayQueue::new(cap)
}

/// Calls `ArrayQueue::push`, which puts the item behind those already queued,
/// or hands it back where the queue is full. The queue is borrowed
/// exclusively, so nothing else pushes or pops meanwhile.
#[verifier::external_body]
pub(crate) fn queue_push(q: &mut ArrayQueue<String>, id: String) -> (r: Result<(), String>)
    ensures
        queue_limit(*final(q)) == queue_limit(*old(q)),
        queued(*old(q)).len() < queue_limit(*old(q)) ==> r is Ok && queued(*final(q)) == queued(*old(q)).push(id@),
        queued(*old(q)).len() >= queue_limit(*old(q)) ==> r is Err && r->Err_0 == id && queued(*final(q)) == queued(*old(q)),
{
    q.push(id)
}

/// Calls `ArrayQueue::pop`, which takes out the item that was pushed first,
/// or gives `None` where the queue is empty. The queue is borrowed
/// exclusively, so nothing else pushes or pops meanwhile.
#[verifier::external_body]
pub(crate) fn queue_pop(q: &mut ArrayQueue<String>) -> (r: Option<String>)
    ensures
        queue_limit(*final(q)) == queue_limit(*old(q)),
        queued(*old(q)).len() == 0 ==> r is None && queued(*final(q)) == queued(*old(q)),
        queued(*old(q)).len() > 0 ==> r is Some && r->0@ == queued(*old(q))[0] && queued(*final(q)) == queued(*old(q)).drop_first(),
{
    q.pop()
}

/// Calls `ArrayQueue::is_empty`.
#[verifier::external_body]
pub(crate) fn queue_is_empty(q: &ArrayQueue<String>) -> (r: bool)
    ensures
        r == (queued(*q).len() == 0),
{
    q.is_empty()
}

} // verus!
