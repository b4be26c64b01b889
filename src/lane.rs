use concurrent_queue::ConcurrentQueue;
use vstd::prelude::*;

verus! {

#[verifier::external_type_specification]
#[verifier::external_body]
#[verifier::reject_recursive_types(T)]
pub struct ExConcurrentQueue<T>(ConcurrentQueue<T>);

/// The keys held by a lane, oldest first.
pub uninterp spec fn lane_keys(q: ConcurrentQueue<u64>) -> Seq<u64>;

/// The lane has no capacity bound and has not been closed, so a push always succeeds.
pub uninterp spec fn lane_accepts_all(q: ConcurrentQueue<u64>) -> bool;

/// Relies on `ConcurrentQueue::unbounded`: a new queue is empty, unbounded and open.
#[verifier::external_body]
pub(crate) fn new_lane() -> (q: ConcurrentQueue<u64>)
    ensures
        lane_keys(q) == Seq::<u64>::empty(),
        lane_accepts_all(q),
{
    ConcurrentQueue::unbounded()
}

/// Relies on `ConcurrentQueue::push`: on an unbounded queue that is not closed the
/// item is appended at the back and the call returns `Ok`.
#[verifier::external_body]
pub(crate) fn lane_push(q: &mut ConcurrentQueue<u64>, key: u64)
    requires
        lane_accepts_all(*old(q)),
    ensures
        lane_keys(*final(q)) == lane_keys(*old(q)).push(key),
        lane_accepts_all(*final(q)),
{
    let _ = q.push(key);
}

/// Relies on `ConcurrentQueue::pop`: the oldest item is removed and returned, and an
/// empty queue gives an error and stays as it is.
#[verifier::external_body]
pub(crate) fn lane_pop(q: &mut ConcurrentQueue<u64>) -> (r: Option<u64>)
    ensures
        lane_keys(*old(q)).len() == 0 ==> r is None && lane_keys(*final(q)) == lane_keys(
            *old(q),
        ),
        lane_keys(*old(q)).len() > 0 ==> r == Some(lane_keys(*old(q))[0]) && lane_keys(*final(q))
            == lane_keys(*old(q)).drop_first(),
        lane_accepts_all(*final(q)) == lane_accepts_all(*old(q)),
{
    q.pop().ok()
}

/// Relies on `ConcurrentQueue::is_empty`: whether the queue holds no item.
#[verifier::external_body]
pub(crate) fn lane_is_empty(q: &ConcurrentQueue<u64>) -> (r: bool)
    ensures
        r == (lane_keys(*q).len() == 0),
{
    q.is_empty()
}

} // verus!
