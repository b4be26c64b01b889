use crate::lane::{lane_accepts_all, lane_is_empty, lane_keys, lane_pop, lane_push, new_lane};
use concurrent_queue::ConcurrentQueue;
use vstd::prelude::*;

verus! {

/// The lane `k` places after `start` among `n` lanes, wrapping round to lane 0.
pub open spec fn ring_pos(start: int, k: int, n: int) -> int {
    if start + k < n {
        start + k
    } else {
        start + k - n
    }
}

/// Lane `k` places after `start` is empty, and the lanes between them all hold frames.
pub open spec fn first_empty_after<S>(lanes: Seq<Seq<Seq<S>>>, start: int, k: int) -> bool {
    &&& 0 <= k < lanes.len()
    &&& lanes[ring_pos(start, k, lanes.len() as int)].len() == 0
    &&& forall|j: int|
        0 <= j < k ==> #[trigger] lanes[ring_pos(start, j, lanes.len() as int)].len() > 0
}

/// Every lane is empty.
pub open spec fn all_empty<S>(lanes: Seq<Seq<Seq<S>>>) -> bool {
    forall|l: int| 0 <= l < lanes.len() ==> #[trigger] lanes[l].len() == 0
}

/// Some lane is empty.
pub open spec fn has_empty_lane<S>(lanes: Seq<Seq<Seq<S>>>) -> bool {
    exists|l: int| 0 <= l < lanes.len() && #[trigger] lanes[l].len() == 0
}

/// The lanes after one frame was taken from each lane that held one.
pub open spec fn after_tick<S>(lanes: Seq<Seq<Seq<S>>>) -> Seq<Seq<Seq<S>>> {
    Seq::new(
        lanes.len(),
        |l: int|
            if lanes[l].len() > 0 {
                lanes[l].drop_first()
            } else {
                lanes[l]
            },
    )
}

/// A lane after `frames` were put into it one by one, in order.
pub open spec fn pushed_all<F>(lane: Seq<F>, frames: Seq<F>) -> Seq<F>
    decreases frames.len(),
{
    if frames.len() == 0 {
        lane
    } else {
        pushed_all(lane, frames.drop_last()).push(frames.last())
    }
}

/// The frames that `n` pops of a lane hand out, in the order they come.
pub open spec fn popped_n<F>(lane: Seq<F>, n: nat) -> Seq<F>
    decreases n,
{
    if n == 0 || lane.len() == 0 {
        Seq::empty()
    } else {
        seq![lane[0]] + popped_n(lane.drop_first(), (n - 1) as nat)
    }
}

/// The lanes after `k` ticks, each of which takes one frame from every lane that has one.
pub open spec fn after_ticks<S>(lanes: Seq<Seq<Seq<S>>>, k: nat) -> Seq<Seq<Seq<S>>>
    decreases k,
{
    if k == 0 {
        lanes
    } else {
        after_ticks(after_tick(lanes), (k - 1) as nat)
    }
}

proof fn lemma_pushed_all_is_append<F>(lane: Seq<F>, frames: Seq<F>)
    ensures
        pushed_all(lane, frames) == lane + frames,
    decreases frames.len(),
{
    if frames.len() > 0 {
        lemma_pushed_all_is_append(lane, frames.drop_last());
        assert(lane + frames =~= (lane + frames.drop_last()).push(frames.last()));
    }
}

proof fn lemma_popped_all<F>(lane: Seq<F>)
    ensures
        popped_n(lane, lane.len()) == lane,
    decreases lane.len(),
{
    if lane.len() > 0 {
        lemma_popped_all(lane.drop_first());
        assert(seq![lane[0]] + lane.drop_first() =~= lane);
    }
}

/// Frames put into a lane come out in the order they were put, after the frames that
/// were already there: popping a lane once for each of its frames hands out exactly
/// the frames it held before, followed by the new ones.
pub proof fn lemma_fifo_order<F>(lane: Seq<F>, frames: Seq<F>)
    ensures
        popped_n(pushed_all(lane, frames), lane.len() + frames.len()) == lane + frames,
        popped_n(pushed_all(Seq::<F>::empty(), frames), frames.len()) == frames,
{
    lemma_pushed_all_is_append(lane, frames);
    lemma_popped_all(lane + frames);
    lemma_pushed_all_is_append(Seq::<F>::empty(), frames);
    assert(Seq::<F>::empty() + frames =~= frames);
    lemma_popped_all(frames);
}

proof fn lemma_ticks_shorten<S>(lanes: Seq<Seq<Seq<S>>>, k: nat)
    ensures
        after_ticks(lanes, k).len() == lanes.len(),
        forall|l: int|
            0 <= l < lanes.len() ==> #[trigger] after_ticks(lanes, k)[l].len() == if lanes[l].len()
                >= k {
                lanes[l].len() - k
            } else {
                0
            },
    decreases k,
{
    if k > 0 {
        let t = after_tick(lanes);
        lemma_ticks_shorten(t, (k - 1) as nat);
        assert forall|l: int| 0 <= l < lanes.len() implies #[trigger] after_ticks(lanes, k)[l].len()
            == if lanes[l].len() >= k {
            lanes[l].len() - k
        } else {
            0
        } by {
            assert(t[l].len() == if lanes[l].len() > 0 {
                lanes[l].len() - 1
            } else {
                0
            });
        }
    }
}

/// Putting a frame into any lane makes the queue not all empty, and once each lane
/// has been ticked as many times as it held frames, every lane is empty again.
pub proof fn lemma_emptiness<S>(lanes: Seq<Seq<Seq<S>>>, l: int, frame: Seq<S>, k: nat)
    requires
        0 <= l < lanes.len(),
    ensures
        !all_empty(lanes.update(l, lanes[l].push(frame))),
        (forall|m: int| 0 <= m < lanes.len() ==> #[trigger] lanes[m].len() <= k) ==> all_empty(
            after_ticks(lanes, k),
        ),
{
    assert(lanes.update(l, lanes[l].push(frame))[l].len() > 0);
    lemma_ticks_shorten(lanes, k);
}

/// A set of independent FIFO lanes of frames, all frames of one length.
///
/// Each lane is a `ConcurrentQueue` of slot keys; the frame of a key is held in the
/// slot table until it is popped, and the slot is then recycled.
#[derive(Debug)]
pub struct QList<S> {
    lanes: Vec<ConcurrentQueue<u64>>,
    slots: Vec<Option<Vec<S>>>,
    free: Vec<u64>,
    index: usize,
    frame_len: usize,
}

impl<S> View for QList<S> {
    /// Each lane as its frames, oldest first.
    type V = Seq<Seq<Seq<S>>>;

    closed spec fn view(&self) -> Seq<Seq<Seq<S>>> {
        Seq::new(self.lanes@.len(), |l: int| self.lane_view(l))
    }
}

impl<S> QList<S> {
    spec fn keys(&self, l: int) -> Seq<u64> {
        lane_keys(self.lanes@[l])
    }

    spec fn frame_of(&self, k: u64) -> Seq<S> {
        self.slots@[k as int]->Some_0@
    }

    spec fn lane_view(&self, l: int) -> Seq<Seq<S>> {
        self.keys(l).map_values(|k: u64| self.frame_of(k))
    }

    /// The lane at which the next scan for an empty lane starts.
    pub closed spec fn cursor(&self) -> nat {
        self.index as nat
    }

    /// The length of every frame of the queue.
    pub closed spec fn frame_length(&self) -> nat {
        self.frame_len as nat
    }

    /// The queue has at least one lane, the cursor names a lane, and the slot table
    /// holds exactly one frame of the right length for each key in a lane.
    pub closed spec fn wf(&self) -> bool {
        &&& self.lanes@.len() >= 1
        &&& self.index < self.lanes@.len()
        &&& forall|l: int| 0 <= l < self.lanes@.len() ==> lane_accepts_all(#[trigger] self.lanes@[l])
        &&& forall|l: int, p: int|
            0 <= l < self.lanes@.len() && 0 <= p < self.keys(l).len() ==> {
                let k = #[trigger] self.keys(l)[p];
                &&& k < self.slots@.len()
                &&& self.slots@[k as int] is Some
                &&& self.slots@[k as int]->Some_0@.len() == self.frame_len
            }
        &&& forall|l1: int, p1: int, l2: int, p2: int|
            0 <= l1 < self.lanes@.len() && 0 <= p1 < self.keys(l1).len() && 0 <= l2
                < self.lanes@.len() && 0 <= p2 < self.keys(l2).len() && (l1 != l2 || p1 != p2)
                ==> #[trigger] self.keys(l1)[p1] != #[trigger] self.keys(l2)[p2]
        &&& forall|i: int|
            0 <= i < self.free@.len() ==> {
                let k = #[trigger] self.free@[i];
                &&& k < self.slots@.len()
                &&& self.slots@[k as int] is None
            }
        &&& forall|i: int, j: int|
            0 <= i < self.free@.len() && 0 <= j < self.free@.len() && i != j ==> #[trigger] self.free@[i]
                != #[trigger] self.free@[j]
    }

    /// Two queues with the same lanes and slots have the same view; where they differ
    /// in their cursor alone, both are well formed or neither is.
    proof fn lemma_same_store(a: &Self, b: &Self)
        requires
            a.lanes == b.lanes,
            a.slots == b.slots,
        ensures
            a@ == b@,
            a.wf() && a.free == b.free && a.frame_len == b.frame_len && b.index < b.lanes@.len()
                ==> b.wf(),
    {
        assert forall|l: int| 0 <= l < a.lanes@.len() implies #[trigger] a.lane_view(l)
            == b.lane_view(l) by {
            assert(a.keys(l) == b.keys(l));
            assert(a.lane_view(l) =~= b.lane_view(l));
        }
        assert(a@ =~= b@);
        if a.wf() && a.free == b.free && a.frame_len == b.frame_len && b.index < b.lanes@.len() {
            let n = b.lanes@.len() as int;
            assert forall|l: int| 0 <= l < n implies lane_accepts_all(#[trigger] b.lanes@[l]) by {
                assert(a.lanes@[l] == b.lanes@[l]);
            }
            assert forall|l: int, p: int|
                0 <= l < n && 0 <= p < b.keys(l).len() implies {
                    let k = #[trigger] b.keys(l)[p];
                    &&& k < b.slots@.len()
                    &&& b.slots@[k as int] is Some
                    &&& b.slots@[k as int]->Some_0@.len() == b.frame_len
                } by {
                assert(a.keys(l) == b.keys(l));
                assert(a.keys(l)[p] == b.keys(l)[p]);
            }
            assert forall|l1: int, p1: int, l2: int, p2: int|
                0 <= l1 < n && 0 <= p1 < b.keys(l1).len() && 0 <= l2 < n && 0 <= p2 < b.keys(
                    l2,
                ).len() && (l1 != l2 || p1 != p2) implies #[trigger] b.keys(l1)[p1]
                != #[trigger] b.keys(l2)[p2] by {
                assert(a.keys(l1) == b.keys(l1));
                assert(a.keys(l2) == b.keys(l2));
                assert(a.keys(l1)[p1] != a.keys(l2)[p2]);
            }
        }
    }

    /// A queue with one empty lane, for frames of `frame_len` samples.
    pub fn new(frame_len: usize) -> (q: Self)
        ensures
            q.wf(),
            q@ == seq![Seq::<Seq<S>>::empty()],
            q.cursor() == 0,
            q.frame_length() == frame_len,
    {
        let mut lanes: Vec<ConcurrentQueue<u64>> = Vec::new();
        lanes.push(new_lane());
        let q = QList { lanes, slots: Vec::new(), free: Vec::new(), index: 0, frame_len };
        assert(q@ =~= seq![Seq::<Seq<S>>::empty()]) by {
            assert(q.lane_view(0) =~= Seq::<Seq<S>>::empty());
        }
        q
    }

    /// The number of lanes.
    pub fn lane_count(&self) -> (n: usize)
        requires
            self.wf(),
        ensures
            n == self@.len(),
    {
        self.lanes.len()
    }

    /// The length of every frame of the queue.
    pub fn frame_len(&self) -> (n: usize)
        ensures
            n == self.frame_length(),
    {
        self.frame_len
    }

    /// Appends one empty lane.
    pub fn initialize(&mut self)
        requires
            old(self).wf(),
        ensures
            final(self).wf(),
            final(self)@ == old(self)@.push(Seq::<Seq<S>>::empty()),
            final(self).cursor() == old(self).cursor(),
            final(self).frame_length() == old(self).frame_length(),
    {
        self.lanes.push(new_lane());
        proof {
            let n = old(self).lanes@.len() as int;
            assert forall|l: int| 0 <= l < n implies #[trigger] self.keys(l) == old(self).keys(l) by {
                assert(self.lanes@[l] == old(self).lanes@[l]);
            }
            assert(self.keys(n) == Seq::<u64>::empty());
            assert forall|l: int| 0 <= l <= n implies #[trigger] self.lane_view(l) == old(
                self,
            )@.push(Seq::<Seq<S>>::empty())[l] by {
                if l < n {
                    assert(self.lane_view(l) =~= old(self).lane_view(l));
                } else {
                    assert(self.lane_view(l) =~= Seq::<Seq<S>>::empty());
                }
            }
            assert(self@ =~= old(self)@.push(Seq::<Seq<S>>::empty()));
        }
    }

    /// Puts `frame` in a slot that no lane refers to and returns the slot's key.
    fn store_frame(&mut self, frame: Vec<S>) -> (k: u64)
        requires
            old(self).wf(),
            frame@.len() == old(self).frame_len,
        ensures
            final(self).lanes == old(self).lanes,
            final(self).index == old(self).index,
            final(self).frame_len == old(self).frame_len,
            k < final(self).slots@.len(),
            final(self).slots@[k as int] == Some(frame),
            k >= old(self).slots@.len() || old(self).slots@[k as int] is None,
            old(self).slots@.len() <= final(self).slots@.len(),
            forall|j: int|
                0 <= j < old(self).slots@.len() && j != k ==> #[trigger] final(self).slots@[j]
                    == old(self).slots@[j],
            forall|i: int|
                0 <= i < final(self).free@.len() ==> {
                    let f = #[trigger] final(self).free@[i];
                    &&& f < final(self).slots@.len()
                    &&& final(self).slots@[f as int] is None
                },
            forall|i: int, j: int|
                0 <= i < final(self).free@.len() && 0 <= j < final(self).free@.len() && i != j
                    ==> #[trigger] final(self).free@[i] != #[trigger] final(self).free@[j],
    {
        match self.free.pop() {
            Some(k) => {
                proof {
                    let last = old(self).free@.len() - 1;
                    assert(k == old(self).free@[last]);
                    assert(k < old(self).slots.len());
                }
                let mut slot: Option<Vec<S>> = Some(frame);
                self.slots.set_and_swap(k as usize, &mut slot);
                proof {
                    assert forall|i: int| 0 <= i < self.free@.len() implies self.free@[i] != k by {
                        assert(old(self).free@[i] == self.free@[i]);
                        assert(old(self).free@[old(self).free@.len() - 1] == k);
                    }
                    assert forall|i: int| 0 <= i < self.free@.len() implies {
                        let f = #[trigger] self.free@[i];
                        &&& f < self.slots@.len()
                        &&& self.slots@[f as int] is None
                    } by {
                        assert(old(self).free@[i] == self.free@[i]);
                    }
                    assert forall|i: int, j: int|
                        0 <= i < self.free@.len() && 0 <= j < self.free@.len() && i != j
                            implies #[trigger] self.free@[i] != #[trigger] self.free@[j] by {
                        assert(old(self).free@[i] == self.free@[i]);
                        assert(old(self).free@[j] == self.free@[j]);
                    }
                }
                k
            },
            None => {
                let k = self.slots.len() as u64;
                self.slots.push(Some(frame));
                k
            },
        }
    }

    /// Appends `frame` to lane `index`.
    pub fn put_frame(&mut self, index: usize, frame: Vec<S>)
        requires
            old(self).wf(),
            index < old(self)@.len(),
            frame@.len() == old(self).frame_length(),
        ensures
            final(self).wf(),
            final(self)@ == old(self)@.update(
                index as int,
                old(self)@[index as int].push(frame@),
            ),
            final(self).cursor() == old(self).cursor(),
            final(self).frame_length() == old(self).frame_length(),
    {
        let ghost fv = frame@;
        let k = self.store_frame(frame);
        let ghost mid = *self;
        lane_push(&mut self.lanes[index], k);
        proof {
            let n = old(self).lanes@.len() as int;
            let i = index as int;
            // no lane referred to the new key
            assert forall|l: int, p: int| 0 <= l < n && 0 <= p < old(self).keys(l).len() implies
                #[trigger] old(self).keys(l)[p] != k by {
                let kk = old(self).keys(l)[p];
                assert(kk < old(self).slots@.len() && old(self).slots@[kk as int] is Some);
            }
            assert forall|l: int| 0 <= l < n && l != i implies #[trigger] self.keys(l) == old(
                self,
            ).keys(l) by {
                assert(self.lanes@[l] == old(self).lanes@[l]);
            }
            assert(self.keys(i) == old(self).keys(i).push(k));
            assert forall|l: int, p: int| 0 <= l < n && 0 <= p < old(self).keys(l).len() implies
                #[trigger] self.frame_of(old(self).keys(l)[p]) == old(self).frame_of(
                old(self).keys(l)[p],
            ) by {
                let kk = old(self).keys(l)[p];
                assert(self.slots@[kk as int] == old(self).slots@[kk as int]);
            }
            assert forall|l: int| 0 <= l < n implies #[trigger] self.lane_view(l) == old(
                self,
            )@.update(i, old(self)@[i].push(fv))[l] by {
                if l == i {
                    assert(self.lane_view(l) =~= old(self).lane_view(l).push(fv));
                } else {
                    assert(self.lane_view(l) =~= old(self).lane_view(l));
                }
            }
            assert(self@ =~= old(self)@.update(i, old(self)@[i].push(fv)));
            assert forall|l: int| 0 <= l < n implies lane_accepts_all(#[trigger] self.lanes@[l]) by {
                if l != i {
                    assert(self.lanes@[l] == old(self).lanes@[l]);
                }
            }
            assert forall|l: int, p: int|
                0 <= l < n && 0 <= p < self.keys(l).len() implies {
                    let kk = #[trigger] self.keys(l)[p];
                    &&& kk < self.slots@.len()
                    &&& self.slots@[kk as int] is Some
                    &&& self.slots@[kk as int]->Some_0@.len() == self.frame_len
                } by {
                if l == i && p == self.keys(l).len() - 1 {
                } else {
                    assert(self.keys(l)[p] == old(self).keys(l)[p]);
                }
            }
            assert forall|l1: int, p1: int, l2: int, p2: int|
                0 <= l1 < n && 0 <= p1 < self.keys(l1).len() && 0 <= l2 < n && 0 <= p2
                    < self.keys(l2).len() && (l1 != l2 || p1 != p2) implies #[trigger] self.keys(
                l1,
            )[p1] != #[trigger] self.keys(l2)[p2] by {
                let last1 = l1 == i && p1 == self.keys(l1).len() - 1;
                let last2 = l2 == i && p2 == self.keys(l2).len() - 1;
                if !last1 {
                    assert(self.keys(l1)[p1] == old(self).keys(l1)[p1]);
                }
                if !last2 {
                    assert(self.keys(l2)[p2] == old(self).keys(l2)[p2]);
                }
            }
        }
    }

    /// Removes and returns the oldest frame of lane `index`.
    pub fn get_frame(&mut self, index: usize) -> (frame: Vec<S>)
        requires
            old(self).wf(),
            index < old(self)@.len(),
            old(self)@[index as int].len() > 0,
        ensures
            final(self).wf(),
            frame@ == old(self)@[index as int][0],
            final(self)@ == old(self)@.update(index as int, old(self)@[index as int].drop_first()),
            final(self).cursor() == old(self).cursor(),
            final(self).frame_length() == old(self).frame_length(),
    {
        proof {
            assert(old(self)@[index as int] == old(self).lane_view(index as int));
        }
        let k = lane_pop(&mut self.lanes[index]).unwrap();
        proof {
            let k0 = old(self).keys(index as int)[0];
            assert(k == k0);
            assert(k0 < old(self).slots@.len() && old(self).slots@[k0 as int] is Some);
            assert(k < old(self).slots.len());
        }
        let mut slot: Option<Vec<S>> = None;
        self.slots.set_and_swap(k as usize, &mut slot);
        self.free.push(k);
        proof {
            let n = old(self).lanes@.len() as int;
            let i = index as int;
            assert(k == old(self).keys(i)[0]);
            assert forall|l: int| 0 <= l < n && l != i implies #[trigger] self.keys(l) == old(
                self,
            ).keys(l) by {
                assert(self.lanes@[l] == old(self).lanes@[l]);
            }
            assert(self.keys(i) == old(self).keys(i).drop_first());
            // every key but the popped one is still in a lane, and its frame is untouched
            assert forall|l: int, p: int|
                0 <= l < n && 0 <= p < self.keys(l).len() implies #[trigger] self.keys(l)[p]
                != k && self.frame_of(self.keys(l)[p]) == old(self).frame_of(self.keys(l)[p]) by {
                if l == i {
                    assert(self.keys(l)[p] == old(self).keys(l)[p + 1]);
                } else {
                    assert(self.keys(l)[p] == old(self).keys(l)[p]);
                    assert(old(self).keys(l)[p] != old(self).keys(i)[0]);
                }
            }
            assert forall|l: int| 0 <= l < n implies #[trigger] self.lane_view(l) == old(
                self,
            )@.update(i, old(self)@[i].drop_first())[l] by {
                if l == i {
                    assert(self.lane_view(l) =~= old(self).lane_view(l).drop_first());
                } else {
                    assert(self.lane_view(l) =~= old(self).lane_view(l));
                }
            }
            assert(self@ =~= old(self)@.update(i, old(self)@[i].drop_first()));
            assert forall|l: int| 0 <= l < n implies lane_accepts_all(#[trigger] self.lanes@[l]) by {
                if l != i {
                    assert(self.lanes@[l] == old(self).lanes@[l]);
                }
            }
            assert forall|l: int, p: int|
                0 <= l < n && 0 <= p < self.keys(l).len() implies {
                    let kk = #[trigger] self.keys(l)[p];
                    &&& kk < self.slots@.len()
                    &&& self.slots@[kk as int] is Some
                    &&& self.slots@[kk as int]->Some_0@.len() == self.frame_len
                } by {
                if l == i {
                    assert(self.keys(l)[p] == old(self).keys(l)[p + 1]);
                } else {
                    assert(self.keys(l)[p] == old(self).keys(l)[p]);
                }
            }
            assert forall|l1: int, p1: int, l2: int, p2: int|
                0 <= l1 < n && 0 <= p1 < self.keys(l1).len() && 0 <= l2 < n && 0 <= p2
                    < self.keys(l2).len() && (l1 != l2 || p1 != p2) implies #[trigger] self.keys(
                l1,
            )[p1] != #[trigger] self.keys(l2)[p2] by {
                let q1 = if l1 == i { p1 + 1 } else { p1 };
                let q2 = if l2 == i { p2 + 1 } else { p2 };
                assert(self.keys(l1)[p1] == old(self).keys(l1)[q1]);
                assert(self.keys(l2)[p2] == old(self).keys(l2)[q2]);
            }
            assert forall|j: int| 0 <= j < old(self).free@.len() implies old(self).free@[j] != k by {
                let f = old(self).free@[j];
                assert(old(self).slots@[f as int] is None);
            }
            assert forall|j: int| 0 <= j < self.free@.len() implies {
                let f = #[trigger] self.free@[j];
                &&& f < self.slots@.len()
                &&& self.slots@[f as int] is None
            } by {
                if j < old(self).free@.len() {
                    assert(self.free@[j] == old(self).free@[j]);
                }
            }
            assert forall|a: int, b: int|
                0 <= a < self.free@.len() && 0 <= b < self.free@.len() && a != b
                    implies #[trigger] self.free@[a] != #[trigger] self.free@[b] by {
                if a < old(self).free@.len() {
                    assert(self.free@[a] == old(self).free@[a]);
                }
                if b < old(self).free@.len() {
                    assert(self.free@[b] == old(self).free@[b]);
                }
            }
        }
        slot.unwrap()
    }

    /// Finds a lane for a new batch of frames: the first empty lane at or after the
    /// cursor, wrapping round; where every lane holds frames, a new lane is appended.
    /// The lane found becomes the cursor.
    pub fn get_next_empty_queue(&mut self) -> (r: usize)
        requires
            old(self).wf(),
        ensures
            final(self).wf(),
            final(self).frame_length() == old(self).frame_length(),
            r < final(self)@.len(),
            final(self)@[r as int].len() == 0,
            final(self).cursor() == r,
            has_empty_lane(old(self)@) ==> final(self)@ == old(self)@ && exists|k: int|
                #[trigger] first_empty_after(old(self)@, old(self).cursor() as int, k) && r
                    == ring_pos(old(self).cursor() as int, k, old(self)@.len() as int),
            !has_empty_lane(old(self)@) ==> final(self)@ == old(self)@.push(Seq::<Seq<S>>::empty())
                && r == old(self)@.len(),
    {
        let n = self.lanes.len();
        let ghost c = self.index as int;
        let mut k: usize = 0;
        let mut idx: usize = self.index;
        while k < n
            invariant
                *self == *old(self),
                n == self@.len(),
                self.wf(),
                c == self.index,
                k <= n,
                idx == ring_pos(c, k as int, n as int),
                k < n ==> idx < n,
                forall|j: int| 0 <= j < k ==> #[trigger] self@[ring_pos(c, j, n as int)].len() > 0,
            decreases n - k,
        {
            if self.is_empty_at_index(idx) {
                proof {
                    assert(forall|j: int|
                        0 <= j < k ==> #[trigger] old(self)@[ring_pos(c, j, n as int)].len() > 0);
                    assert(0 <= k < n && idx == ring_pos(c, k as int, n as int));
                    assert(first_empty_after(old(self)@, c, k as int));
                }
                let ghost before = *self;
                self.index = idx;
                proof {
                    Self::lemma_same_store(&before, self);
                    assert(old(self)@[idx as int].len() == 0);
                    assert(has_empty_lane(old(self)@));
                    assert(self@ == old(self)@);
                    assert(old(self).cursor() as int == c);
                    assert(old(self)@.len() == n);
                    assert(idx == ring_pos(old(self).cursor() as int, k as int, old(self)@.len() as int));
                }
                return idx;
            }
            idx = if idx + 1 == n {
                0
            } else {
                idx + 1
            };
            k = k + 1;
        }
        proof {
            assert forall|l: int| 0 <= l < n implies #[trigger] old(self)@[l].len() > 0 by {
                let j = if l >= c {
                    l - c
                } else {
                    l + n - c
                };
                assert(ring_pos(c, j, n as int) == l);
            }
        }
        self.initialize();
        let ghost before = *self;
        assert(before.lanes@.len() == before@.len());
        self.index = n;
        proof {
            Self::lemma_same_store(&before, self);
            assert(!has_empty_lane(old(self)@));
        }
        n
    }

    /// Takes the oldest frame of every lane that holds one; entry `l` of the result is
    /// lane `l`'s frame, or `None` for an empty lane.
    pub fn pop_each_lane(&mut self) -> (taken: Vec<Option<Vec<S>>>)
        requires
            old(self).wf(),
        ensures
            final(self).wf(),
            final(self)@ == after_tick(old(self)@),
            final(self).cursor() == old(self).cursor(),
            final(self).frame_length() == old(self).frame_length(),
            taken@.len() == old(self)@.len(),
            forall|l: int|
                0 <= l < old(self)@.len() ==> (if old(self)@[l].len() > 0 {
                    #[trigger] taken@[l] is Some && taken@[l]->Some_0@ == old(self)@[l][0]
                } else {
                    taken@[l] is None
                }),
    {
        let n = self.lanes.len();
        let mut taken: Vec<Option<Vec<S>>> = Vec::new();
        let mut l: usize = 0;
        while l < n
            invariant
                self.wf(),
                n == self@.len(),
                n == old(self)@.len(),
                l <= n,
                self.cursor() == old(self).cursor(),
                self.frame_length() == old(self).frame_length(),
                taken@.len() == l,
                forall|m: int| 0 <= m < l ==> #[trigger] self@[m] == after_tick(old(self)@)[m],
                forall|m: int| l <= m < n ==> #[trigger] self@[m] == old(self)@[m],
                forall|m: int|
                    0 <= m < l ==> (if old(self)@[m].len() > 0 {
                        #[trigger] taken@[m] is Some && taken@[m]->Some_0@ == old(self)@[m][0]
                    } else {
                        taken@[m] is None
                    }),
            decreases n - l,
        {
            if self.is_empty_at_index(l) {
                taken.push(None);
            } else {
                let frame = self.get_frame(l);
                taken.push(Some(frame));
            }
            l = l + 1;
        }
        assert(self@ =~= after_tick(old(self)@));
        taken
    }

    /// Whether lane `index` holds no frame.
    pub fn is_empty_at_index(&self, index: usize) -> (r: bool)
        requires
            self.wf(),
            index < self@.len(),
        ensures
            r == (self@[index as int].len() == 0),
    {
        lane_is_empty(&self.lanes[index])
    }

    /// Whether every lane is empty.
    pub fn is_all_empty(&self) -> (r: bool)
        requires
            self.wf(),
        ensures
            r == all_empty(self@),
    {
        let n = self.lanes.len();
        let mut l: usize = 0;
        while l < n
            invariant
                self.wf(),
                n == self@.len(),
                l <= n,
                forall|m: int| 0 <= m < l ==> #[trigger] self@[m].len() == 0,
            decreases n - l,
        {
            if !self.is_empty_at_index(l) {
                assert(!all_empty(self@)) by {
                    assert(self@[l as int].len() != 0);
                }
                return false;
            }
            l = l + 1;
        }
        true
    }
}

} // verus!
