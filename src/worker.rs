use crate::common::DspProcessArg;
use crate::frames::{chunked, frames_view, get_chunks};
use crate::qlist::{first_empty_after, has_empty_lane, ring_pos, QList};
use std::collections::VecDeque;
use vstd::prelude::*;

verus! {

/// Every frame of `frames` has length `n`.
pub open spec fn all_of_len<S>(frames: Seq<Seq<S>>, n: nat) -> bool {
    forall|i: int| 0 <= i < frames.len() ==> #[trigger] frames[i].len() == n
}

/// `after` is `before` once a batch of `frames` went into lane `lane`, which the claim
/// of an empty lane chose: the first empty lane from the cursor on, or a new lane where
/// none was empty.
pub open spec fn batch_placed<S>(
    before: Seq<Seq<Seq<S>>>,
    cursor: int,
    after: Seq<Seq<Seq<S>>>,
    lane: int,
    frames: Seq<Seq<S>>,
) -> bool {
    &&& has_empty_lane(before) ==> {
        &&& after == before.update(lane, frames)
        &&& exists|k: int|
            #[trigger] first_empty_after(before, cursor, k) && lane == ring_pos(
                cursor,
                k,
                before.len() as int,
            )
    }
    &&& !has_empty_lane(before) ==> after == before.push(frames) && lane == before.len()
}

/// Applies `transform` to each frame, in order.
pub fn transform_frames<S, F: Fn(&Vec<S>) -> Vec<S>>(
    frames: &Vec<Vec<S>>,
    transform: &F,
) -> (out: Vec<Vec<S>>)
    requires
        forall|i: int| 0 <= i < frames@.len() ==> transform.requires((&#[trigger] frames@[i],)),
    ensures
        out@.len() == frames@.len(),
        forall|i: int|
            0 <= i < frames@.len() ==> transform.ensures((&#[trigger] frames@[i],), out@[i]),
{
    let mut out: Vec<Vec<S>> = Vec::new();
    let mut i: usize = 0;
    while i < frames.len()
        invariant
            i <= frames@.len(),
            out@.len() == i,
            forall|j: int| 0 <= j < frames@.len() ==> transform.requires((&#[trigger] frames@[j],)),
            forall|j: int| 0 <= j < i ==> transform.ensures((&#[trigger] frames@[j],), out@[j]),
        decreases frames@.len() - i,
    {
        let f = transform(&frames[i]);
        out.push(f);
        i = i + 1;
    }
    out
}

/// The frames of one batch: the samples of `args`, or those its generator returns,
/// cut into frames of `frame_len` with `zero` padding the last one; in the hybrid mode
/// each frame then goes through the transform, in order.
pub fn compute_frames<S: Copy, F1: Fn() -> Vec<S>, F2: Fn(&Vec<S>) -> Vec<S>>(
    args: DspProcessArg<S, F1, F2>,
    frame_len: usize,
    zero: S,
) -> (frames: Vec<Vec<S>>)
    requires
        frame_len > 0,
        args matches DspProcessArg::PatchSpace(g) ==> g.requires(()),
        args matches DspProcessArg::HybridSpace(_, t) ==> forall|v: &Vec<S>| t.requires((v,)),
    ensures
        args matches DspProcessArg::Source(data) ==> frames_view(frames@) == chunked(
            data@,
            frame_len as nat,
            zero,
        ),
        args matches DspProcessArg::PatchSpace(g) ==> exists|data: Vec<S>|
            g.ensures((), data) && frames_view(frames@) == #[trigger] chunked(
                data@,
                frame_len as nat,
                zero,
            ),
        args matches DspProcessArg::HybridSpace(data, t) ==> exists|input: Seq<Vec<S>>|
            {
                &&& frames_view(input) == chunked(data@, frame_len as nat, zero)
                &&& #[trigger] input.len() == frames@.len()
                &&& forall|i: int|
                    0 <= i < input.len() ==> t.ensures((&#[trigger] input[i],), frames@[i])
            },
{
    match args {
        DspProcessArg::Source(data) => get_chunks(&data, frame_len, zero),
        DspProcessArg::PatchSpace(generator) => {
            let data = generator();
            let frames = get_chunks(&data, frame_len, zero);
            proof {
                assert(generator.ensures((), data));
            }
            frames
        },
        DspProcessArg::HybridSpace(data, transform) => {
            let input = get_chunks(&data, frame_len, zero);
            let frames = transform_frames(&input, &transform);
            proof {
                assert(input@.len() == frames@.len());
            }
            frames
        },
    }
}

/// Puts a batch of frames into a lane of its own: claims an empty lane (or a new one)
/// and appends every frame to it, in order. Where some frame does not have the
/// queue's frame length, nothing is changed and the result is `None`.
pub fn enqueue_batch<S>(queue: &mut QList<S>, frames: Vec<Vec<S>>) -> (lane: Option<usize>)
    requires
        old(queue).wf(),
    ensures
        final(queue).wf(),
        final(queue).frame_length() == old(queue).frame_length(),
        all_of_len(frames_view(frames@), old(queue).frame_length()) ==> {
            &&& lane is Some
            &&& final(queue).cursor() == lane->Some_0
            &&& batch_placed(
                old(queue)@,
                old(queue).cursor() as int,
                final(queue)@,
                lane->Some_0 as int,
                frames_view(frames@),
            )
        },
        !all_of_len(frames_view(frames@), old(queue).frame_length()) ==> lane is None
            && *final(queue) == *old(queue),
{
    let n = frames.len();
    let frame_len = queue.frame_len();
    let mut i: usize = 0;
    while i < n
        invariant
            n == frames@.len(),
            frame_len == queue.frame_length(),
            *queue == *old(queue),
            queue.wf(),
            i <= n,
            forall|j: int| 0 <= j < i ==> #[trigger] frames@[j]@.len() == frame_len,
        decreases n - i,
    {
        if frames[i].len() != frame_len {
            proof {
                assert(frames_view(frames@)[i as int].len() != frame_len);
            }
            return None;
        }
        i = i + 1;
    }
    let lane = queue.get_next_empty_queue();
    let ghost claimed = queue@;
    let ghost fv = frames_view(frames@);
    let ghost all = frames@;
    // move the frames into a deque, back to front, so that they can be taken in order
    let mut rest = frames;
    let mut batch: VecDeque<Vec<S>> = VecDeque::new();
    while rest.len() > 0
        invariant
            rest@ + batch@ == all,
        decreases rest@.len(),
    {
        let ghost r0 = rest@;
        let f = rest.pop().unwrap();
        batch.push_front(f);
        proof {
            assert(rest@ + batch@ =~= r0 + batch@.drop_first());
        }
    }
    proof {
        assert(batch@ =~= all);
        assert(claimed[lane as int] =~= Seq::<Seq<S>>::empty());
        assert(fv.subrange(0, 0) =~= Seq::<Seq<S>>::empty());
        assert(claimed.update(lane as int, Seq::<Seq<S>>::empty()) =~= claimed);
    }
    let mut k: usize = 0;
    while batch.len() > 0
        invariant
            batch@ == all.subrange(k as int, n as int),
            k <= n,
            n == all.len(),
            fv == frames_view(all),
            fv.len() == n,
            claimed[lane as int] == Seq::<Seq<S>>::empty(),
            lane < claimed.len(),
            forall|j: int| 0 <= j < n ==> #[trigger] all[j]@.len() == frame_len,
            frame_len == queue.frame_length(),
            queue.wf(),
            lane < queue@.len(),
            queue.cursor() == lane,
            queue@ == claimed.update(lane as int, fv.subrange(0, k as int)),
        decreases batch@.len(),
    {
        let f = batch.pop_front().unwrap();
        proof {
            assert(f == all[k as int]);
        }
        queue.put_frame(lane, f);
        k = k + 1;
        proof {
            assert(batch@ =~= all.subrange(k as int, n as int));
            assert(fv.subrange(0, k as int) =~= fv.subrange(0, k - 1).push(all[k - 1]@));
            assert(queue@ =~= claimed.update(lane as int, fv.subrange(0, k as int)));
        }
    }
    proof {
        assert(k == n);
        assert(fv.subrange(0, n as int) =~= fv);
        if !has_empty_lane(old(queue)@) {
            assert(claimed.update(lane as int, fv) =~= old(queue)@.push(fv));
        }
    }
    Some(lane)
}

} // verus!
