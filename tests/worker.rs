use qubx::common::{DspProcessArg, StreamParameters};
use qubx::frames::get_chunks;
use qubx::qlist::QList;
use qubx::worker::{compute_frames, enqueue_batch, transform_frames};

type Gen = fn() -> Vec<f32>;
type Tr = fn(&Vec<f32>) -> Vec<f32>;

fn double(f: &Vec<f32>) -> Vec<f32> {
    f.iter().map(|s| s * 2.0).collect()
}

fn ramp() -> Vec<f32> {
    vec![1.0, 2.0, 3.0]
}

#[test]
fn source_batch_is_chunked_and_claims_lane_zero() {
    let params = StreamParameters { chunk: 4, outchannels: 1, ..StreamParameters::default() };
    let frame_len = params.output_block_len() as usize;
    let frames = compute_frames(
        DspProcessArg::<f32, Gen, Tr>::Source(vec![1.0, 2.0, 3.0, 4.0, 5.0]),
        frame_len,
        0.0,
    );
    assert_eq!(frames, vec![vec![1.0, 2.0, 3.0, 4.0], vec![5.0, 0.0, 0.0, 0.0]]);
    let mut q: QList<f32> = QList::new(frame_len);
    assert_eq!(enqueue_batch(&mut q, frames), Some(0));
    assert_eq!(q.get_frame(0), vec![1.0, 2.0, 3.0, 4.0]);
    assert_eq!(q.get_frame(0), vec![5.0, 0.0, 0.0, 0.0]);
}

#[test]
fn back_to_back_batches_get_distinct_lanes() {
    let mut q: QList<f32> = QList::new(2);
    assert_eq!(q.lane_count(), 1);
    let a = get_chunks(&vec![1.0, 2.0, 3.0], 2, 0.0);
    let b = get_chunks(&vec![7.0, 8.0], 2, 0.0);
    let la = enqueue_batch(&mut q, a).unwrap();
    let lb = enqueue_batch(&mut q, b).unwrap();
    assert_eq!(la, 0);
    assert_eq!(lb, 1);
    assert_eq!(q.lane_count(), 2);
    assert_eq!(q.get_frame(0), vec![1.0, 2.0]);
    assert_eq!(q.get_frame(0), vec![3.0, 0.0]);
    assert_eq!(q.get_frame(1), vec![7.0, 8.0]);
}

#[test]
fn chunking_pads_only_the_last_frame() {
    let data: Vec<i32> = (1..=10).collect();
    let frames = get_chunks(&data, 4, 0);
    assert_eq!(frames.len(), 3);
    assert_eq!(frames[2], vec![9, 10, 0, 0]);
    let joined: Vec<i32> = frames.concat().into_iter().take(data.len()).collect();
    assert_eq!(joined, data);
}

#[test]
fn chunking_an_exact_multiple_adds_no_padding() {
    let frames = get_chunks(&vec![1, 2, 3, 4, 5, 6], 3, 0);
    assert_eq!(frames, vec![vec![1, 2, 3], vec![4, 5, 6]]);
}

#[test]
fn chunking_nothing_gives_no_frames() {
    let frames = get_chunks(&Vec::<f32>::new(), 4, 0.0);
    assert!(frames.is_empty());
}

#[test]
fn chunking_by_one_keeps_every_sample() {
    let frames = get_chunks(&vec![7u8, 8, 9], 1, 0);
    assert_eq!(frames, vec![vec![7], vec![8], vec![9]]);
}

#[test]
fn patch_space_calls_the_generator() {
    let frames = compute_frames(DspProcessArg::<f32, Gen, Tr>::PatchSpace(ramp), 2, 0.0);
    assert_eq!(frames, vec![vec![1.0, 2.0], vec![3.0, 0.0]]);
}

#[test]
fn hybrid_space_transforms_each_frame_in_order() {
    let frames = compute_frames(
        DspProcessArg::<f32, Gen, Tr>::HybridSpace(vec![1.0, 2.0, 3.0], double),
        2,
        0.0,
    );
    assert_eq!(frames, vec![vec![2.0, 4.0], vec![6.0, 0.0]]);
}

#[test]
fn transform_frames_keeps_order() {
    let out = transform_frames(&vec![vec![1.0f32], vec![2.0], vec![3.0]], &double);
    assert_eq!(out, vec![vec![2.0], vec![4.0], vec![6.0]]);
}

#[test]
fn batch_with_a_wrong_frame_length_is_refused() {
    let mut q: QList<f32> = QList::new(2);
    let r = enqueue_batch(&mut q, vec![vec![1.0, 2.0], vec![3.0]]);
    assert_eq!(r, None);
    assert!(q.is_all_empty());
    assert_eq!(q.lane_count(), 1);
}

#[test]
fn empty_batch_still_claims_a_lane() {
    let mut q: QList<f32> = QList::new(2);
    q.put_frame(0, vec![1.0, 1.0]);
    assert_eq!(enqueue_batch(&mut q, Vec::new()), Some(1));
    assert_eq!(q.lane_count(), 2);
}
