use qubx::mix::add_frame_into;
use qubx::qlist::QList;

fn frame(a: f32, b: f32) -> Vec<f32> {
    vec![a, b]
}

#[test]
fn frames_come_out_in_push_order() {
    let mut q: QList<f32> = QList::new(2);
    q.put_frame(0, frame(1.0, 2.0));
    q.put_frame(0, frame(3.0, 4.0));
    q.put_frame(0, frame(5.0, 6.0));
    assert_eq!(q.get_frame(0), frame(1.0, 2.0));
    assert_eq!(q.get_frame(0), frame(3.0, 4.0));
    assert_eq!(q.get_frame(0), frame(5.0, 6.0));
    assert!(q.is_empty_at_index(0));
}

#[test]
fn lanes_are_independent() {
    let mut q: QList<i32> = QList::new(1);
    q.initialize();
    q.put_frame(0, vec![1]);
    q.put_frame(1, vec![10]);
    q.put_frame(0, vec![2]);
    assert_eq!(q.get_frame(1), vec![10]);
    assert_eq!(q.get_frame(0), vec![1]);
    assert_eq!(q.get_frame(0), vec![2]);
}

#[test]
fn all_empty_tracks_puts_and_drains() {
    let mut q: QList<f32> = QList::new(2);
    q.initialize();
    assert!(q.is_all_empty());
    q.put_frame(1, frame(0.5, 0.5));
    assert!(!q.is_all_empty());
    assert!(q.is_empty_at_index(0));
    assert!(!q.is_empty_at_index(1));
    let _ = q.get_frame(1);
    assert!(q.is_all_empty());
}

#[test]
fn new_queue_has_one_empty_lane() {
    let q: QList<f32> = QList::new(8);
    assert_eq!(q.lane_count(), 1);
    assert_eq!(q.frame_len(), 8);
    assert!(q.is_all_empty());
}

#[test]
fn initialize_appends_a_lane() {
    let mut q: QList<f32> = QList::new(2);
    q.initialize();
    q.initialize();
    assert_eq!(q.lane_count(), 3);
}

#[test]
fn claim_returns_the_empty_cursor_lane() {
    let mut q: QList<f32> = QList::new(2);
    assert_eq!(q.get_next_empty_queue(), 0);
    assert_eq!(q.lane_count(), 1);
}

#[test]
fn claim_appends_a_lane_when_all_are_busy() {
    let mut q: QList<f32> = QList::new(2);
    q.put_frame(0, frame(1.0, 1.0));
    let lane = q.get_next_empty_queue();
    assert_eq!(lane, 1);
    assert_eq!(q.lane_count(), 2);
    assert!(q.is_empty_at_index(lane));
}

#[test]
fn claim_scans_forward_and_wraps_round() {
    let mut q: QList<f32> = QList::new(2);
    q.initialize();
    q.initialize();
    // cursor to lane 1 by filling lane 0
    q.put_frame(0, frame(1.0, 1.0));
    assert_eq!(q.get_next_empty_queue(), 1);
    q.put_frame(1, frame(2.0, 2.0));
    // lane 2 is the first empty lane after the cursor
    assert_eq!(q.get_next_empty_queue(), 2);
    q.put_frame(2, frame(3.0, 3.0));
    let _ = q.get_frame(0);
    // lanes 2 and 1 are busy: the scan wraps round to lane 0
    assert_eq!(q.get_next_empty_queue(), 0);
    assert_eq!(q.lane_count(), 3);
}

#[test]
fn claim_reuses_a_drained_lane() {
    let mut q: QList<f32> = QList::new(2);
    q.put_frame(0, frame(1.0, 1.0));
    assert_eq!(q.get_next_empty_queue(), 1);
    let _ = q.get_frame(0);
    q.put_frame(1, frame(2.0, 2.0));
    assert_eq!(q.get_next_empty_queue(), 0);
    assert_eq!(q.lane_count(), 2);
}

#[test]
fn pop_each_lane_takes_one_frame_per_busy_lane() {
    let mut q: QList<f32> = QList::new(2);
    q.initialize();
    q.initialize();
    q.put_frame(0, frame(1.0, 2.0));
    q.put_frame(0, frame(3.0, 4.0));
    q.put_frame(2, frame(5.0, 6.0));
    let taken = q.pop_each_lane();
    assert_eq!(taken, vec![Some(frame(1.0, 2.0)), None, Some(frame(5.0, 6.0))]);
    let taken = q.pop_each_lane();
    assert_eq!(taken, vec![Some(frame(3.0, 4.0)), None, None]);
    assert!(q.is_all_empty());
}

#[test]
fn mixing_tick_drains_lanes_for_the_patch() {
    let mut q: QList<f32> = QList::new(2);
    q.initialize();
    q.put_frame(0, vec![0.1, 0.2]);
    q.put_frame(1, vec![0.05, -0.1]);
    let taken = q.pop_each_lane();
    assert_eq!(taken, vec![Some(vec![0.1, 0.2]), Some(vec![0.05, -0.1])]);
    let mut block = vec![0.0f32; 2];
    for f in taken.iter().flatten() {
        add_frame_into(&mut block, f, &|a: f32, b: f32| a + b);
    }
    for s in block.iter_mut() {
        *s *= 0.5;
    }
    assert!((block[0] - 0.075).abs() < 1e-6);
    assert!((block[1] - 0.05).abs() < 1e-6);
    assert!(q.is_all_empty());
}

#[test]
fn slots_are_recycled_after_pops() {
    let mut q: QList<u32> = QList::new(1);
    for round in 0..4u32 {
        q.put_frame(0, vec![round]);
        q.put_frame(0, vec![round + 100]);
        assert_eq!(q.get_frame(0), vec![round]);
        assert_eq!(q.get_frame(0), vec![round + 100]);
    }
    assert!(q.is_all_empty());
}

#[test]
fn adding_a_frame_sums_sample_wise() {
    let mut block = vec![1, 2, 3];
    add_frame_into(&mut block, &vec![10, 20, 30], &|a: i32, b: i32| a + b);
    assert_eq!(block, vec![11, 22, 33]);
}

#[test]
fn adding_a_short_frame_leaves_the_tail() {
    let mut block = vec![1, 2, 3];
    add_frame_into(&mut block, &vec![5], &|a: i32, b: i32| a * b);
    assert_eq!(block, vec![5, 2, 3]);
}
