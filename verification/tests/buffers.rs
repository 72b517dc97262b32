use daqlink::buffers::PointBuffer;
use daqlink::samples::{collect_sets, AdcBuffer, AdcPoints, ADC_COUNT};

fn set(base: i32) -> AdcPoints {
    AdcPoints { values: [base, base + 1, base + 2, base + 3, base + 4, base + 5] }
}

#[test]
fn points_come_out_in_push_order() {
    let mut q = PointBuffer::new(4);
    for x in [10, 20, 30, 40] {
        assert_eq!(q.push(x), Ok(()));
    }
    assert_eq!(q.len(), 4);
    for x in [10, 20, 30, 40] {
        assert_eq!(q.pop(), Some(x));
    }
    assert_eq!(q.pop(), None);
}

#[test]
fn new_queue_is_empty_and_open() {
    let q = PointBuffer::new(3);
    assert_eq!(q.capacity(), 3);
    assert_eq!(q.len(), 0);
    assert_eq!(q.free_len(), 3);
    assert!(q.is_empty());
    assert!(!q.is_full());
    assert!(!q.is_closed());
}

#[test]
fn push_to_full_queue_hands_point_back() {
    let mut q = PointBuffer::new(2);
    assert_eq!(q.push(1), Ok(()));
    assert_eq!(q.push(2), Ok(()));
    assert!(q.is_full());
    assert_eq!(q.push(3), Err(3));
    assert_eq!(q.len(), 2);
    assert_eq!(q.pop(), Some(1));
    assert_eq!(q.pop(), Some(2));
    assert_eq!(q.pop(), None);
}

#[test]
fn overflow_keeps_queue_and_counts_excess() {
    let mut q = PointBuffer::new(3);
    assert_eq!(q.push(7), Ok(()));
    let points: [i32; 5] = [1, 2, 3, 4, 5];
    let taken: usize = q.push_slice(&points);
    assert_eq!(taken, 2);
    assert_eq!(points.len() - taken, 3);
    assert_eq!(q.pop_batch(10), vec![7, 1, 2]);
    assert!(q.is_empty());
}

#[test]
fn push_slice_at_capacity_drops_nothing() {
    let mut q = PointBuffer::new(4);
    let taken: usize = q.push_slice(&[9, 8, 7, 6]);
    assert_eq!(taken, 4);
    assert_eq!(q.push_slice(&[5]), 0);
    assert_eq!(q.push_slice(&[]), 0);
    assert_eq!(q.pop_batch(4), vec![9, 8, 7, 6]);
}

#[test]
fn pop_batch_takes_what_is_there() {
    let mut q = PointBuffer::new(5);
    assert_eq!(q.push_slice(&[1, 2, 3]), 3);
    assert_eq!(q.pop_batch(2), vec![1, 2]);
    assert_eq!(q.len(), 1);
    assert_eq!(q.pop_batch(2), vec![3]);
    assert_eq!(q.pop_batch(2), Vec::<i32>::new());
    assert_eq!(q.pop_batch(0), Vec::<i32>::new());
}

#[test]
fn queue_keeps_order_when_it_wraps_around() {
    let mut q = PointBuffer::new(3);
    let mut next_in: i32 = 0;
    let mut next_out: i32 = 0;
    for _ in 0..10 {
        while q.push(next_in).is_ok() {
            next_in += 1;
        }
        assert_eq!(q.len(), 3);
        assert_eq!(q.pop(), Some(next_out));
        assert_eq!(q.pop(), Some(next_out + 1));
        next_out += 2;
    }
    assert_eq!(next_in, 21);
}

#[test]
fn wait_ends_with_enough_points_or_on_close() {
    let mut q = PointBuffer::new(4);
    assert!(q.wait(0));
    assert!(!q.wait(2));
    assert_eq!(q.push(1), Ok(()));
    assert!(!q.wait(2));
    assert_eq!(q.push(2), Ok(()));
    assert!(q.wait(2));
    assert!(!q.wait(3));
    q.close();
    assert!(q.wait(3));
}

#[test]
fn close_is_final_and_keeps_points() {
    let mut q = PointBuffer::new(2);
    assert_eq!(q.push(5), Ok(()));
    q.close();
    assert!(q.is_closed());
    assert_eq!(q.capacity(), 2);
    assert_eq!(q.len(), 1);
    q.close();
    assert!(q.is_closed());
    assert_eq!(q.pop(), Some(5));
}

#[test]
fn default_sample_set_is_zero() {
    assert_eq!(ADC_COUNT, 6);
    assert_eq!(AdcPoints::default(), AdcPoints { values: [0; 6] });
    assert_eq!(set(10).channel(0), 10);
    assert_eq!(set(10).channel(5), 15);
}

#[test]
fn sample_sets_come_out_whole_and_in_order() {
    let mut q = AdcBuffer::new(3);
    assert_eq!(q.capacity(), 3);
    assert!(q.is_empty());
    assert_eq!(q.push(set(0)), Ok(()));
    assert_eq!(q.push(set(100)), Ok(()));
    assert_eq!(q.len(), 2);
    assert_eq!(q.pop(), Some(set(0)));
    assert_eq!(q.pop(), Some(set(100)));
    assert_eq!(q.pop(), None);
    assert_eq!(q.len(), 0);
}

#[test]
fn full_sample_queue_refuses_whole_set() {
    let mut q = AdcBuffer::new(2);
    assert_eq!(q.push(set(1)), Ok(()));
    assert_eq!(q.push(set(2)), Ok(()));
    assert!(q.is_full());
    assert_eq!(q.push(set(3)), Err(set(3)));
    assert_eq!(q.len(), 2);
    assert_eq!(q.pop(), Some(set(1)));
    assert_eq!(q.push(set(4)), Ok(()));
    assert_eq!(q.pop(), Some(set(2)));
    assert_eq!(q.pop(), Some(set(4)));
    assert!(q.is_empty());
}

#[test]
fn sample_queue_close_keeps_sets() {
    let mut q = AdcBuffer::new(1);
    assert!(!q.is_closed());
    assert_eq!(q.push(set(7)), Ok(()));
    q.close();
    assert!(q.is_closed());
    assert_eq!(q.pop(), Some(set(7)));
}

#[test]
fn collect_sets_cuts_runs_of_six() {
    let points: Vec<i32> = (0..13).collect();
    let sets = collect_sets(&points);
    assert_eq!(sets, vec![set(0), set(6)]);
    assert_eq!(collect_sets(&[1, 2, 3, 4, 5]), Vec::<AdcPoints>::new());
    assert_eq!(collect_sets(&[]), Vec::<AdcPoints>::new());
}
