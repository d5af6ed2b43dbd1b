use kopek::queue::{drain, fill, push_sample, SampleQueue};

#[test]
fn push_pop_fifo_with_drops() {
    let mut q = SampleQueue::new(3);
    assert_eq!(q.capacity(), 3);
    assert!(q.try_push(1));
    assert!(q.try_push(2));
    assert!(q.try_push(3));
    assert!(!q.try_push(4));
    assert_eq!(q.len(), 3);
    assert_eq!(q.try_pop(), Some(1));
    assert!(q.try_push(5));
    assert_eq!(drain(&mut q), vec![2, 3, 5]);
    assert_eq!(q.try_pop(), None);
    assert_eq!(q.len(), 0);
}

#[test]
fn fill_substitutes_silence_on_underflow() {
    let mut q = SampleQueue::new(8);
    assert!(q.try_push(7));
    assert!(q.try_push(8));
    let mut block = vec![9, 9, 9, 9];
    fill(&mut q, &mut block);
    assert_eq!(block, vec![7, 8, 0, 0]);
    assert_eq!(q.len(), 0);
}

#[test]
fn fill_leaves_the_rest_queued() {
    let mut q = SampleQueue::new(8);
    for v in 1..=5 {
        assert!(q.try_push(v));
    }
    let mut block = vec![0; 3];
    fill(&mut q, &mut block);
    assert_eq!(block, vec![1, 2, 3]);
    assert_eq!(drain(&mut q), vec![4, 5]);
}

#[test]
fn tap_drops_without_affecting_output() {
    let mut output = SampleQueue::new(4);
    let mut tap = SampleQueue::new(1);
    assert_eq!(push_sample(&mut output, &mut tap, 10), (true, true));
    assert_eq!(push_sample(&mut output, &mut tap, 20), (true, false));
    assert_eq!(push_sample(&mut output, &mut tap, 30), (true, false));
    assert_eq!(drain(&mut output), vec![10, 20, 30]);
    assert_eq!(drain(&mut tap), vec![10]);
}

#[test]
fn zero_capacity_queue_drops_everything() {
    let mut q = SampleQueue::new(0);
    assert!(!q.try_push(1));
    assert_eq!(q.try_pop(), None);
}
