use utterance_capture::ring::RingBuffer;

#[test]
fn new_ring_is_empty() {
    let ring = RingBuffer::new(4);
    assert_eq!(ring.len(), 0);
    assert_eq!(ring.max_len(), 4);
    assert!(ring.snapshot().is_empty());
}

#[test]
fn one_second_of_frames() {
    assert_eq!(RingBuffer::one_second(16000, 512).max_len(), 31);
    assert_eq!(RingBuffer::one_second(16000, 16000).max_len(), 1);
    assert_eq!(RingBuffer::one_second(16000, 16001).max_len(), 0);
}

#[test]
fn ring_below_capacity_keeps_everything() {
    let mut ring = RingBuffer::new(3);
    ring.push(vec![1, 2]);
    ring.push(vec![3, 4]);
    assert_eq!(ring.snapshot(), vec![vec![1, 2], vec![3, 4]]);
}

#[test]
fn ring_keeps_the_most_recent_frames_in_order() {
    let mut ring = RingBuffer::new(3);
    let mut fed: i16 = 0;
    while fed < 10 {
        ring.push(vec![fed, -fed]);
        fed += 1;
    }
    assert_eq!(ring.snapshot(), vec![vec![7, -7], vec![8, -8], vec![9, -9]]);
}

#[test]
fn ring_never_exceeds_capacity() {
    let mut ring = RingBuffer::new(5);
    let mut fed: usize = 0;
    while fed < 40 {
        ring.push(vec![fed as i16]);
        fed += 1;
        assert_eq!(ring.len(), if fed < 5 { fed } else { 5 });
        assert_eq!(ring.snapshot().len(), ring.len());
    }
}

#[test]
fn full_ring_evicts_exactly_the_oldest() {
    let mut ring = RingBuffer::new(2);
    ring.push(vec![1]);
    ring.push(vec![2]);
    ring.push(vec![3]);
    assert_eq!(ring.snapshot(), vec![vec![2], vec![3]]);
    ring.push(vec![4]);
    assert_eq!(ring.snapshot(), vec![vec![3], vec![4]]);
}

#[test]
fn snapshot_twice_gives_the_same() {
    let mut ring = RingBuffer::new(3);
    ring.push(vec![1, 1]);
    ring.push(vec![2, 2]);
    let first = ring.snapshot();
    let second = ring.snapshot();
    assert_eq!(first, second);
    assert_eq!(ring.len(), 2);
}

#[test]
fn snapshot_is_a_copy() {
    let mut ring = RingBuffer::new(2);
    ring.push(vec![1]);
    ring.push(vec![2]);
    let taken = ring.snapshot();
    ring.push(vec![3]);
    assert_eq!(taken, vec![vec![1], vec![2]]);
    assert_eq!(ring.snapshot(), vec![vec![2], vec![3]]);
}

#[test]
fn ring_without_room_holds_nothing() {
    let mut ring = RingBuffer::new(0);
    ring.push(vec![1, 2, 3]);
    assert_eq!(ring.len(), 0);
    assert!(ring.snapshot().is_empty());
}
