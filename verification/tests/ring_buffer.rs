use cryptotui::error::CryptoTuiError;
use cryptotui::indicators::RingBuffer;

fn snapshot<T: Copy>(rb: &RingBuffer<T>) -> Vec<T> {
    rb.iter().into_iter().copied().collect()
}

#[test]
fn new_rejects_zero_capacity() {
    assert!(RingBuffer::<i32>::new(0).is_err());
}

#[test]
fn fresh_buffer_is_empty() {
    let rb = RingBuffer::<i32>::new(3).unwrap();
    assert_eq!(rb.len(), 0);
    assert!(rb.is_empty());
    assert!(!rb.is_full());
    assert_eq!(rb.capacity(), 3);
}

#[test]
fn fills_to_capacity_without_eviction() {
    let mut rb = RingBuffer::new(3).unwrap();
    assert_eq!(rb.push(1), None);
    assert_eq!(rb.push(2), None);
    assert_eq!(rb.push(3), None);
    assert!(rb.is_full());
    assert_eq!(rb.len(), 3);
}

#[test]
fn evicts_oldest_when_full() {
    let mut rb = RingBuffer::new(3).unwrap();
    rb.push(1);
    rb.push(2);
    rb.push(3);
    assert_eq!(rb.push(4), Some(1));
    assert_eq!(rb.push(5), Some(2));
    assert_eq!(rb.push(6), Some(3));
}

#[test]
fn iter_yields_oldest_to_newest_partial() {
    let mut rb = RingBuffer::new(5).unwrap();
    rb.push(10);
    rb.push(20);
    rb.push(30);
    let v: Vec<i32> = snapshot(&rb);
    assert_eq!(v, vec![10, 20, 30]);
}

#[test]
fn iter_yields_oldest_to_newest_after_one_wrap() {
    let mut rb = RingBuffer::new(3).unwrap();
    rb.push(1);
    rb.push(2);
    rb.push(3);
    rb.push(4); // evicts 1
    rb.push(5); // evicts 2
    let v: Vec<i32> = snapshot(&rb);
    assert_eq!(v, vec![3, 4, 5]);
}

#[test]
fn iter_yields_oldest_to_newest_after_many_wraps() {
    let mut rb = RingBuffer::new(4).unwrap();
    for i in 1..=10 {
        rb.push(i);
    }
    let v: Vec<i32> = snapshot(&rb);
    assert_eq!(v, vec![7, 8, 9, 10]);
}

#[test]
fn clear_resets_state_then_accepts_new_pushes() {
    let mut rb = RingBuffer::new(3).unwrap();
    rb.push(1);
    rb.push(2);
    rb.clear();
    assert!(rb.is_empty());
    assert_eq!(rb.iter().len(), 0);
    rb.push(99);
    assert_eq!(snapshot(&rb), vec![99]);
}

#[test]
fn iter_lifetime_does_not_keep_buffer_borrowed_after_collect() {
    // Sanity check that the borrow released after collect lets us mutate.
    let mut rb = RingBuffer::new(2).unwrap();
    rb.push(1);
    rb.push(2);
    let snapshot_before: Vec<i32> = snapshot(&rb);
    rb.push(3); // evicts 1
    assert_eq!(snapshot_before, vec![1, 2]);
    assert_eq!(snapshot(&rb), vec![2, 3]);
}

#[test]
fn ring_buffer_round_trips_through_public_api() {
    let mut rb = RingBuffer::<f64>::new(3).expect("non-zero capacity");
    rb.push(1.0);
    rb.push(2.0);
    rb.push(3.0);
    assert_eq!(rb.push(4.0), Some(1.0));
    let snapshot: Vec<f64> = rb.iter().into_iter().copied().collect();
    assert_eq!(snapshot, vec![2.0, 3.0, 4.0]);
}

#[test]
fn zero_capacity_error_names_the_setting() {
    match RingBuffer::<u8>::new(0) {
        Err(CryptoTuiError::InvalidConfig(msg)) => {
            assert_eq!(msg, "RingBuffer capacity must be > 0")
        }
        Ok(_) => panic!("zero capacity must be rejected"),
    }
}

#[test]
fn capacity_one_keeps_only_the_newest() {
    let mut rb = RingBuffer::new(1).unwrap();
    assert_eq!(rb.push('a'), None);
    assert!(rb.is_full());
    assert_eq!(rb.push('b'), Some('a'));
    assert_eq!(rb.push('c'), Some('b'));
    assert_eq!(snapshot(&rb), vec!['c']);
    assert_eq!(rb.len(), 1);
}

#[test]
fn window_is_most_recent_items_law() {
    // Pushing 1..=n into capacity c keeps the last min(n, c) items, and the
    // evicted items followed by the window are exactly what was pushed.
    for cap in 1..=5usize {
        for n in 0..=12i32 {
            let mut rb = RingBuffer::new(cap).unwrap();
            let mut evicted = Vec::new();
            for i in 1..=n {
                if let Some(e) = rb.push(i) {
                    evicted.push(e);
                }
            }
            let window = snapshot(&rb);
            let pushed: Vec<i32> = (1..=n).collect();
            let keep = std::cmp::min(n as usize, cap);
            assert_eq!(window, pushed[pushed.len() - keep..].to_vec());
            assert_eq!(rb.len(), keep);
            assert_eq!(rb.capacity(), cap);
            let mut all = evicted.clone();
            all.extend(window);
            assert_eq!(all, pushed);
        }
    }
}

#[test]
fn clear_keeps_capacity() {
    let mut rb = RingBuffer::new(4).unwrap();
    for i in 0..6 {
        rb.push(i);
    }
    rb.clear();
    assert_eq!(rb.capacity(), 4);
    assert_eq!(rb.len(), 0);
    for i in 0..4 {
        assert_eq!(rb.push(i), None);
    }
    assert_eq!(rb.push(4), Some(0));
}

#[test]
fn clone_copies_window_and_capacity() {
    let mut rb = RingBuffer::new(3).unwrap();
    for i in 1..=5 {
        rb.push(i);
    }
    let mut c = rb.clone();
    assert_eq!(snapshot(&c), vec![3, 4, 5]);
    assert_eq!(c.capacity(), 3);
    assert_eq!(c.push(6), Some(3));
    assert_eq!(snapshot(&rb), vec![3, 4, 5]);
}
