use spsc_ring::ring_queue::RingQueue;

#[test]
fn queue_basic() {
    let mut q = RingQueue::<u32>::new(1);
    assert_eq!(q.capacity(), 1);
    let mut out: Option<u32> = None;
    assert!(!q.dequeue_item(&mut out));
    assert_eq!(out, None);
    q.dispose();
}

#[test]
fn ring_queue_basic() {
    let mut q = RingQueue::<u32>::new(16);
    let item = 777u32;
    assert!(q.enqueue_item(&item));
    let mut out: Option<u32> = None;
    assert!(q.dequeue_item(&mut out));
    assert_eq!(out, Some(777));
}

#[test]
fn basic2() {
    let capacity: usize = 16;
    let mut q = RingQueue::<u32>::new(capacity);
    for item in 0..capacity as u32 {
        assert!(q.enqueue_item(&item));
    }
    let mut out: Option<u32> = None;
    for expected in 0..capacity as u32 {
        assert!(q.dequeue_item(&mut out));
        assert_eq!(out, Some(expected));
    }
    q.dispose();
}

#[test]
fn basic3() {
    let capacity: usize = 4;
    let mut q = RingQueue::<u64>::new(capacity);
    for item in 0..capacity as u64 {
        assert!(q.enqueue_item(&item));
    }
    let mut out: Option<u64> = None;
    for expected in 0..capacity as u64 {
        assert!(q.dequeue_item(&mut out));
        assert_eq!(out, Some(expected));
    }
    q.dispose();
}

#[test]
fn exactly_capacity_enqueues_succeed() {
    for capacity in [1usize, 2, 3, 16, 100] {
        let mut q = RingQueue::<u32>::new(capacity);
        for i in 0..capacity as u32 {
            assert!(q.enqueue_item(&i));
        }
        assert!(!q.enqueue_item(&9999));
        assert!(!q.enqueue_item(&9999));
    }
}

#[test]
fn fifo_across_wraparound() {
    let mut q = RingQueue::<u32>::new(3);
    let mut next_in: u32 = 0;
    let mut next_out: u32 = 0;
    let mut out: Option<u32> = None;
    for round in 0..50u32 {
        for _ in 0..(round % 4) {
            if q.enqueue_item(&next_in) {
                next_in += 1;
            }
        }
        for _ in 0..(round % 3) {
            if q.dequeue_item(&mut out) {
                assert_eq!(out, Some(next_out));
                next_out += 1;
            }
        }
    }
    while q.dequeue_item(&mut out) {
        assert_eq!(out, Some(next_out));
        next_out += 1;
    }
    assert_eq!(next_in, next_out);
    assert!(next_in > 20);
}

#[test]
fn round_trip_keeps_every_bit() {
    let v: (u64, i8, [u8; 3]) = (0xDEAD_BEEF_0123_4567, -7, [1, 255, 0]);
    let mut q = RingQueue::<(u64, i8, [u8; 3])>::new(2);
    assert!(q.enqueue_item(&v));
    let mut out = None;
    assert!(q.dequeue_item(&mut out));
    assert_eq!(out, Some(v));
}

#[test]
fn capacity_one_boundary() {
    let mut q = RingQueue::<u32>::new(1);
    assert!(q.enqueue_item(&42));
    assert!(!q.enqueue_item(&43));
    let mut out: Option<u32> = None;
    assert!(q.dequeue_item(&mut out));
    assert_eq!(out, Some(42));
    assert!(!q.dequeue_item(&mut out));
    assert_eq!(out, Some(42));
}

#[test]
fn stress_interleaved_in_order() {
    let k: usize = 4096;
    let n: u32 = 65536;
    let mut q = RingQueue::<u32>::new(k);
    let mut sent: u32 = 0;
    let mut received: Vec<u32> = Vec::new();
    let mut out: Option<u32> = None;
    let mut turn: u32 = 0;
    while (received.len() as u32) < n {
        let burst = 1 + (turn * 7919) % 5000;
        for _ in 0..burst {
            if sent < n && q.enqueue_item(&sent) {
                sent += 1;
            }
        }
        let drain = 1 + (turn * 104729) % 4500;
        for _ in 0..drain {
            if q.dequeue_item(&mut out) {
                received.push(out.unwrap());
            }
        }
        turn += 1;
    }
    assert_eq!(received.len(), n as usize);
    for (a, b) in received.iter().zip(0u32..) {
        assert_eq!(*a, b);
    }
}

#[test]
fn dispose_untouched_queue() {
    let q = RingQueue::<u64>::new(8);
    q.dispose();
}
