use zephyr_core::{MsgQueue, QueueError, Step, Timeout, Wake};

const NOBODY: u64 = 0;

fn queue(max_msgs: u32, msg_size: usize) -> MsgQueue {
    match MsgQueue::init(max_msgs, msg_size) {
        Ok(queue) => queue,
        Err(e) => panic!("no queue: {:?}", e),
    }
}

fn stored() -> Result<Step<()>, QueueError> {
    Ok(Step::Done { value: (), wake: None })
}

fn message(bytes: &[u8]) -> Result<Step<Vec<u8>>, QueueError> {
    Ok(Step::Done { value: bytes.to_vec(), wake: None })
}

fn put_now(queue: &mut MsgQueue, msg: &[u8]) -> Result<Step<()>, QueueError> {
    queue.put(msg, Timeout::Immediate, NOBODY, 0)
}

fn get_now(queue: &mut MsgQueue) -> Result<Step<Vec<u8>>, QueueError> {
    queue.get(Timeout::Immediate, NOBODY, 0)
}

#[test]
fn init_gives_an_empty_queue() {
    let q = queue(4, 3);
    assert_eq!(q.capacity(), 4);
    assert_eq!(q.message_size(), 3);
    assert_eq!(q.len(), 0);
    assert!(q.is_empty());
    assert!(!q.is_full());
    assert_eq!(q.peek(), Err(QueueError::Empty));
}

#[test]
fn init_without_memory_is_no_mem() {
    // the size does not fit in a usize
    assert!(matches!(MsgQueue::init(u32::MAX, usize::MAX), Err(QueueError::NoMem)));
    assert!(matches!(MsgQueue::init(2, usize::MAX), Err(QueueError::NoMem)));
    // the size fits, but no allocation can be that large
    assert!(matches!(MsgQueue::init(1, usize::MAX), Err(QueueError::NoMem)));
    assert!(matches!(MsgQueue::init(1, usize::MAX / 2 + 1), Err(QueueError::NoMem)));
    assert!(matches!(MsgQueue::init(4, usize::MAX / 8 + 1), Err(QueueError::NoMem)));
}

#[test]
fn init_of_a_large_queue_works() {
    let mut q = queue(1000, 1000);
    assert_eq!(q.capacity(), 1000);
    assert_eq!(q.message_size(), 1000);
    let msg = vec![0x5A; 1000];
    for _ in 0..1000 {
        assert_eq!(put_now(&mut q, &msg), stored());
    }
    assert!(q.is_full());
    assert_eq!(get_now(&mut q), message(&msg));
}

#[test]
fn with_buffer_ignores_what_the_buffer_held() {
    let mut q = MsgQueue::with_buffer(vec![0xAA; 6], 3, 2);
    assert_eq!(q.capacity(), 3);
    assert_eq!(q.message_size(), 2);
    assert_eq!(q.len(), 0);
    assert_eq!(get_now(&mut q), Err(QueueError::Empty));
    assert_eq!(put_now(&mut q, &[1, 2]), stored());
    assert_eq!(get_now(&mut q), message(&[1, 2]));
}

#[test]
fn messages_leave_in_the_order_they_came() {
    let mut q = queue(4, 2);
    assert_eq!(put_now(&mut q, &[1, 10]), stored());
    assert_eq!(put_now(&mut q, &[2, 20]), stored());
    assert_eq!(put_now(&mut q, &[3, 30]), stored());
    assert_eq!(get_now(&mut q), message(&[1, 10]));
    assert_eq!(put_now(&mut q, &[4, 40]), stored());
    assert_eq!(get_now(&mut q), message(&[2, 20]));
    assert_eq!(get_now(&mut q), message(&[3, 30]));
    assert_eq!(get_now(&mut q), message(&[4, 40]));
    assert_eq!(get_now(&mut q), Err(QueueError::Empty));
}

#[test]
fn len_is_puts_minus_gets_at_every_point() {
    let mut q = queue(3, 1);
    let mut put: usize = 0;
    let mut got: usize = 0;
    let script = [true, true, false, true, true, false, false, true, false, false];
    for is_put in script {
        if is_put {
            assert_eq!(put_now(&mut q, &[put as u8]), stored());
            put += 1;
        } else {
            assert_eq!(get_now(&mut q), message(&[got as u8]));
            got += 1;
        }
        assert_eq!(q.len(), put - got);
        assert_eq!(q.is_empty(), put == got);
        assert_eq!(q.is_full(), put - got == 3);
    }
}

#[test]
fn put_on_a_full_queue_without_waiting_is_full() {
    let mut q = queue(2, 1);
    assert_eq!(put_now(&mut q, &[1]), stored());
    assert_eq!(put_now(&mut q, &[2]), stored());
    assert!(q.is_full());
    assert_eq!(put_now(&mut q, &[3]), Err(QueueError::Full));
    assert_eq!(q.len(), 2);
    assert_eq!(get_now(&mut q), message(&[1]));
    assert_eq!(get_now(&mut q), message(&[2]));
    assert_eq!(q.len(), 0);
}

#[test]
fn get_on_an_empty_queue_without_waiting_is_empty() {
    let mut q = queue(2, 1);
    assert_eq!(get_now(&mut q), Err(QueueError::Empty));
    assert_eq!(q.len(), 0);
    assert_eq!(put_now(&mut q, &[7]), stored());
    assert_eq!(q.len(), 1);
}

#[test]
fn peek_copies_the_head_and_leaves_it() {
    let mut q = queue(2, 2);
    assert_eq!(put_now(&mut q, &[5, 6]), stored());
    assert_eq!(put_now(&mut q, &[7, 8]), stored());
    assert_eq!(q.peek(), Ok(vec![5, 6]));
    assert_eq!(q.peek(), Ok(vec![5, 6]));
    assert_eq!(q.len(), 2);
    assert_eq!(get_now(&mut q), message(&[5, 6]));
    assert_eq!(q.peek(), Ok(vec![7, 8]));
}

#[test]
fn peek_wakes_no_producer() {
    let mut q = queue(1, 1);
    assert_eq!(put_now(&mut q, &[1]), stored());
    assert_eq!(q.put(&[2], Timeout::Forever, 11, 0), Ok(Step::Blocked));
    assert_eq!(q.peek(), Ok(vec![1]));
    assert_eq!(q.len(), 1);
    assert_eq!(
        get_now(&mut q),
        Ok(Step::Done { value: vec![1], wake: Some(Wake { caller: 11, result: Ok(()) }) })
    );
}

#[test]
fn the_oldest_blocked_producer_fills_the_freed_slot() {
    let mut q = queue(2, 1);
    assert_eq!(put_now(&mut q, &[1]), stored());
    assert_eq!(put_now(&mut q, &[2]), stored());
    assert_eq!(q.put(&[10], Timeout::Forever, 100, 0), Ok(Step::Blocked));
    assert_eq!(q.put(&[20], Timeout::After(50), 200, 1), Ok(Step::Blocked));
    assert_eq!(q.put(&[30], Timeout::Forever, 300, 2), Ok(Step::Blocked));
    assert_eq!(q.len(), 2);

    assert_eq!(
        get_now(&mut q),
        Ok(Step::Done { value: vec![1], wake: Some(Wake { caller: 100, result: Ok(()) }) })
    );
    assert_eq!(q.len(), 2);
    assert_eq!(
        get_now(&mut q),
        Ok(Step::Done { value: vec![2], wake: Some(Wake { caller: 200, result: Ok(()) }) })
    );
    assert_eq!(
        get_now(&mut q),
        Ok(Step::Done { value: vec![10], wake: Some(Wake { caller: 300, result: Ok(()) }) })
    );
    assert_eq!(q.len(), 2);
    assert_eq!(get_now(&mut q), message(&[20]));
    assert_eq!(get_now(&mut q), message(&[30]));
    assert_eq!(get_now(&mut q), Err(QueueError::Empty));
}

#[test]
fn the_oldest_blocked_consumer_receives_the_message() {
    let mut q = queue(2, 1);
    assert_eq!(q.get(Timeout::Forever, 7, 0), Ok(Step::Blocked));
    assert_eq!(q.get(Timeout::After(9), 8, 0), Ok(Step::Blocked));
    assert_eq!(
        put_now(&mut q, &[1]),
        Ok(Step::Done { value: (), wake: Some(Wake { caller: 7, result: Ok(()) }) })
    );
    assert_eq!(q.len(), 0);
    assert_eq!(
        put_now(&mut q, &[2]),
        Ok(Step::Done { value: (), wake: Some(Wake { caller: 8, result: Ok(()) }) })
    );
    assert_eq!(q.len(), 0);
    assert_eq!(put_now(&mut q, &[3]), stored());
    assert_eq!(q.len(), 1);
    assert_eq!(get_now(&mut q), message(&[3]));
}

#[test]
fn a_blocked_put_times_out_at_its_deadline_and_leaves_no_trace() {
    let mut q = queue(2, 1);
    assert_eq!(put_now(&mut q, &[1]), stored());
    assert_eq!(put_now(&mut q, &[2]), stored());
    assert_eq!(q.put(&[3], Timeout::After(10), 42, 100), Ok(Step::Blocked));
    assert_eq!(q.expire(42, 100), None);
    assert_eq!(q.expire(42, 109), None);
    assert_eq!(q.expire(41, 110), None);
    assert_eq!(q.len(), 2);
    assert_eq!(q.expire(42, 110), Some(Wake { caller: 42, result: Err(QueueError::Timeout) }));
    assert_eq!(q.expire(42, 111), None);
    assert_eq!(q.len(), 2);
    assert_eq!(get_now(&mut q), message(&[1]));
    assert_eq!(get_now(&mut q), message(&[2]));
    assert_eq!(get_now(&mut q), Err(QueueError::Empty));
}

#[test]
fn a_blocked_get_times_out_at_its_deadline_and_leaves_no_trace() {
    let mut q = queue(2, 1);
    assert_eq!(q.get(Timeout::After(5), 9, 20), Ok(Step::Blocked));
    assert_eq!(q.expire(9, 24), None);
    assert_eq!(q.expire(9, 25), Some(Wake { caller: 9, result: Err(QueueError::Timeout) }));
    assert_eq!(q.len(), 0);
    assert_eq!(put_now(&mut q, &[1]), stored());
    assert_eq!(q.len(), 1);
}

#[test]
fn a_wait_of_no_ticks_is_due_at_once() {
    let mut q = queue(1, 1);
    assert_eq!(q.get(Timeout::After(0), 9, 20), Ok(Step::Blocked));
    assert_eq!(q.expire(9, 19), None);
    assert_eq!(q.expire(9, 20), Some(Wake { caller: 9, result: Err(QueueError::Timeout) }));
}

#[test]
fn a_wait_without_deadline_never_times_out() {
    let mut q = queue(1, 1);
    assert_eq!(put_now(&mut q, &[1]), stored());
    assert_eq!(q.put(&[2], Timeout::Forever, 5, 0), Ok(Step::Blocked));
    assert_eq!(q.expire(5, u64::MAX), None);
    assert_eq!(
        get_now(&mut q),
        Ok(Step::Done { value: vec![1], wake: Some(Wake { caller: 5, result: Ok(()) }) })
    );
}

#[test]
fn a_deadline_past_the_last_tick_is_never_reached() {
    let mut q = queue(1, 1);
    assert_eq!(q.get(Timeout::After(u64::MAX), 5, 1), Ok(Step::Blocked));
    assert_eq!(q.expire(5, u64::MAX), None);
    let mut p = queue(1, 1);
    assert_eq!(p.get(Timeout::After(u64::MAX), 5, 0), Ok(Step::Blocked));
    assert_eq!(p.expire(5, u64::MAX - 1), None);
    assert_eq!(p.expire(5, u64::MAX), Some(Wake { caller: 5, result: Err(QueueError::Timeout) }));
}

#[test]
fn expire_takes_only_the_due_waiter_and_keeps_the_order() {
    let mut q = queue(1, 1);
    assert_eq!(put_now(&mut q, &[0]), stored());
    assert_eq!(q.put(&[1], Timeout::After(30), 1, 0), Ok(Step::Blocked));
    assert_eq!(q.put(&[2], Timeout::After(10), 2, 0), Ok(Step::Blocked));
    assert_eq!(q.put(&[3], Timeout::After(30), 3, 0), Ok(Step::Blocked));
    assert_eq!(q.expire(1, 10), None);
    assert_eq!(q.expire(2, 10), Some(Wake { caller: 2, result: Err(QueueError::Timeout) }));
    assert_eq!(
        get_now(&mut q),
        Ok(Step::Done { value: vec![0], wake: Some(Wake { caller: 1, result: Ok(()) }) })
    );
    assert_eq!(
        get_now(&mut q),
        Ok(Step::Done { value: vec![1], wake: Some(Wake { caller: 3, result: Ok(()) }) })
    );
    assert_eq!(get_now(&mut q), message(&[3]));
}

#[test]
fn a_waiter_served_before_its_deadline_cannot_time_out() {
    let mut q = queue(1, 1);
    assert_eq!(q.get(Timeout::After(5), 9, 0), Ok(Step::Blocked));
    assert_eq!(
        put_now(&mut q, &[1]),
        Ok(Step::Done { value: (), wake: Some(Wake { caller: 9, result: Ok(()) }) })
    );
    assert_eq!(q.expire(9, 100), None);
}

#[test]
fn purge_empties_the_queue_and_releases_the_producers() {
    let mut q = queue(5, 2);
    for i in 0..5u8 {
        assert_eq!(put_now(&mut q, &[i, i]), stored());
    }
    assert_eq!(q.put(&[9, 9], Timeout::Forever, 71, 0), Ok(Step::Blocked));
    assert_eq!(q.put(&[8, 8], Timeout::After(3), 72, 0), Ok(Step::Blocked));
    assert_eq!(q.len(), 5);

    let wakes = q.purge();
    assert_eq!(
        wakes,
        vec![
            Wake { caller: 71, result: Err(QueueError::Purged) },
            Wake { caller: 72, result: Err(QueueError::Purged) },
        ]
    );
    assert_eq!(q.len(), 0);
    assert!(q.is_empty());
    assert_eq!(q.capacity(), 5);
    assert_eq!(q.expire(72, 100), None);

    for i in 0..5u8 {
        assert_eq!(put_now(&mut q, &[i + 50, i]), stored());
    }
    assert_eq!(put_now(&mut q, &[0, 0]), Err(QueueError::Full));
    for i in 0..5u8 {
        assert_eq!(get_now(&mut q), message(&[i + 50, i]));
    }
}

#[test]
fn purge_releases_the_consumers() {
    let mut q = queue(2, 1);
    assert_eq!(q.get(Timeout::Forever, 1, 0), Ok(Step::Blocked));
    assert_eq!(q.get(Timeout::Forever, 2, 0), Ok(Step::Blocked));
    assert_eq!(
        q.purge(),
        vec![
            Wake { caller: 1, result: Err(QueueError::Purged) },
            Wake { caller: 2, result: Err(QueueError::Purged) },
        ]
    );
    assert_eq!(put_now(&mut q, &[4]), stored());
    assert_eq!(q.len(), 1);
}

#[test]
fn purge_of_a_quiet_queue_wakes_nobody() {
    let mut q = queue(2, 1);
    assert_eq!(q.purge(), vec![]);
    assert_eq!(put_now(&mut q, &[4]), stored());
    assert_eq!(q.purge(), vec![]);
    assert_eq!(q.len(), 0);
}

#[test]
fn round_trip_keeps_every_byte() {
    let mut q = queue(3, 8);
    let zeros = [0u8; 8];
    let ones = [0xFFu8; 8];
    let mixed = [0x00, 0xFF, 0x01, 0x80, 0x7F, 0xFE, 0x55, 0xAA];
    for payload in [zeros, ones, mixed] {
        assert_eq!(put_now(&mut q, &payload), stored());
        assert_eq!(get_now(&mut q), message(&payload));
        assert!(q.is_empty());
    }
}

#[test]
fn round_trip_across_the_wraparound() {
    let mut q = queue(3, 4);
    let msg = |lap: u8, slot: u8| [lap, slot, 0xFF - slot, 0x00];
    for lap in 0..4u8 {
        for slot in 0..3u8 {
            assert_eq!(put_now(&mut q, &msg(lap, slot)), stored());
        }
        assert!(q.is_full());
        assert_eq!(put_now(&mut q, &[0; 4]), Err(QueueError::Full));
        for slot in 0..3u8 {
            assert_eq!(get_now(&mut q), message(&msg(lap, slot)));
        }
        assert!(q.is_empty());
    }
    // the head now stands in the middle of the buffer
    assert_eq!(put_now(&mut q, &msg(9, 0)), stored());
    assert_eq!(get_now(&mut q), message(&msg(9, 0)));
    for slot in 0..3u8 {
        assert_eq!(put_now(&mut q, &msg(10, slot)), stored());
    }
    for slot in 0..3u8 {
        assert_eq!(get_now(&mut q), message(&msg(10, slot)));
    }
}

#[test]
fn a_queue_of_one_slot_works() {
    let mut q = queue(1, 1);
    for i in 0..5u8 {
        assert_eq!(put_now(&mut q, &[i]), stored());
        assert!(q.is_full());
        assert_eq!(put_now(&mut q, &[i]), Err(QueueError::Full));
        assert_eq!(get_now(&mut q), message(&[i]));
    }
}

#[test]
fn deadlines_are_now_plus_ticks() {
    assert_eq!(Timeout::After(10).deadline(100), Some(110));
    assert_eq!(Timeout::After(0).deadline(100), Some(100));
    assert_eq!(Timeout::After(1).deadline(u64::MAX - 1), Some(u64::MAX));
    assert_eq!(Timeout::After(1).deadline(u64::MAX), None);
    assert_eq!(Timeout::Forever.deadline(100), None);
    assert_eq!(Timeout::Immediate.deadline(100), Some(100));
}
