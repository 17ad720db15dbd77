use iouring::{
    IOUring, IOUringCqe, IOUringOp, RawCompletion, RingError, SqeKind, SubmissionEntry,
    IOSQE_BUFFER_SELECT,
};

const QUEUE_DEPTH: u32 = 4;

fn fresh(depth: u32) -> IOUring {
    match IOUring::new(depth, 0) {
        Ok(ring) => ring,
        Err(e) => panic!("io_uring_queue_init: {:?}", e),
    }
}

#[test]
fn test_io_uring_queue_init() {
    let mut ring = match IOUring::new(QUEUE_DEPTH, 0) {
        Ok(ring) => ring,
        Err(e) => panic!("io_uring_queue_init: {:?}", e),
    };

    loop {
        match ring.get_sqe() {
            None => break,
            Some(sqe) => {
                let _ = sqe.prep_nop();
            }
        }
    }
    assert_eq!(ring.pending(), QUEUE_DEPTH as usize);
    let pending = match ring.submit(QUEUE_DEPTH as i32) {
        Ok(n) => n,
        Err(e) => panic!("io_uring_submit: {:?}", e),
    };
    assert_eq!(pending, QUEUE_DEPTH);

    for _ in 0..pending {
        let raw = RawCompletion { user_data: 0, res: 0, flags: 0 };
        match ring.wait_cqe(0, raw) {
            Err(e) => panic!("io_uring_wait_cqe: {:?}", e),
            Ok(cqe) => {
                if cqe.res < 0 {
                    println!("(*cqe).res = {}", cqe.res);
                }
                assert_eq!(cqe.res, 0);
            }
        }
    }
    assert_eq!(ring.pending(), 0);
}

#[test]
fn new_fails_with_the_drivers_error() {
    assert!(matches!(IOUring::new(4, -12), Err(RingError::Os { errno: 12 })));
    assert!(matches!(IOUring::new(4, i32::MIN), Err(RingError::Os { errno: 0x8000_0000 })));
    assert!(matches!(IOUring::new(0, 0), Err(RingError::InvalidDepth)));
    // The driver's refusal comes first, whatever the size.
    assert!(matches!(IOUring::new(0, -22), Err(RingError::Os { errno: 22 })));
    assert!(matches!(IOUring::new(u32::MAX, -12), Err(RingError::Os { errno: 12 })));
    assert!(matches!(IOUring::new(0x8000_0001, 0), Err(RingError::InvalidDepth)));
    assert!(matches!(IOUring::new(u32::MAX, 0), Err(RingError::InvalidDepth)));
    assert_eq!(RingError::from_code(-1), RingError::Os { errno: 1 });
}

#[test]
fn new_ring_is_empty() {
    let ring = fresh(8);
    assert_eq!(ring.capacity(), 8);
    assert_eq!(ring.pending(), 0);
    assert!(!ring.is_available(0, 0));
}

#[test]
fn four_reads_are_submitted_and_drained() {
    let mut ring = fresh(4);
    for tag in 0..4u64 {
        let sqe = ring.get_sqe().expect("a free slot");
        let _ = sqe.prep_read(3, 0, 0, 0).set_user_data(tag);
    }
    for i in 0..4usize {
        let e = ring.entry(i);
        assert_eq!(e.kind, SqeKind::Read);
        assert_eq!(e.fd, 3);
        assert_eq!(e.user_data, i as u64);
    }
    assert_eq!(ring.submit(4), Ok(4));
    assert_eq!(ring.pending(), 0);

    // The completions come back in another order than the submissions went.
    let mut seen: Vec<u64> = Vec::new();
    for tag in [2u64, 0, 3, 1] {
        let raw = RawCompletion { user_data: tag, res: 0, flags: 0 };
        assert!(IOUringOp::is_valid(raw.user_data));
        let cqe = ring.wait_cqe(0, raw).expect("a successful completion");
        assert!(cqe.res >= 0);
        seen.push(cqe.op.into_u64());
    }
    seen.sort();
    assert_eq!(seen, vec![0, 1, 2, 3]);
}

#[test]
fn full_queue_gives_no_slot() {
    let mut ring = fresh(4);
    for _ in 0..4 {
        assert!(ring.get_sqe().is_some());
    }
    assert!(ring.get_sqe().is_none());
    assert_eq!(ring.pending(), 4);
    assert_eq!(ring.submit(4), Ok(4));
    assert!(ring.get_sqe().is_some());
}

#[test]
fn depth_is_rounded_up_to_a_power_of_two() {
    for (size, depth) in [(1u32, 1u32), (2, 2), (3, 4), (4, 4), (5, 8), (1000, 1024)] {
        assert_eq!(fresh(size).capacity(), depth);
    }
    assert_eq!(fresh(0x8000_0000).capacity(), 0x8000_0000);
    assert_eq!(fresh(0x4000_0001).capacity(), 0x8000_0000);
    let mut ring = fresh(3);
    for _ in 0..4 {
        assert!(ring.get_sqe().is_some());
    }
    assert!(ring.get_sqe().is_none());
}

#[test]
fn driver_may_take_part_of_a_batch() {
    let mut ring = fresh(4);
    ring.prep_multishot_accept(1);
    ring.prep_multishot_accept(2);
    ring.prep_multishot_accept(3);
    assert_eq!(ring.submit(2), Ok(2));
    assert_eq!(ring.pending(), 1);
    assert_eq!(ring.entry(0).fd, 3);
    assert_eq!(ring.submit(0), Ok(0));
    assert_eq!(ring.pending(), 1);
    assert_eq!(ring.submit(1), Ok(1));
    assert_eq!(ring.pending(), 0);
    assert_eq!(ring.submit(0), Ok(0));
}

#[test]
fn fresh_slot_is_blank() {
    let mut ring = fresh(2);
    assert!(ring.get_sqe().is_some());
    assert_eq!(ring.entry(0), SubmissionEntry::new());
    assert_eq!(
        SubmissionEntry::new(),
        SubmissionEntry {
            kind: SqeKind::Nop,
            fd: 0,
            addr: 0,
            offset: 0,
            len: 0,
            flags: 0,
            buf_group: 0,
            user_data: 0
        }
    );
}

#[test]
fn rejected_batch_stays_pending() {
    let mut ring = fresh(4);
    ring.prep_multishot_accept(9);
    assert_eq!(ring.submit(-22), Err(RingError::Os { errno: 22 }));
    assert_eq!(ring.pending(), 1);
    assert_eq!(ring.submit(1), Ok(1));
    assert_eq!(ring.pending(), 0);
}

#[test]
fn negative_result_is_an_error_and_the_ring_goes_on() {
    let mut ring = fresh(4);
    ring.prep_multishot_accept(9);
    assert_eq!(ring.submit(1), Ok(1));
    let failed = RawCompletion { user_data: 0, res: -104, flags: 0 };
    assert_eq!(ring.wait_cqe(0, failed), Err(RingError::Os { errno: 104 }));
    // A failed wait is reported before the completion is looked at.
    assert_eq!(ring.wait_cqe(-4, failed), Err(RingError::Os { errno: 4 }));
    assert_eq!(IOUringCqe::from_raw(-4, failed), Err(RingError::Os { errno: 4 }));

    ring.prep_multishot_accept(9);
    assert_eq!(ring.pending(), 1);
    assert_eq!(ring.submit(1), Ok(1));
    let fine = RawCompletion { user_data: 0, res: 17, flags: 2 };
    assert_eq!(
        ring.wait_cqe(0, fine),
        Ok(IOUringCqe { op: IOUringOp::Accept, res: 17, flags: 2 })
    );
}

#[test]
fn prep_read_selects_a_buffer_and_tags_with_the_operation() {
    let mut ring = fresh(4);
    ring.prep_read(5, 4096, 7);
    assert_eq!(
        ring.entry(0),
        SubmissionEntry {
            kind: SqeKind::Read,
            fd: 5,
            addr: 0,
            offset: 4096,
            len: 0,
            flags: IOSQE_BUFFER_SELECT,
            buf_group: 7,
            user_data: 2 + 7 + 5 * 0x1_0000
        }
    );
}

#[test]
fn prep_multishot_accept_keeps_the_blank_tag() {
    let mut ring = fresh(4);
    ring.prep_multishot_accept(11);
    assert_eq!(
        ring.entry(0),
        SubmissionEntry {
            kind: SqeKind::MultishotAccept,
            fd: 11,
            addr: 0,
            offset: 0,
            len: 0,
            flags: 0,
            buf_group: 0,
            user_data: 0
        }
    );
    assert_eq!(IOUringOp::from_u64(ring.entry(0).user_data), IOUringOp::Accept);
}

#[test]
fn prep_multishot_receive_tags_with_the_operation() {
    let mut ring = fresh(4);
    ring.prep_multishot_receive(6, 1);
    let e = ring.entry(0);
    assert_eq!(e.kind, SqeKind::MultishotReceive);
    assert_eq!(e.fd, 6);
    assert_eq!(e.flags, 32);
    assert_eq!(e.buf_group, 1);
    assert_eq!(e.user_data, 2 + 1 + 6 * 0x1_0000);
    assert_eq!(e.addr, 0);
    assert_eq!(IOUringOp::from_u64(e.user_data), IOUringOp::Recv { sockfd: 6, bgid: 1 });
}

#[test]
fn builder_steps_chain() {
    let mut ring = fresh(2);
    let sqe = ring.get_sqe().expect("a free slot");
    let _ = sqe.set_user_data(99).prep_read(4, 0x7f00_dead_b000, 0x1_0000_0010, 512).select_buffer(3);
    let e = ring.entry(0);
    assert_eq!(e.kind, SqeKind::Read);
    assert_eq!(e.fd, 4);
    assert_eq!(e.addr, 0x7f00_dead_b000);
    assert_eq!(e.len, 0x10);
    assert_eq!(e.offset, 512);
    assert_eq!(e.user_data, 99);
    assert_eq!(e.flags, IOSQE_BUFFER_SELECT);
    assert_eq!(e.buf_group, 3);

    let sqe = ring.get_sqe().expect("a free slot");
    let _ = sqe.select_buffer(3).prep_multishot_receive(8);
    let e = ring.entry(1);
    assert_eq!(e.addr, 0);
    assert_eq!(e.flags, 0);
    assert_eq!(e.buf_group, 0);
    let _ = ring.submit(2);
    let sqe = ring.get_sqe().expect("a free slot");
    let _ = sqe.prep_multishot_accept(8).prep_nop();
    assert_eq!(ring.entry(0).kind, SqeKind::Nop);
    assert_eq!(ring.entry(0).fd, -1);
}

#[test]
fn completion_flags_are_read() {
    let plain = IOUringCqe { op: IOUringOp::Send, res: 3, flags: 0 };
    assert_eq!(plain.buffer_id(), None);
    assert!(!plain.has_more());
    let last = IOUringCqe { op: IOUringOp::Send, res: 3, flags: (5 << 16) | 1 };
    assert_eq!(last.buffer_id(), Some(5));
    assert!(!last.has_more());
    let going = IOUringCqe { op: IOUringOp::Accept, res: 3, flags: 2 };
    assert_eq!(going.buffer_id(), None);
    assert!(going.has_more());
    // Without the buffer flag the upper bits name no buffer.
    let stray = IOUringCqe { op: IOUringOp::Accept, res: 3, flags: (5 << 16) | 2 };
    assert_eq!(stray.buffer_id(), None);
    let top = IOUringCqe { op: IOUringOp::Accept, res: 3, flags: 0xffff_0003 };
    assert_eq!(top.buffer_id(), Some(0xffff));
    assert!(top.has_more());
}

#[test]
fn read_into_the_callers_memory() {
    let mut ring = fresh(2);
    let sqe = ring.get_sqe().expect("a free slot");
    let _ = sqe.prep_read(9, 0x1000, 4096, 8192).set_user_data(1);
    assert_eq!(
        ring.entry(0),
        SubmissionEntry {
            kind: SqeKind::Read,
            fd: 9,
            addr: 0x1000,
            offset: 8192,
            len: 4096,
            flags: 0,
            buf_group: 0,
            user_data: 1
        }
    );
    // Another request in the same slot names no memory.
    let _ = ring.submit(1);
    let sqe = ring.get_sqe().expect("a free slot");
    let _ = sqe.prep_read(9, 0x1000, 16, 0).prep_multishot_accept(9);
    assert_eq!(ring.entry(0).addr, 0);
    assert_eq!(ring.entry(0).len, 0);
}
