use ring_io::Ring;
use ring_io::SQE;

#[test]
fn readv_cycle_counts() {
    // The cursor flow of a single vectored read, end to end on the model:
    // the model kernel completes the operation with a zero result.
    let mut ring = Ring::with_entries(32).setup().unwrap();

    assert_eq!(ring.sq.available(), 32);
    assert_eq!(ring.sq.prepared(), 0);
    assert_eq!(ring.cq.ready(), 0);

    let mut buf: Vec<u8> = vec![0; 4096];
    let index = ring.sq.pop_sqe().unwrap();

    assert_eq!(ring.sq.available(), 31);
    assert_eq!(ring.sq.prepared(), 0);

    let mut sqe = SQE::nop();
    sqe.prep_readv(0, buf.as_mut_ptr() as u64, 1, 0);
    sqe.set_user_data(77);
    ring.sq.modify_sqe(index, sqe);
    ring.sq.push_sqe(index);

    assert_eq!(ring.sq.available(), 31);
    assert_eq!(ring.sq.prepared(), 1);

    let n_submitted = ring.submit_and_wait(1).unwrap();
    assert_eq!(n_submitted, 1);
    assert_eq!(ring.sq.available(), 32);
    assert_eq!(ring.sq.prepared(), 0);
    assert_eq!(ring.cq.ready(), 1);

    let cqe = ring.cq.pop_cqe().unwrap();
    assert_eq!(ring.cq.ready(), 0);
    assert_eq!(cqe.user_data(), 77);
    assert_eq!(cqe.io_result().unwrap(), 0);

    drop(buf);
    drop(ring);
}

#[test]
fn unsubmitted_batch_stays_private() {
    // Popping and pushing without a submit changes only the private
    // cursors: the kernel-shared tail never moves.
    let mut ring = Ring::with_entries(8).setup().unwrap();
    let shared_tail = ring.sq.ktail_word();
    let shared_head = ring.sq.khead_word();
    let batch = ring.sq.pop_batch_sqe(4);
    assert_eq!(batch.len(), 4);
    ring.sq.push_batch_sqe(&batch);
    assert_eq!(ring.sq.prepared(), 4);
    assert_eq!(ring.sq.available(), 4);
    assert_eq!(ring.cq.ready(), 0);
    assert_eq!(ring.sq.ktail_word(), shared_tail);
    assert_eq!(ring.sq.khead_word(), shared_head);
    assert_eq!(shared_tail, shared_head);
}

#[test]
fn pop_succeeds_exactly_entries_times() {
    let mut ring = Ring::with_entries(32).setup().unwrap();
    let mut popped = Vec::new();
    let mut count: u32 = 0;
    while let Some(ix) = ring.sq.pop_sqe() {
        popped.push(ix);
        count += 1;
        assert!(count <= 32);
    }
    assert_eq!(count, 32);
    assert_eq!(ring.sq.pop_sqe(), None);
    // After popping everything the private cursors have met: nothing free,
    // nothing prepared.
    assert_eq!(ring.sq.available(), 0);
    assert_eq!(ring.sq.prepared(), 0);
}

#[test]
fn table_stays_a_permutation() {
    // Round trips through the free list keep the indirection table a
    // permutation of the slot indices, counting multiplicities.
    let mut ring = Ring::with_entries(8).setup().unwrap();
    for _ in 0..5 {
        let batch = ring.sq.pop_batch_sqe(3);
        assert_eq!(batch.len(), 3);
        ring.sq.push_batch_sqe(&batch);
        ring.submit().unwrap();
        let drained = ring.cq.pop_batch_cqe(8);
        assert_eq!(drained.len(), 3);
    }
    let mut counts = vec![0u32; 8];
    for slot in 0..8u32 {
        let value = ring.sq.array_at(slot);
        assert!(value < 8);
        counts[value as usize] += 1;
    }
    for c in counts {
        assert_eq!(c, 1);
    }
}

#[test]
fn batch_pops_report_ring_order() {
    let mut ring = Ring::with_entries(4).setup().unwrap();
    let batch = ring.sq.pop_batch_sqe(16);
    assert_eq!(batch.len(), 4);
    // Fresh ring: the identity free list hands out 0, 1, 2, 3.
    for (i, ix) in batch.iter().enumerate() {
        assert_eq!(ix.0, i as u32);
    }
}

#[test]
fn wait_cqes_zero_returns_immediately() {
    let mut ring = Ring::with_entries(4).setup().unwrap();
    assert_eq!(ring.wait_cqes(0).unwrap(), 0);
    let ix = ring.sq.pop_sqe().unwrap();
    ring.sq.push_sqe(ix);
    ring.submit().unwrap();
    assert_eq!(ring.wait_cqes(0).unwrap(), 1);
    assert_eq!(ring.cq.ready(), 1);
}

#[test]
fn submit_and_wait_leaves_enough_ready() {
    let mut ring = Ring::with_entries(8).setup().unwrap();
    let batch = ring.sq.pop_batch_sqe(3);
    ring.sq.push_batch_sqe(&batch);
    let submitted = ring.submit_and_wait(3).unwrap();
    assert_eq!(submitted, 3);
    assert!(ring.cq.ready() >= 3);
}

#[test]
fn peek_is_stable_and_pop_moves_on() {
    let mut ring = Ring::with_entries(4).setup().unwrap();
    for ud in 1..3u64 {
        let ix = ring.sq.pop_sqe().unwrap();
        let mut sqe = SQE::nop();
        sqe.set_user_data(ud);
        ring.sq.modify_sqe(ix, sqe);
        ring.sq.push_sqe(ix);
    }
    ring.submit_and_wait(2).unwrap();
    let first = *ring.cq.peek_cqe().unwrap();
    let again = *ring.cq.peek_cqe().unwrap();
    assert_eq!(first, again);
    assert_eq!(first.user_data(), 1);
    let taken = ring.cq.pop_cqe().unwrap();
    assert_eq!(taken, first);
    let next = *ring.cq.peek_cqe().unwrap();
    assert_ne!(next.user_data(), taken.user_data());
    assert_eq!(next.user_data(), 2);
}

#[test]
fn peek_batch_does_not_consume() {
    let mut ring = Ring::with_entries(4).setup().unwrap();
    let batch = ring.sq.pop_batch_sqe(2);
    ring.sq.push_batch_sqe(&batch);
    ring.submit().unwrap();
    let peeked = ring.cq.peek_batch_cqe(8);
    assert_eq!(peeked.len(), 2);
    assert_eq!(ring.cq.ready(), 2);
    let popped = ring.cq.pop_batch_cqe(8);
    assert_eq!(popped, peeked);
    assert_eq!(ring.cq.ready(), 0);
}

#[test]
fn advance_frees_read_slots() {
    let mut ring = Ring::with_entries(4).setup().unwrap();
    let batch = ring.sq.pop_batch_sqe(3);
    ring.sq.push_batch_sqe(&batch);
    ring.submit().unwrap();
    assert_eq!(ring.cq.ready(), 3);
    ring.cq.advance(2);
    assert_eq!(ring.cq.ready(), 1);
    ring.cq.advance(1);
    assert_eq!(ring.cq.ready(), 0);
}

#[test]
fn overflow_sets_flag_and_flush_drains() {
    // A one-entry submission ring with a two-entry completion ring: the
    // third unreaped completion overflows.
    let mut ring = Ring::with_entries(1).setup().unwrap();
    assert_eq!(ring.cq_entries(), 2);
    for round in 0..3u64 {
        let ix = ring.sq.pop_sqe().unwrap();
        let mut sqe = SQE::nop();
        sqe.set_user_data(round);
        ring.sq.modify_sqe(ix, sqe);
        ring.sq.push_sqe(ix);
        ring.submit().unwrap();
    }
    assert!(ring.needs_flush());
    assert_eq!(ring.cq.ready(), 2);
    // Flushing with the ring still full moves nothing, twice over.
    ring.flush().unwrap();
    assert!(ring.needs_flush());
    assert_eq!(ring.cq.ready(), 2);
    ring.flush().unwrap();
    assert!(ring.needs_flush());
    assert_eq!(ring.cq.ready(), 2);
    // Reap one entry; the drain then empties the backlog and clears the
    // flag, and a second flush changes nothing.
    let first = ring.cq.pop_cqe().unwrap();
    assert_eq!(first.user_data(), 0);
    ring.flush().unwrap();
    assert!(!ring.needs_flush());
    assert_eq!(ring.cq.ready(), 2);
    ring.flush().unwrap();
    assert!(!ring.needs_flush());
    assert_eq!(ring.cq.ready(), 2);
    let rest = ring.cq.pop_batch_cqe(4);
    assert_eq!(rest.len(), 2);
    assert_eq!(rest[0].user_data(), 1);
    assert_eq!(rest[1].user_data(), 2);
}

#[test]
fn overflow_wait_drains_backlog() {
    let mut ring = Ring::with_entries(1).setup().unwrap();
    for _ in 0..3 {
        let ix = ring.sq.pop_sqe().unwrap();
        ring.sq.push_sqe(ix);
        ring.submit().unwrap();
    }
    assert!(ring.needs_flush());
    assert_eq!(ring.cq.ready(), 2);
    ring.cq.pop_cqe().unwrap();
    // Waiting for more than is ready forces the drain.
    let ready = ring.wait_cqes(2).unwrap();
    assert_eq!(ready, 2);
    assert!(!ring.needs_flush());
}

#[test]
fn submit_with_nothing_prepared_is_a_no_op() {
    let mut ring = Ring::with_entries(4).setup().unwrap();
    assert_eq!(ring.submit().unwrap(), 0);
    assert_eq!(ring.cq.ready(), 0);
    assert_eq!(ring.sq.available(), 4);
}

#[test]
fn empty_batches_change_nothing() {
    let mut ring = Ring::with_entries(4).setup().unwrap();
    let none = ring.sq.pop_batch_sqe(0);
    assert!(none.is_empty());
    ring.sq.push_batch_sqe(&none);
    assert_eq!(ring.sq.available(), 4);
    assert_eq!(ring.sq.prepared(), 0);
    assert!(ring.cq.pop_batch_cqe(0).is_empty());
}
