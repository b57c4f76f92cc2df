use ring_io::cq::needs_flush_word;
use ring_io::ring::mmap_sizes;
use ring_io::ring::submit_decision;
use ring_io::sys::EnterFlags;
use ring_io::sys::FsyncFlags;
use ring_io::sys::RawRingParams;
use ring_io::sys::RawSQE;
use ring_io::sys::RegisterOp;
use ring_io::sys::RingOp;
use ring_io::sys::SQEFlags;
use ring_io::sys::SetupFlags;
use ring_io::sys::ENTER_SQ_WAKEUP;
use ring_io::sys::SETUP_CLAMP;
use ring_io::sys::SETUP_IOPOLL;
use ring_io::sys::SETUP_SQPOLL;
use ring_io::sys::SQE_ASYNC;
use ring_io::sys::SQE_FIXED_FILE;
use ring_io::sys::SQ_CQ_OVERFLOW;
use ring_io::sys::SQ_NEED_WAKEUP;
use ring_io::CQE;
use ring_io::Errno;
use ring_io::SQE;

#[test]
fn cqe_accessors_expose_fields() {
    let cqe = CQE::new(42, 100, 7);
    assert_eq!(cqe.user_data(), 42);
    assert_eq!(cqe.raw_result(), 100);
    assert_eq!(cqe.raw_flags(), 7);
    assert!(!cqe.is_err());
    assert_eq!(cqe.io_result().unwrap(), 100);
}

#[test]
fn cqe_negative_result_is_an_error() {
    let cqe = CQE::new(1, -22, 0);
    assert!(cqe.is_err());
    let err = cqe.io_result().unwrap_err();
    assert_eq!(err, Errno(22));
    assert_eq!(err.raw_os_error(), 22);
}

#[test]
fn resultify_maps_both_signs() {
    assert_eq!(ring_io::utils::resultify(0).unwrap(), 0);
    assert_eq!(ring_io::utils::resultify(4096).unwrap(), 4096);
    assert_eq!(ring_io::utils::resultify(-2).unwrap_err(), Errno(2));
}

#[test]
fn libc_call_splits_on_sign() {
    assert_eq!(ring_io::utils::libc_call(5, 0).unwrap(), 5);
    assert_eq!(ring_io::utils::libc_call(-1, 9).unwrap_err(), Errno(9));
}

#[test]
fn some_if_builds_only_when_told() {
    assert_eq!(ring_io::utils::some_if(true, || 5u32), Some(5));
    assert_eq!(ring_io::utils::some_if(false, || 5u32), None);
}

#[test]
fn sqe_prep_readv_lays_out_fields() {
    let mut sqe = SQE::nop();
    sqe.prep_readv(9, 0x1000, 2, 64);
    assert_eq!(sqe.raw.opcode, RingOp::ReadV);
    assert_eq!(sqe.raw.fd, 9);
    assert_eq!(sqe.raw.arg2, 0x1000);
    assert_eq!(sqe.raw.len, 2);
    assert_eq!(sqe.raw.arg1, 64);
    assert_eq!(sqe.raw.user_data, 0);
}

#[test]
fn sqe_prep_writev_and_fsync() {
    let w = RawSQE::prep_writev(4, 0x2000, 1, 0);
    assert_eq!(w.opcode, RingOp::WriteV);
    assert_eq!(w.arg2, 0x2000);
    let f = RawSQE::prep_fsync(4, FsyncFlags { bits: 1 });
    assert_eq!(f.opcode, RingOp::Fsync);
    assert_eq!(f.cmd_flags, 1);
    assert_eq!(f.fd, 4);
}

#[test]
fn sqe_flag_and_user_data_setters() {
    let mut sqe = SQE::nop();
    sqe.set_user_data(11);
    assert_eq!(sqe.raw.user_data, 11);
    sqe.set_flags(SQEFlags { bits: SQE_FIXED_FILE });
    assert_eq!(sqe.raw.flags.bits, SQE_FIXED_FILE);
    sqe.enable_flags(SQEFlags { bits: SQE_ASYNC });
    assert_eq!(sqe.raw.flags.bits, SQE_FIXED_FILE | SQE_ASYNC);
}

#[test]
fn flag_words_truncate_and_test() {
    let f = SetupFlags::from_bits_truncate(0xffff_ffff);
    assert_eq!(f.bits(), 0x7f);
    assert!(f.contains(SETUP_IOPOLL));
    assert!(f.contains(SETUP_SQPOLL | SETUP_CLAMP));
    let mut e = EnterFlags::empty();
    assert_eq!(e.bits(), 0);
    e.insert(ENTER_SQ_WAKEUP);
    assert_eq!(e.bits(), ENTER_SQ_WAKEUP);
}

#[test]
fn register_opcodes_follow_the_kernel() {
    assert_eq!(RegisterOp::RegisterBuffers.opcode(), 0);
    assert_eq!(RegisterOp::UnregisterBuffers.opcode(), 1);
    assert_eq!(RegisterOp::RegisterFiles.opcode(), 2);
    assert_eq!(RegisterOp::UnregisterFiles.opcode(), 3);
    assert_eq!(RegisterOp::RegisterEnableRings.opcode(), 12);
}

#[test]
fn mmap_sizes_follow_the_offsets() {
    let mut p = RawRingParams::zeroed();
    p.sq_entries = 32;
    p.cq_entries = 64;
    p.sq_off.array = 384;
    p.cq_off.cqes = 320;
    let (sq_sz, cq_sz, sqes_sz) = mmap_sizes(&p);
    assert_eq!(sq_sz, 384 + 32 * 4);
    assert_eq!(cq_sz, 320 + 64 * 16);
    assert_eq!(sqes_sz, 32 * 64);
    // With the single-mapping feature both rings use the larger size.
    p.features = 1;
    let (sq_sz, cq_sz, _) = mmap_sizes(&p);
    assert_eq!(sq_sz, 320 + 64 * 16);
    assert_eq!(cq_sz, 320 + 64 * 16);
}

#[test]
fn submit_decision_covers_all_modes() {
    let plain = SetupFlags { bits: 0 };
    let sqpoll = SetupFlags { bits: SETUP_SQPOLL };
    // Interrupt-driven rings always enter.
    let (enter, flags) = submit_decision(&plain, 0, 0);
    assert!(enter);
    assert_eq!(flags.bits, 0);
    // A polling ring whose thread sleeps needs a wakeup.
    let (enter, flags) = submit_decision(&sqpoll, SQ_NEED_WAKEUP, 0);
    assert!(enter);
    assert_eq!(flags.bits, ENTER_SQ_WAKEUP);
    // A running polling thread needs no call unless the caller waits.
    let (enter, flags) = submit_decision(&sqpoll, 0, 0);
    assert!(!enter);
    assert_eq!(flags.bits, 0);
    let (enter, _) = submit_decision(&sqpoll, 0, 2);
    assert!(enter);
}

#[test]
fn needs_flush_reads_the_overflow_bit() {
    assert!(needs_flush_word(SQ_CQ_OVERFLOW));
    assert!(needs_flush_word(SQ_CQ_OVERFLOW | SQ_NEED_WAKEUP));
    assert!(!needs_flush_word(SQ_NEED_WAKEUP));
    assert!(!needs_flush_word(0));
}
