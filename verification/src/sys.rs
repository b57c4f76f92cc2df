//! Typed shadows of the kernel ABI: the three system-call numbers, the
//! parameter and offset blocks reported at setup, the submission and
//! completion records, and every flag set, each a thin wrapper around the
//! kernel's plain bit word.  All of it is plain data; the system calls
//! themselves live outside the library.

use vstd::prelude::*;

verus! {

pub const NR_IO_URING_SETUP: i64 = 425;

pub const NR_IO_URING_ENTER: i64 = 426;

pub const NR_IO_URING_REGISTER: i64 = 427;

/// Offsets at which the three shared regions are mapped.
pub const IORING_OFF_SQ_RING: u64 = 0;

pub const IORING_OFF_CQ_RING: u64 = 0x8000000;

pub const IORING_OFF_SQES: u64 = 0x10000000;

// Setup flags: what the caller asks of the kernel at setup.
pub const SETUP_IOPOLL: u32 = 1u32 << 0;

pub const SETUP_SQPOLL: u32 = 1u32 << 1;

pub const SETUP_SQ_AFF: u32 = 1u32 << 2;

pub const SETUP_CQSIZE: u32 = 1u32 << 3;

pub const SETUP_CLAMP: u32 = 1u32 << 4;

pub const SETUP_ATTACH_WQ: u32 = 1u32 << 5;

pub const SETUP_R_DISABLED: u32 = 1u32 << 6;

pub const SETUP_ALL: u32 = 0x7f;

// Feature flags: what the kernel reports back at setup.
pub const FEATURE_SINGLE_MMAP: u32 = 1u32 << 0;

pub const FEATURE_NODROP: u32 = 1u32 << 1;

pub const FEATURE_SUBMIT_STABLE: u32 = 1u32 << 2;

pub const FEATURE_RW_CUR_POS: u32 = 1u32 << 3;

pub const FEATURE_CUR_PERSONALITY: u32 = 1u32 << 4;

pub const FEATURE_FAST_POLL: u32 = 1u32 << 5;

pub const FEATURE_POLL_32BITS: u32 = 1u32 << 6;

pub const FEATURE_SQPOLL_NONFIXED: u32 = 1u32 << 7;

pub const FEATURE_EXT_ARG: u32 = 1u32 << 8;

pub const FEATURE_ALL: u32 = 0x1ff;

// Enter flags.
pub const ENTER_GETEVENTS: u32 = 1u32 << 0;

pub const ENTER_SQ_WAKEUP: u32 = 1u32 << 1;

pub const ENTER_SQ_WAIT: u32 = 1u32 << 2;

pub const ENTER_EXT_ARG: u32 = 1u32 << 3;

pub const ENTER_ALL: u32 = 0xf;

// Per-entry submission flags (one byte inside each submission record).
pub const SQE_FIXED_FILE: u8 = 1u8 << 0;

pub const SQE_IO_DRAIN: u8 = 1u8 << 1;

pub const SQE_IO_LINK: u8 = 1u8 << 2;

pub const SQE_IO_HARDLINK: u8 = 1u8 << 3;

pub const SQE_ASYNC: u8 = 1u8 << 4;

pub const SQE_BUFFER_SELECT: u8 = 1u8 << 5;

pub const SQE_ALL: u8 = 0x3f;

// The kernel-shared submission-queue flags word.
pub const SQ_NEED_WAKEUP: u32 = 1u32 << 0;

pub const SQ_CQ_OVERFLOW: u32 = 1u32 << 1;

pub const SQ_ALL: u32 = 0x3;

// Probe-operation flags.
pub const OP_SUPPORTED: u16 = 1u16 << 0;

pub const OP_ALL: u16 = 0x1;

// Fsync flags.
pub const FSYNC_DATASYNC: u32 = 1u32 << 0;

pub const FSYNC_ALL: u32 = 0x1;

/// Flags accepted by `io_uring_setup`.
#[derive(Clone, Copy, Debug, PartialEq, Eq, Structural)]
pub struct SetupFlags {
    pub bits: u32,
}

impl SetupFlags {
    pub fn empty() -> (r: Self)
        ensures
            r.bits == 0,
    {
        SetupFlags { bits: 0 }
    }

    pub fn from_bits_truncate(bits: u32) -> (r: Self)
        ensures
            r.bits == bits & SETUP_ALL,
    {
        SetupFlags { bits: bits & SETUP_ALL }
    }

    pub fn bits(&self) -> (r: u32)
        ensures
            r == self.bits,
    {
        self.bits
    }

    pub fn contains(&self, bits: u32) -> (r: bool)
        ensures
            r == (self.bits & bits == bits),
    {
        self.bits & bits == bits
    }

    pub fn insert(&mut self, bits: u32)
        ensures
            final(self).bits == old(self).bits | bits,
    {
        self.bits = self.bits | bits;
    }
}

/// Feature bits the kernel reports at setup.
#[derive(Clone, Copy, Debug, PartialEq, Eq, Structural)]
pub struct FeatureFlags {
    pub bits: u32,
}

impl FeatureFlags {
    pub fn empty() -> (r: Self)
        ensures
            r.bits == 0,
    {
        FeatureFlags { bits: 0 }
    }

    pub fn from_bits_truncate(bits: u32) -> (r: Self)
        ensures
            r.bits == bits & FEATURE_ALL,
    {
        FeatureFlags { bits: bits & FEATURE_ALL }
    }

    pub fn bits(&self) -> (r: u32)
        ensures
            r == self.bits,
    {
        self.bits
    }

    pub fn contains(&self, bits: u32) -> (r: bool)
        ensures
            r == (self.bits & bits == bits),
    {
        self.bits & bits == bits
    }

    pub fn insert(&mut self, bits: u32)
        ensures
            final(self).bits == old(self).bits | bits,
    {
        self.bits = self.bits | bits;
    }
}

/// Flags passed to `io_uring_enter`.
#[derive(Clone, Copy, Debug, PartialEq, Eq, Structural)]
pub struct EnterFlags {
    pub bits: u32,
}

impl EnterFlags {
    pub fn empty() -> (r: Self)
        ensures
            r.bits == 0,
    {
        EnterFlags { bits: 0 }
    }

    pub fn from_bits_truncate(bits: u32) -> (r: Self)
        ensures
            r.bits == bits & ENTER_ALL,
    {
        EnterFlags { bits: bits & ENTER_ALL }
    }

    pub fn bits(&self) -> (r: u32)
        ensures
            r == self.bits,
    {
        self.bits
    }

    pub fn contains(&self, bits: u32) -> (r: bool)
        ensures
            r == (self.bits & bits == bits),
    {
        self.bits & bits == bits
    }

    pub fn insert(&mut self, bits: u32)
        ensures
            final(self).bits == old(self).bits | bits,
    {
        self.bits = self.bits | bits;
    }
}

/// Per-entry flags inside a submission record.
#[derive(Clone, Copy, Debug, PartialEq, Eq, Structural)]
pub struct SQEFlags {
    pub bits: u8,
}

impl SQEFlags {
    pub fn empty() -> (r: Self)
        ensures
            r.bits == 0,
    {
        SQEFlags { bits: 0 }
    }

    pub fn from_bits_truncate(bits: u8) -> (r: Self)
        ensures
            r.bits == bits & SQE_ALL,
    {
        SQEFlags { bits: bits & SQE_ALL }
    }

    pub fn bits(&self) -> (r: u8)
        ensures
            r == self.bits,
    {
        self.bits
    }

    pub fn contains(&self, bits: u8) -> (r: bool)
        ensures
            r == (self.bits & bits == bits),
    {
        self.bits & bits == bits
    }

    pub fn insert(&mut self, bits: u8)
        ensures
            final(self).bits == old(self).bits | bits,
    {
        self.bits = self.bits | bits;
    }
}

/// The kernel-shared submission-queue flags word (wakeup and overflow bits).
#[derive(Clone, Copy, Debug, PartialEq, Eq, Structural)]
pub struct SQFlags {
    pub bits: u32,
}

impl SQFlags {
    pub fn empty() -> (r: Self)
        ensures
            r.bits == 0,
    {
        SQFlags { bits: 0 }
    }

    pub fn from_bits_truncate(bits: u32) -> (r: Self)
        ensures
            r.bits == bits & SQ_ALL,
    {
        SQFlags { bits: bits & SQ_ALL }
    }

    pub fn bits(&self) -> (r: u32)
        ensures
            r == self.bits,
    {
        self.bits
    }

    pub fn contains(&self, bits: u32) -> (r: bool)
        ensures
            r == (self.bits & bits == bits),
    {
        self.bits & bits == bits
    }
}

/// Flags attached to each probed operation.
#[derive(Clone, Copy, Debug, PartialEq, Eq, Structural)]
pub struct OpFlags {
    pub bits: u16,
}

impl OpFlags {
    pub fn empty() -> (r: Self)
        ensures
            r.bits == 0,
    {
        OpFlags { bits: 0 }
    }

    pub fn contains(&self, bits: u16) -> (r: bool)
        ensures
            r == (self.bits & bits == bits),
    {
        self.bits & bits == bits
    }
}

/// Flags for the fsync operation.
#[derive(Clone, Copy, Debug, PartialEq, Eq, Structural)]
pub struct FsyncFlags {
    pub bits: u32,
}

impl FsyncFlags {
    pub fn empty() -> (r: Self)
        ensures
            r.bits == 0,
    {
        FsyncFlags { bits: 0 }
    }

    pub fn bits(&self) -> (r: u32)
        ensures
            r == self.bits,
    {
        self.bits
    }
}

/// A completion record exactly as the kernel writes it.
#[derive(Clone, Copy, Debug, PartialEq, Eq, Structural)]
pub struct RawCQE {
    pub user_data: u64,
    pub res: i32,
    pub flags: u32,
}

/// One probed operation.
#[derive(Clone, Copy, Debug, PartialEq, Eq, Structural)]
pub struct RawProbeOp {
    pub op: u8,
    pub resv: u8,
    pub flags: OpFlags,
    pub resv2: u32,
}

/// Header of the probe block returned by the probe register operation.
#[derive(Clone, Copy, Debug)]
pub struct RawProbe {
    /// Last opcode supported.
    pub last_op: u8,
    /// Length of the trailing operation array.
    pub ops_len: u8,
    pub resv: u16,
    pub resv2: [u32; 3],
}

/// Discriminators for `io_uring_register`, numbered 0 to 12 as in the kernel.
#[derive(Clone, Copy, Debug, PartialEq, Eq, Structural)]
pub enum RegisterOp {
    RegisterBuffers,
    UnregisterBuffers,
    RegisterFiles,
    UnregisterFiles,
    RegisterEventfd,
    UnregisterEventfd,
    RegisterFilesUpdate,
    RegisterEventfdAsync,
    RegisterProbe,
    RegisterPersonality,
    UnregisterPersonality,
    RegisterRestrictions,
    RegisterEnableRings,
}

impl RegisterOp {
    /// The numeric opcode handed to the register system call.
    pub fn opcode(&self) -> (r: u32)
        ensures
            r == self.opcode_spec(),
    {
        match self {
            RegisterOp::RegisterBuffers => 0,
            RegisterOp::UnregisterBuffers => 1,
            RegisterOp::RegisterFiles => 2,
            RegisterOp::UnregisterFiles => 3,
            RegisterOp::RegisterEventfd => 4,
            RegisterOp::UnregisterEventfd => 5,
            RegisterOp::RegisterFilesUpdate => 6,
            RegisterOp::RegisterEventfdAsync => 7,
            RegisterOp::RegisterProbe => 8,
            RegisterOp::RegisterPersonality => 9,
            RegisterOp::UnregisterPersonality => 10,
            RegisterOp::RegisterRestrictions => 11,
            RegisterOp::RegisterEnableRings => 12,
        }
    }

    pub open spec fn opcode_spec(self) -> u32 {
        match self {
            RegisterOp::RegisterBuffers => 0,
            RegisterOp::UnregisterBuffers => 1,
            RegisterOp::RegisterFiles => 2,
            RegisterOp::UnregisterFiles => 3,
            RegisterOp::RegisterEventfd => 4,
            RegisterOp::UnregisterEventfd => 5,
            RegisterOp::RegisterFilesUpdate => 6,
            RegisterOp::RegisterEventfdAsync => 7,
            RegisterOp::RegisterProbe => 8,
            RegisterOp::RegisterPersonality => 9,
            RegisterOp::UnregisterPersonality => 10,
            RegisterOp::RegisterRestrictions => 11,
            RegisterOp::RegisterEnableRings => 12,
        }
    }
}

/// The parameter block passed to and filled by `io_uring_setup`.
#[derive(Clone, Copy, Debug)]
pub struct RawRingParams {
    pub sq_entries: u32,
    pub cq_entries: u32,
    pub flags: u32,
    pub sq_thread_cpu: u32,
    pub sq_thread_idle: u32,
    pub features: u32,
    pub wq_fd: u32,
    pub resv: [u32; 3],
    pub sq_off: RawSqOffsets,
    pub cq_off: RawCqOffsets,
}

impl RawRingParams {
    /// An all-zero block, ready to be filled by the kernel.
    pub fn zeroed() -> (r: Self)
        ensures
            r.sq_entries == 0,
            r.cq_entries == 0,
            r.flags == 0,
            r.features == 0,
            r.sq_off.array == 0,
            r.cq_off.cqes == 0,
    {
        RawRingParams {
            sq_entries: 0,
            cq_entries: 0,
            flags: 0,
            sq_thread_cpu: 0,
            sq_thread_idle: 0,
            features: 0,
            wq_fd: 0,
            resv: [0, 0, 0],
            sq_off: RawSqOffsets {
                head: 0,
                tail: 0,
                ring_mask: 0,
                ring_entries: 0,
                flags: 0,
                dropped: 0,
                array: 0,
                resv1: 0,
                resv2: 0,
            },
            cq_off: RawCqOffsets {
                head: 0,
                tail: 0,
                ring_mask: 0,
                ring_entries: 0,
                overflow: 0,
                cqes: 0,
                flags: 0,
                resv1: 0,
                resv2: 0,
            },
        }
    }
}

/// Byte offsets of the shared submission-ring fields inside its mapping.
#[derive(Clone, Copy, Debug)]
pub struct RawSqOffsets {
    pub head: u32,
    pub tail: u32,
    pub ring_mask: u32,
    pub ring_entries: u32,
    pub flags: u32,
    pub dropped: u32,
    pub array: u32,
    pub resv1: u32,
    pub resv2: u64,
}

/// Byte offsets of the shared completion-ring fields inside its mapping.
#[derive(Clone, Copy, Debug)]
pub struct RawCqOffsets {
    pub head: u32,
    pub tail: u32,
    pub ring_mask: u32,
    pub ring_entries: u32,
    pub overflow: u32,
    pub cqes: u32,
    pub flags: u32,
    pub resv1: u32,
    pub resv2: u64,
}

/// Operation codes of the submission record.
#[derive(Clone, Copy, Debug, PartialEq, Eq, Structural)]
#[non_exhaustive]
pub enum RingOp {
    Nop,
    ReadV,
    WriteV,
    Fsync,
    ReadFixed,
    WriteFixed,
    PollAdd,
    PollRemove,
    SyncFileRange,
    SendMsg,
    RecvMsg,
    Timeout,
    TimeoutRemove,
    Accept,
    AsyncCancel,
    LinkTimeout,
    Connect,
    FAllocate,
    OpenAt,
    Close,
    FilesUpdate,
    Statx,
    Read,
    Write,
    FAdvise,
    MAdvise,
    Send,
    Recv,
    OpenAt2,
    EpollCtl,
    Splice,
    ProvideBuffers,
    RemoveBuffers,
    Tee,
    Shutdown,
    RenameAt,
    UnlinkAt,
    MkDirAt,
}


impl RingOp {
    /// The numeric operation code stored in the submission record.
    pub fn opcode(&self) -> (r: u8)
        ensures
            r == self.opcode_spec(),
    {
        match self {
            RingOp::Nop => 0,
            RingOp::ReadV => 1,
            RingOp::WriteV => 2,
            RingOp::Fsync => 3,
            RingOp::ReadFixed => 4,
            RingOp::WriteFixed => 5,
            RingOp::PollAdd => 6,
            RingOp::PollRemove => 7,
            RingOp::SyncFileRange => 8,
            RingOp::SendMsg => 9,
            RingOp::RecvMsg => 10,
            RingOp::Timeout => 11,
            RingOp::TimeoutRemove => 12,
            RingOp::Accept => 13,
            RingOp::AsyncCancel => 14,
            RingOp::LinkTimeout => 15,
            RingOp::Connect => 16,
            RingOp::FAllocate => 17,
            RingOp::OpenAt => 18,
            RingOp::Close => 19,
            RingOp::FilesUpdate => 20,
            RingOp::Statx => 21,
            RingOp::Read => 22,
            RingOp::Write => 23,
            RingOp::FAdvise => 24,
            RingOp::MAdvise => 25,
            RingOp::Send => 26,
            RingOp::Recv => 27,
            RingOp::OpenAt2 => 28,
            RingOp::EpollCtl => 29,
            RingOp::Splice => 30,
            RingOp::ProvideBuffers => 31,
            RingOp::RemoveBuffers => 32,
            RingOp::Tee => 33,
            RingOp::Shutdown => 34,
            RingOp::RenameAt => 35,
            RingOp::UnlinkAt => 36,
            RingOp::MkDirAt => 37,
        }
    }

    pub open spec fn opcode_spec(self) -> u8 {
        match self {
            RingOp::Nop => 0,
            RingOp::ReadV => 1,
            RingOp::WriteV => 2,
            RingOp::Fsync => 3,
            RingOp::ReadFixed => 4,
            RingOp::WriteFixed => 5,
            RingOp::PollAdd => 6,
            RingOp::PollRemove => 7,
            RingOp::SyncFileRange => 8,
            RingOp::SendMsg => 9,
            RingOp::RecvMsg => 10,
            RingOp::Timeout => 11,
            RingOp::TimeoutRemove => 12,
            RingOp::Accept => 13,
            RingOp::AsyncCancel => 14,
            RingOp::LinkTimeout => 15,
            RingOp::Connect => 16,
            RingOp::FAllocate => 17,
            RingOp::OpenAt => 18,
            RingOp::Close => 19,
            RingOp::FilesUpdate => 20,
            RingOp::Statx => 21,
            RingOp::Read => 22,
            RingOp::Write => 23,
            RingOp::FAdvise => 24,
            RingOp::MAdvise => 25,
            RingOp::Send => 26,
            RingOp::Recv => 27,
            RingOp::OpenAt2 => 28,
            RingOp::EpollCtl => 29,
            RingOp::Splice => 30,
            RingOp::ProvideBuffers => 31,
            RingOp::RemoveBuffers => 32,
            RingOp::Tee => 33,
            RingOp::Shutdown => 34,
            RingOp::RenameAt => 35,
            RingOp::UnlinkAt => 36,
            RingOp::MkDirAt => 37,
        }
    }
}

/// A submission record: the kernel's documented field order, as plain values.
/// The raw addresses an operation refers to are carried as 64-bit integers,
/// exactly as the record stores them.
#[derive(Clone, Copy, Debug, PartialEq, Eq, Structural)]
pub struct RawSQE {
    pub opcode: RingOp,
    pub flags: SQEFlags,
    pub ioprio: u16,
    pub fd: i32,
    pub arg1: u64,
    pub arg2: u64,
    pub len: u32,
    pub cmd_flags: u32,
    pub user_data: u64,
    pub buf_index_or_group: u16,
    pub personality: u16,
    pub arg3: u32,
}

impl RawSQE {
    pub fn set_user_data(&mut self, user_data: u64)
        ensures
            *final(self) == (RawSQE { user_data, ..*old(self) }),
    {
        self.user_data = user_data;
    }

    pub fn enable_flags(&mut self, flags: SQEFlags)
        ensures
            *final(self) == (RawSQE {
                flags: SQEFlags { bits: old(self).flags.bits | flags.bits },
                ..*old(self)
            }),
    {
        self.flags = SQEFlags { bits: self.flags.bits | flags.bits };
    }

    pub fn set_flags(&mut self, flags: SQEFlags)
        ensures
            *final(self) == (RawSQE { flags, ..*old(self) }),
    {
        self.flags = flags;
    }

    /// The record the read/write family prepares: every field not named by
    /// the operation is zeroed.
    pub open spec fn prep_rw_spec(op: RingOp, fd: i32, addr: u64, len: u32, offset: u64) -> RawSQE {
        RawSQE {
            opcode: op,
            flags: SQEFlags { bits: 0 },
            ioprio: 0,
            fd,
            arg1: offset,
            arg2: addr,
            len,
            cmd_flags: 0,
            user_data: 0,
            buf_index_or_group: 0,
            personality: 0,
            arg3: 0,
        }
    }

    pub open spec fn prep_nop_spec() -> RawSQE {
        Self::prep_rw_spec(RingOp::Nop, -1i32, 0, 0, 0)
    }

    pub open spec fn prep_readv_spec(fd: i32, iovecs: u64, nr_vecs: u32, offset: u64) -> RawSQE {
        Self::prep_rw_spec(RingOp::ReadV, fd, iovecs, nr_vecs, offset)
    }

    pub open spec fn prep_writev_spec(fd: i32, iovecs: u64, nr_vecs: u32, offset: u64) -> RawSQE {
        Self::prep_rw_spec(RingOp::WriteV, fd, iovecs, nr_vecs, offset)
    }

    pub open spec fn prep_fsync_spec(fd: i32, flags: FsyncFlags) -> RawSQE {
        RawSQE { cmd_flags: flags.bits, ..Self::prep_rw_spec(RingOp::Fsync, fd, 0, 0, 0) }
    }

    /// The common constructor of the read/write family.
    pub fn prep_rw(op: RingOp, fd: i32, addr: u64, len: u32, offset: u64) -> (r: Self)
        ensures
            r == Self::prep_rw_spec(op, fd, addr, len, offset),
    {
        RawSQE {
            opcode: op,
            flags: SQEFlags { bits: 0 },
            ioprio: 0,
            fd,
            arg1: offset,
            arg2: addr,
            len,
            cmd_flags: 0,
            user_data: 0,
            buf_index_or_group: 0,
            personality: 0,
            arg3: 0,
        }
    }

    /// A no-op record.
    pub fn prep_nop() -> (r: Self)
        ensures
            r == Self::prep_nop_spec(),
    {
        Self::prep_rw(RingOp::Nop, -1i32, 0, 0, 0)
    }

    /// A vectored read: `iovecs` is the address of an array of `nr_vecs`
    /// I/O vectors, valid until the operation completes.
    pub fn prep_readv(fd: i32, iovecs: u64, nr_vecs: u32, offset: u64) -> (r: Self)
        ensures
            r == Self::prep_readv_spec(fd, iovecs, nr_vecs, offset),
    {
        Self::prep_rw(RingOp::ReadV, fd, iovecs, nr_vecs, offset)
    }

    /// A vectored write; fields as in `prep_readv`.
    pub fn prep_writev(fd: i32, iovecs: u64, nr_vecs: u32, offset: u64) -> (r: Self)
        ensures
            r == Self::prep_writev_spec(fd, iovecs, nr_vecs, offset),
    {
        Self::prep_rw(RingOp::WriteV, fd, iovecs, nr_vecs, offset)
    }

    /// A file synchronisation record; the fsync flags land in `cmd_flags`.
    pub fn prep_fsync(fd: i32, flags: FsyncFlags) -> (r: Self)
        ensures
            r == Self::prep_fsync_spec(fd, flags),
    {
        let mut r = Self::prep_rw(RingOp::Fsync, fd, 0, 0, 0);
        r.cmd_flags = flags.bits;
        r
    }
}

} // verus!
