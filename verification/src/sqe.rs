//! The submission entry the caller prepares in place: a typed wrapper around
//! the raw submission record, with the preparation helpers for the supported
//! operations.

use vstd::prelude::*;

verus! {

use crate::sys::FsyncFlags;
use crate::sys::RawSQE;
use crate::sys::RingOp;
use crate::sys::SQEFlags;

/// A submission entry.
#[derive(Clone, Copy, Debug, PartialEq, Eq, Structural)]
pub struct SQE {
    pub raw: RawSQE,
}

impl SQE {
    /// A fresh no-op entry; the state of every slot at setup.
    pub fn nop() -> (r: Self)
        ensures
            r.raw == RawSQE::prep_nop_spec(),
    {
        SQE { raw: RawSQE::prep_nop() }
    }

    pub fn set_flags(&mut self, flags: SQEFlags)
        ensures
            final(self).raw == (RawSQE { flags, ..old(self).raw }),
    {
        self.raw.set_flags(flags);
    }

    pub fn enable_flags(&mut self, flags: SQEFlags)
        ensures
            final(self).raw == (RawSQE {
                flags: SQEFlags { bits: old(self).raw.flags.bits | flags.bits },
                ..old(self).raw
            }),
    {
        self.raw.enable_flags(flags);
    }

    pub fn set_user_data(&mut self, user_data: u64)
        ensures
            final(self).raw == (RawSQE { user_data, ..old(self).raw }),
    {
        self.raw.set_user_data(user_data);
    }

    /// Rewrites the entry as a no-op.
    pub fn prep_nop(&mut self)
        ensures
            final(self).raw == RawSQE::prep_nop_spec(),
    {
        self.raw = RawSQE::prep_nop();
    }

    /// Rewrites the entry as a vectored read of `nr_vecs` I/O vectors at
    /// address `iovecs` from `fd` at `offset`.
    pub fn prep_readv(&mut self, fd: i32, iovecs: u64, nr_vecs: u32, offset: u64)
        ensures
            final(self).raw == RawSQE::prep_readv_spec(fd, iovecs, nr_vecs, offset),
    {
        self.raw = RawSQE::prep_readv(fd, iovecs, nr_vecs, offset);
    }

    /// Rewrites the entry as a vectored write; fields as in `prep_readv`.
    pub fn prep_writev(&mut self, fd: i32, iovecs: u64, nr_vecs: u32, offset: u64)
        ensures
            final(self).raw == RawSQE::prep_writev_spec(fd, iovecs, nr_vecs, offset),
    {
        self.raw = RawSQE::prep_writev(fd, iovecs, nr_vecs, offset);
    }

    /// Rewrites the entry as a file synchronisation of `fd`.
    pub fn prep_fsync(&mut self, fd: i32, flags: FsyncFlags)
        ensures
            final(self).raw == RawSQE::prep_fsync_spec(fd, flags),
    {
        self.raw = RawSQE::prep_fsync(fd, flags);
    }
}

} // verus!
