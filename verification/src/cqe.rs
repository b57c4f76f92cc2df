//! The completion entry handed to the caller: a thin typed wrapper around
//! the raw completion record.

use vstd::prelude::*;

verus! {

use crate::sys::RawCQE;
use crate::utils::resultify;
use crate::utils::Errno;

/// A completion entry: user data, a signed result, and a flags word.
#[derive(Clone, Copy, Debug, PartialEq, Eq, Structural)]
pub struct CQE {
    pub cqe: RawCQE,
}

impl CQE {
    /// Builds an entry from its three fields.
    pub fn new(user_data: u64, res: i32, flags: u32) -> (r: Self)
        ensures
            r.cqe == (RawCQE { user_data, res, flags }),
    {
        CQE { cqe: RawCQE { user_data, res, flags } }
    }

    pub fn user_data(&self) -> (r: u64)
        ensures
            r == self.cqe.user_data,
    {
        self.cqe.user_data
    }

    pub fn raw_result(&self) -> (r: i32)
        ensures
            r == self.cqe.res,
    {
        self.cqe.res
    }

    pub fn raw_flags(&self) -> (r: u32)
        ensures
            r == self.cqe.flags,
    {
        self.cqe.flags
    }

    /// The result as the operation's `Result`: a non-negative `res` is a
    /// count, a negative `res` is the OS error number negated.
    pub fn io_result(&self) -> (r: Result<u32, Errno>)
        ensures
            self.cqe.res >= 0 ==> r == Ok::<u32, Errno>(self.cqe.res as u32),
            i32::MIN < self.cqe.res < 0 ==> r == Err::<u32, Errno>(Errno(-self.cqe.res as i32)),
            self.cqe.res == i32::MIN ==> r == Err::<u32, Errno>(Errno(i32::MIN)),
    {
        resultify(self.cqe.res)
    }

    /// Whether the operation failed.
    pub fn is_err(&self) -> (r: bool)
        ensures
            r == (self.cqe.res < 0),
    {
        self.cqe.res < 0
    }
}

} // verus!
