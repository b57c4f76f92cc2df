//! Small shared helpers: the error kind carrying an OS error number, the
//! conversion of raw system-call and completion results into `Result`, and a
//! conditional constructor.

use vstd::prelude::*;

verus! {

// Error numbers the model reports, as defined by the Linux ABI.
pub const EINVAL: i32 = 22;

pub const EBUSY: i32 = 16;

pub const ENXIO: i32 = 6;

/// An error kind carrying a raw OS error number.
#[derive(Clone, Copy, Debug, PartialEq, Eq, Structural)]
pub struct Errno(pub i32);

impl Errno {
    /// The raw OS error number, suitable for a standard OS-error value.
    pub fn raw_os_error(&self) -> (r: i32)
        ensures
            r == self.0,
    {
        self.0
    }
}

/// Turns a raw system-call return into a `Result`: a negative return means
/// the error number passed alongside it applies.
pub fn libc_call(ret: i32, errno: i32) -> (r: Result<i32, Errno>)
    ensures
        ret >= 0 ==> r == Ok::<i32, Errno>(ret),
        ret < 0 ==> r == Err::<i32, Errno>(Errno(errno)),
{
    if ret < 0 {
        Err(Errno(errno))
    } else {
        Ok(ret)
    }
}

/// Turns a completion result into a `Result`: non-negative results are
/// counts, negative results carry the OS error number negated.
pub fn resultify(x: i32) -> (r: Result<u32, Errno>)
    ensures
        x >= 0 ==> r == Ok::<u32, Errno>(x as u32),
        i32::MIN < x < 0 ==> r == Err::<u32, Errno>(Errno(-x as i32)),
        x == i32::MIN ==> r == Err::<u32, Errno>(Errno(i32::MIN)),
{
    if x >= 0 {
        Ok(x as u32)
    } else if x == i32::MIN {
        Err(Errno(i32::MIN))
    } else {
        Err(Errno(-x))
    }
}

/// Builds a value only when the condition holds.
pub fn some_if<T, F: FnOnce() -> T>(cond: bool, f: F) -> (r: Option<T>)
    requires
        cond ==> call_requires(f, ()),
    ensures
        cond <==> r is Some,
        r matches Some(v) ==> call_ensures(f, (), v),
{
    if cond {
        Some(f())
    } else {
        None
    }
}

} // verus!
