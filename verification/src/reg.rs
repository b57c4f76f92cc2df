//! The registrar: register and unregister a fixed-buffer array or a fixed
//! file-descriptor array.  The registered objects are not owned; the caller
//! must keep them valid until they are unregistered or the ring is torn
//! down.  The state here records what the kernel currently holds registered,
//! and the rules the kernel enforces: one array at a time per kind, never an
//! empty one.

use vstd::prelude::*;

verus! {

use crate::utils::EBUSY;
use crate::utils::EINVAL;
use crate::utils::ENXIO;
use crate::utils::Errno;

/// An I/O vector descriptor as the register call takes it: a raw base
/// address and a length in bytes.
#[derive(Clone, Copy, Debug, PartialEq, Eq, Structural)]
pub struct RawIoVec {
    pub base: u64,
    pub len: u64,
}

/// The ghost image of the registrar.
pub struct RegView {
    pub files: Option<Seq<i32>>,
    pub buffers: Option<Seq<RawIoVec>>,
}

/// What the kernel holds registered for one ring.
pub struct Registrar {
    pub(crate) files: Option<Vec<i32>>,
    pub(crate) buffers: Option<Vec<RawIoVec>>,
}

impl View for Registrar {
    type V = RegView;

    closed spec fn view(&self) -> RegView {
        RegView {
            files: match self.files {
                Some(ref v) => Some(v@),
                None => None,
            },
            buffers: match self.buffers {
                Some(ref v) => Some(v@),
                None => None,
            },
        }
    }
}

/// The largest fixed-file array the kernel accepts.
pub const REGISTER_MAX_FILES: usize = 32768;

/// The largest fixed-buffer array the kernel accepts.
pub const REGISTER_MAX_BUFFERS: usize = 1024;

impl Registrar {
    /// A registrar with nothing registered.
    pub fn new() -> (r: Self)
        ensures
            r@.files is None,
            r@.buffers is None,
    {
        Registrar { files: None, buffers: None }
    }

    /// Registers a fixed-buffer array.  Fails with the in-use error when an
    /// array is already registered, and with the invalid-argument error for
    /// an empty array or one over the kernel's limit.
    pub fn register_buffers(&mut self, iovecs: &Vec<RawIoVec>) -> (r: Result<(), Errno>)
        ensures
            old(self)@.buffers is Some ==> r == Err::<(), Errno>(Errno(EBUSY)) && final(self)@
                == old(self)@,
            old(self)@.buffers is None && !(0 < iovecs@.len() <= REGISTER_MAX_BUFFERS) ==> r
                == Err::<(), Errno>(Errno(EINVAL)) && final(self)@ == old(self)@,
            old(self)@.buffers is None && 0 < iovecs@.len() <= REGISTER_MAX_BUFFERS ==> r == Ok::<
                (),
                Errno,
            >(()) && final(self)@ == (RegView {
                buffers: Some(iovecs@),
                files: old(self)@.files,
            }),
    {
        if self.buffers.is_some() {
            return Err(Errno(EBUSY));
        }
        if iovecs.len() == 0 || iovecs.len() > REGISTER_MAX_BUFFERS {
            return Err(Errno(EINVAL));
        }
        let copy = copy_iovecs(iovecs);
        self.buffers = Some(copy);
        Ok(())
    }

    /// Unregisters the fixed-buffer array.  Fails with the no-such-device
    /// error when none is registered.
    pub fn unregister_buffers(&mut self) -> (r: Result<(), Errno>)
        ensures
            old(self)@.buffers is None ==> r == Err::<(), Errno>(Errno(ENXIO)) && final(self)@
                == old(self)@,
            old(self)@.buffers is Some ==> r == Ok::<(), Errno>(()) && final(self)@ == (RegView {
                buffers: None,
                files: old(self)@.files,
            }),
    {
        if self.buffers.is_some() {
            self.buffers = None;
            Ok(())
        } else {
            Err(Errno(ENXIO))
        }
    }

    /// Registers a fixed file-descriptor array; same rules as for buffers,
    /// under the file-table limit.
    pub fn register_files(&mut self, fds: &Vec<i32>) -> (r: Result<(), Errno>)
        ensures
            old(self)@.files is Some ==> r == Err::<(), Errno>(Errno(EBUSY)) && final(self)@
                == old(self)@,
            old(self)@.files is None && !(0 < fds@.len() <= REGISTER_MAX_FILES) ==> r == Err::<
                (),
                Errno,
            >(Errno(EINVAL)) && final(self)@ == old(self)@,
            old(self)@.files is None && 0 < fds@.len() <= REGISTER_MAX_FILES ==> r == Ok::<
                (),
                Errno,
            >(()) && final(self)@ == (RegView {
                files: Some(fds@),
                buffers: old(self)@.buffers,
            }),
    {
        if self.files.is_some() {
            return Err(Errno(EBUSY));
        }
        if fds.len() == 0 || fds.len() > REGISTER_MAX_FILES {
            return Err(Errno(EINVAL));
        }
        let copy = copy_fds(fds);
        self.files = Some(copy);
        Ok(())
    }

    /// Unregisters the fixed file-descriptor array.
    pub fn unregister_files(&mut self) -> (r: Result<(), Errno>)
        ensures
            old(self)@.files is None ==> r == Err::<(), Errno>(Errno(ENXIO)) && final(self)@
                == old(self)@,
            old(self)@.files is Some ==> r == Ok::<(), Errno>(()) && final(self)@ == (RegView {
                files: None,
                buffers: old(self)@.buffers,
            }),
    {
        if self.files.is_some() {
            self.files = None;
            Ok(())
        } else {
            Err(Errno(ENXIO))
        }
    }
}

/// An element-for-element copy of a descriptor array.
fn copy_iovecs(src: &Vec<RawIoVec>) -> (r: Vec<RawIoVec>)
    ensures
        r@ == src@,
{
    let mut out: Vec<RawIoVec> = Vec::new();
    proof {
        assert(out@ =~= src@.take(0));
    }
    let mut i: usize = 0;
    while i < src.len()
        invariant
            i <= src@.len(),
            out@ == src@.take(i as int),
        decreases src@.len() - i,
    {
        out.push(src[i]);
        proof {
            assert(src@.take(i as int + 1) =~= src@.take(i as int).push(src@[i as int]));
        }
        i = i + 1;
    }
    proof {
        assert(src@.take(src@.len() as int) =~= src@);
    }
    out
}

/// An element-for-element copy of a file-descriptor array.
fn copy_fds(src: &Vec<i32>) -> (r: Vec<i32>)
    ensures
        r@ == src@,
{
    let mut out: Vec<i32> = Vec::new();
    proof {
        assert(out@ =~= src@.take(0));
    }
    let mut i: usize = 0;
    while i < src.len()
        invariant
            i <= src@.len(),
            out@ == src@.take(i as int),
        decreases src@.len() - i,
    {
        out.push(src[i]);
        proof {
            assert(src@.take(i as int + 1) =~= src@.take(i as int).push(src@[i as int]));
        }
        i = i + 1;
    }
    proof {
        assert(src@.take(src@.len() as int) =~= src@);
    }
    out
}

} // verus!
