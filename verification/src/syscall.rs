//! System call support: user pointers, error numbers and the decisions of the syscall
//! handlers.
use vstd::prelude::*;
use core::marker::PhantomData;
use crate::proc::BreakError;

verus! {

/// Error numbers reported to userspace.
#[derive(Debug, Clone, Copy, PartialEq, Eq, Structural)]
pub enum Errno {
    /// Invalid argument.
    Inval,
    /// Bad file descriptor.
    BadF,
    /// Too many open files.
    MFile,
    /// No child processes.
    Child,
    /// Out of memory.
    NoMem,
    /// Function not implemented.
    NoSys,
    /// Input/output error.
    Io,
    /// Is a directory.
    IsDir,
    /// No such file or directory.
    NoEnt,
    /// Not a directory.
    NotDir,
}

/// A raw pointer to a user-space memory location.
///
/// User memory cannot be dereferenced from kernel space directly; the address is carried
/// until it is accessed through the user-copy routines.
#[derive(Debug)]
pub struct UserPtr<T> {
    addr: usize,
    _marker: PhantomData<T>,
}

impl<T> UserPtr<T> {
    /// The user-space address.
    pub closed spec fn addr_spec(&self) -> usize {
        self.addr
    }

    /// Marks a raw user-space pointer.
    pub fn new(addr: usize) -> (r: Self)
        ensures
            r.addr_spec() == addr,
    {
        UserPtr { addr, _marker: PhantomData }
    }

    /// Returns the user-space address.
    pub fn addr(&self) -> (r: usize)
        ensures
            r == self.addr_spec(),
    {
        self.addr
    }
}

/// The length of the NUL-terminated string at the start of `buf` (bytes copied from user
/// space, at most the size of the kernel buffer), or `Inval` when `buf` holds no NUL.
pub fn cstr_len(buf: &[u8]) -> (r: Result<usize, Errno>)
    ensures
        match r {
            Ok(n) => n < buf@.len() && buf@[n as int] == 0 && forall|k: int| 0 <= k < n ==> buf@[k] != 0,
            Err(e) => e == Errno::Inval && forall|k: int| 0 <= k < buf@.len() ==> buf@[k] != 0,
        },
{
    let mut i: usize = 0;
    while i < buf.len()
        invariant
            i <= buf@.len(),
            forall|k: int| 0 <= k < i ==> buf@[k] != 0,
        decreases buf@.len() - i,
    {
        if buf[i] == 0 {
            return Ok(i);
        }
        i += 1;
    }
    Err(Errno::Inval)
}

/// The error number reported for a failed program-break adjustment.
pub fn break_errno(e: BreakError) -> (r: Errno)
    ensures
        e == BreakError::InvalidIncrement ==> r == Errno::Inval,
        e == BreakError::OutOfMemory ==> r == Errno::NoMem,
{
    match e {
        BreakError::InvalidIncrement => Errno::Inval,
        BreakError::OutOfMemory => Errno::NoMem,
    }
}

} // verus!
