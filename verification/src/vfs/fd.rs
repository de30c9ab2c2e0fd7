//! File descriptor tables.
use vstd::prelude::*;
use crate::syscall::Errno;

verus! {

/// A file descriptor: an index into a process's file descriptor table.
#[derive(Debug, Clone, Copy, PartialEq, Eq, Structural)]
pub struct Fd(usize);

impl Fd {
    /// The index.
    pub closed spec fn index(&self) -> usize {
        self.0
    }

    /// The descriptor with index `fd`.
    pub fn new(fd: usize) -> (r: Self)
        ensures
            r.index() == fd,
    {
        Fd(fd)
    }

    /// Returns the index.
    pub fn as_usize(&self) -> (r: usize)
        ensures
            r == self.index(),
    {
        self.0
    }
}

/// Number of descriptors of a table.
pub const FD_MAX: usize = 32;

/// Flags for opening a file.
#[derive(Debug, Clone, Copy, PartialEq, Eq, Structural)]
pub struct OpenFlags {
    bits: u32,
}

impl OpenFlags {
    /// The file has read access.
    pub const READ: u32 = 1;
    /// The file has write access.
    pub const WRITE: u32 = 2;

    /// The raw bits.
    pub closed spec fn view_bits(self) -> u32 {
        self.bits
    }

    /// Builds flags from raw bits, dropping unknown bits.
    pub fn from_bits_truncate(bits: u32) -> (r: Self)
        ensures
            r.view_bits() == bits & 3,
    {
        OpenFlags { bits: bits & 3 }
    }

    /// Whether all bits of `flag` are set.
    pub fn contains(&self, flag: u32) -> (r: bool)
        ensures
            r == (self.view_bits() & flag == flag),
    {
        self.bits & flag == flag
    }

    /// Returns the raw bits.
    pub fn bits(&self) -> (r: u32)
        ensures
            r == self.view_bits(),
    {
        self.bits
    }

    /// Whether a file opened with these flags may be read: `BadF` unless it has `READ`.
    pub fn check_read(&self) -> (r: Result<(), Errno>)
        ensures
            self.view_bits() & OpenFlags::READ == OpenFlags::READ ==> r is Ok,
            self.view_bits() & OpenFlags::READ != OpenFlags::READ ==> r == Err::<(), Errno>(Errno::BadF),
    {
        if self.contains(OpenFlags::READ) {
            Ok(())
        } else {
            Err(Errno::BadF)
        }
    }

    /// Whether a file opened with these flags may be written: `BadF` unless it has `WRITE`.
    pub fn check_write(&self) -> (r: Result<(), Errno>)
        ensures
            self.view_bits() & OpenFlags::WRITE == OpenFlags::WRITE ==> r is Ok,
            self.view_bits() & OpenFlags::WRITE != OpenFlags::WRITE ==> r == Err::<(), Errno>(Errno::BadF),
    {
        if self.contains(OpenFlags::WRITE) {
            Ok(())
        } else {
            Err(Errno::BadF)
        }
    }
}

/// What a descriptor refers to: the console, or entry `n` of the kernel's table of open
/// files.
#[derive(Debug, Clone, Copy, PartialEq, Eq, Structural)]
pub enum FileRef {
    /// The console.
    Console,
    /// An open file of the kernel's table.
    Open(usize),
}

/// Per-process file descriptor table of `FD_MAX` slots.
pub struct FdTable<T> {
    slots: Vec<Option<T>>,
}

impl<T> FdTable<T> {
    /// The slots, by descriptor index.
    pub closed spec fn slots_spec(&self) -> Seq<Option<T>> {
        self.slots@
    }

    /// The table has `FD_MAX` slots.
    pub closed spec fn wf(&self) -> bool {
        self.slots@.len() == FD_MAX
    }

    /// Whether the table has its `FD_MAX` slots.
    pub fn is_wf(&self) -> (r: bool)
        ensures
            r == self.wf(),
    {
        self.slots.len() == FD_MAX
    }

    /// Creates a table with every descriptor closed.
    pub fn empty() -> (r: Self)
        ensures
            r.wf(),
            forall|i: int| 0 <= i < FD_MAX ==> (#[trigger] r.slots_spec()[i]) is None,
    {
        let mut slots: Vec<Option<T>> = Vec::new();
        while slots.len() < FD_MAX
            invariant
                slots@.len() <= FD_MAX,
                forall|i: int| 0 <= i < slots@.len() ==> (#[trigger] slots@[i]) is None,
            decreases FD_MAX - slots@.len(),
        {
            slots.push(None);
        }
        FdTable { slots }
    }

    /// Creates a table whose descriptors 0, 1 and 2 are the given standard input, output and
    /// error files.
    pub fn with_stdio(stdin: T, stdout: T, stderr: T) -> (r: Self)
        ensures
            r.wf(),
            r.slots_spec()[0] == Some(stdin),
            r.slots_spec()[1] == Some(stdout),
            r.slots_spec()[2] == Some(stderr),
            forall|i: int| 3 <= i < FD_MAX ==> (#[trigger] r.slots_spec()[i]) is None,
    {
        let mut t = Self::empty();
        t.slots.set(0, Some(stdin));
        t.slots.set(1, Some(stdout));
        t.slots.set(2, Some(stderr));
        t
    }

    /// The file open at `fd`, or `BadF` if `fd` is out of range or closed.
    pub fn get(&self, fd: Fd) -> (r: Result<&T, Errno>)
        requires
            self.wf(),
        ensures
            fd.index() < FD_MAX && self.slots_spec()[fd.index() as int] is Some ==> r == Ok::<&T, Errno>(
                &self.slots_spec()[fd.index() as int]->Some_0,
            ),
            !(fd.index() < FD_MAX && self.slots_spec()[fd.index() as int] is Some) ==> r == Err::<&T, Errno>(Errno::BadF),
    {
        if fd.0 < self.slots.len() {
            match &self.slots[fd.0] {
                Some(f) => Ok(f),
                None => Err(Errno::BadF),
            }
        } else {
            Err(Errno::BadF)
        }
    }

    /// Installs `file` at the lowest closed descriptor and returns it, or `MFile` if every
    /// descriptor is open.
    pub fn allocate(&mut self, file: T) -> (r: Result<Fd, Errno>)
        requires
            old(self).wf(),
        ensures
            final(self).wf(),
            match r {
                Ok(fd) => fd.index() < FD_MAX && old(self).slots_spec()[fd.index() as int] is None
                    && (forall|i: int| 0 <= i < fd.index() ==> (#[trigger] old(self).slots_spec()[i]) is Some)
                    && final(self).slots_spec() == old(self).slots_spec().update(fd.index() as int, Some(file)),
                Err(e) => e == Errno::MFile && final(self).slots_spec() == old(self).slots_spec()
                    && forall|i: int| 0 <= i < FD_MAX ==> (#[trigger] old(self).slots_spec()[i]) is Some,
            },
    {
        let mut i: usize = 0;
        while i < FD_MAX
            invariant
                self.slots@.len() == FD_MAX,
                self.slots@ == old(self).slots_spec(),
                i <= FD_MAX,
                forall|k: int| 0 <= k < i ==> (#[trigger] self.slots@[k]) is Some,
            decreases FD_MAX - i,
        {
            let open = match &self.slots[i] {
                Some(_) => true,
                None => false,
            };
            if !open {
                self.slots.set(i, Some(file));
                return Ok(Fd(i));
            }
            i += 1;
        }
        Err(Errno::MFile)
    }

    /// Closes `fd`; `BadF` if it is out of range or already closed.
    pub fn close(&mut self, fd: Fd) -> (r: Result<(), Errno>)
        requires
            old(self).wf(),
        ensures
            final(self).wf(),
            fd.index() < FD_MAX && old(self).slots_spec()[fd.index() as int] is Some ==> r is Ok
                && final(self).slots_spec() == old(self).slots_spec().update(fd.index() as int, None),
            !(fd.index() < FD_MAX && old(self).slots_spec()[fd.index() as int] is Some) ==> r == Err::<(), Errno>(Errno::BadF)
                && final(self).slots_spec() == old(self).slots_spec(),
    {
        if fd.0 < self.slots.len() {
            let open = match &self.slots[fd.0] {
                Some(_) => true,
                None => false,
            };
            if !open {
                return Err(Errno::BadF);
            }
            self.slots.set(fd.0, None);
            Ok(())
        } else {
            Err(Errno::BadF)
        }
    }
}

} // verus!
