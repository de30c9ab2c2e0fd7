//! Process management: process records, the generational process table, and the
//! bookkeeping decisions taken when processes fork, exit and are reaped.
use vstd::prelude::*;
use crate::mm::addr::VirtAddr;
use crate::vfs::fd::{FdTable, FileRef};
use crate::proc::children::{live_children, lemma_live_children_step, lemma_live_children_empty, lemma_live_children_same};

pub mod elf;
pub mod spawn;
pub mod wait;
pub mod children;

verus! {

/// Logical process identifier, exposed to userspace.
#[derive(Debug, Clone, Copy, PartialEq, Eq, Structural)]
pub struct Pid(usize);

impl Pid {
    /// Raw value of the logical PID reserved for the userspace init process.
    pub const INIT_RAW: usize = 1;

    /// The raw value of this PID.
    pub closed spec fn value(&self) -> usize {
        self.0
    }

    /// Logical PID reserved for the userspace init process.
    pub fn init() -> (r: Pid)
        ensures
            r.value() == Pid::INIT_RAW,
    {
        Pid(Pid::INIT_RAW)
    }

    /// Returns the raw numerical value of this PID.
    pub fn as_usize(self) -> (r: usize)
        ensures
            r == self.value(),
    {
        self.0
    }
}

impl From<Pid> for usize {
    fn from(pid: Pid) -> (r: usize)
        ensures
            r == pid.value(),
    {
        pid.as_usize()
    }
}

impl vstd::std_specs::convert::FromSpecImpl<Pid> for usize {
    open spec fn obeys_from_spec() -> bool {
        false
    }

    open spec fn from_spec(v: Pid) -> usize {
        v.value()
    }
}

/// A discriminant between user and kernel processes.
#[derive(Debug, Clone, Copy, PartialEq, Eq, Structural)]
pub enum ProcessKind {
    /// A user-space process, running in user mode with its own address space.
    User,
    /// A kernel thread, running in kernel mode and sharing the kernel address space.
    Kernel,
}

/// The execution state of a process.
#[derive(Debug, Clone, Copy, PartialEq, Eq, Structural)]
pub enum ProcessState {
    /// The process can be scheduled.
    Running,
    /// The process is waiting for an event.
    Waiting,
    /// The process has exited and waits for its parent to collect its exit status.
    Zombie {
        /// The exit code of the process.
        exit_code: usize,
    },
}

/// Error type for process heap adjustment (program break) operations.
#[derive(Debug, Clone, Copy, PartialEq, Eq, Structural)]
pub enum BreakError {
    /// The increment is invalid.
    InvalidIncrement,
    /// Cannot allocate additional memory.
    OutOfMemory,
}

impl BreakError {
    /// A human-readable description of the error.
    pub fn message(&self) -> (r: &'static str)
        ensures
            *self == BreakError::InvalidIncrement ==> r@ == "invalid increment"@,
            *self == BreakError::OutOfMemory ==> r@ == "out of memory"@,
    {
        match self {
            BreakError::InvalidIncrement => "invalid increment",
            BreakError::OutOfMemory => "out of memory",
        }
    }
}

/// The heap of a process: its base, the program break and the mapped end.
#[derive(Debug, Clone, Copy)]
pub struct ProcessHeap {
    base: VirtAddr,
    brk: VirtAddr,
    mapped_end: VirtAddr,
}

impl ProcessHeap {
    /// The base address of the heap.
    pub closed spec fn base_spec(&self) -> usize {
        self.base@
    }

    /// The current program break.
    pub closed spec fn brk_spec(&self) -> usize {
        self.brk@
    }

    /// The highest address mapped for the heap.
    pub closed spec fn mapped_end_spec(&self) -> usize {
        self.mapped_end@
    }

    /// Creates an empty heap at `base`: the program break and the mapped end are at the
    /// base.
    pub fn new(base: VirtAddr) -> (r: Self)
        ensures
            r.base_spec() == base@,
            r.brk_spec() == base@,
            r.mapped_end_spec() == base@,
    {
        ProcessHeap { base, brk: base, mapped_end: base }
    }

    /// Returns the current program break (end of the heap).
    pub fn brk(&self) -> (r: VirtAddr)
        ensures
            r@ == self.brk_spec(),
    {
        self.brk
    }

    /// Returns the highest virtual address that has been mapped for the heap.
    pub fn mapped_end(&self) -> (r: VirtAddr)
        ensures
            r@ == self.mapped_end_spec(),
    {
        self.mapped_end
    }

    /// Returns the space between the program break and the mapped end: heap memory that can
    /// be reserved without mapping new pages.
    pub fn available_space(&self) -> (r: usize)
        requires
            self.brk_spec() <= self.mapped_end_spec(),
        ensures
            r == self.mapped_end_spec() - self.brk_spec(),
    {
        self.mapped_end.as_usize() - self.brk.as_usize()
    }

    /// Returns the total allocated size of the heap: from its base to the program break.
    pub fn allocated_size(&self) -> (r: usize)
        requires
            self.base_spec() <= self.brk_spec(),
        ensures
            r == self.brk_spec() - self.base_spec(),
    {
        self.brk.as_usize() - self.base.as_usize()
    }

    /// Reserves `increment` bytes of heap without mapping new pages.
    ///
    /// If there is enough available space, the program break moves up by `increment` and
    /// the previous program break is returned. Otherwise `None` is returned and nothing
    /// changes.
    pub fn try_reserve(&mut self, increment: usize) -> (r: Option<VirtAddr>)
        requires
            old(self).brk_spec() <= old(self).mapped_end_spec(),
        ensures
            final(self).base_spec() == old(self).base_spec(),
            final(self).mapped_end_spec() == old(self).mapped_end_spec(),
            old(self).mapped_end_spec() - old(self).brk_spec() >= increment ==> (r matches Some(prev) && prev@ == old(self).brk_spec() && final(self).brk_spec() == old(self).brk_spec()
                + increment),
            old(self).mapped_end_spec() - old(self).brk_spec() < increment ==> r is None && final(self).brk_spec() == old(self).brk_spec(),
    {
        if self.available_space() >= increment {
            let prev_brk = self.brk;
            self.brk = self.brk + increment;
            Some(prev_brk)
        } else {
            None
        }
    }

    /// Gives back `increment` bytes of heap by lowering the program break. The mapped end
    /// is unchanged, so the space can be reserved again without mapping.
    ///
    /// Returns the previous program break, or `InvalidIncrement` if `increment` exceeds the
    /// allocated size of the heap.
    pub fn reclaim(&mut self, increment: usize) -> (r: Result<VirtAddr, BreakError>)
        requires
            old(self).base_spec() <= old(self).brk_spec(),
        ensures
            final(self).base_spec() == old(self).base_spec(),
            final(self).mapped_end_spec() == old(self).mapped_end_spec(),
            increment > old(self).brk_spec() - old(self).base_spec() ==> r == Err::<
                VirtAddr,
                BreakError,
            >(BreakError::InvalidIncrement) && final(self).brk_spec() == old(self).brk_spec(),
            increment <= old(self).brk_spec() - old(self).base_spec() ==> (r matches Ok(prev)
                && prev@ == old(self).brk_spec() && final(self).brk_spec() == old(self).brk_spec()
                - increment),
    {
        if increment > self.allocated_size() {
            return Err(BreakError::InvalidIncrement);
        }
        let prev_brk = self.brk;
        self.brk = self.brk - increment;
        Ok(prev_brk)
    }

    /// Extends the heap after new pages were mapped: the program break moves up by
    /// `increment` and the mapped end by `mapped_increment`.
    pub fn extend_reservation(&mut self, increment: usize, mapped_increment: usize)
        requires
            old(self).brk_spec() + increment <= usize::MAX,
            old(self).mapped_end_spec() + mapped_increment <= usize::MAX,
        ensures
            final(self).base_spec() == old(self).base_spec(),
            final(self).brk_spec() == old(self).brk_spec() + increment,
            final(self).mapped_end_spec() == old(self).mapped_end_spec() + mapped_increment,
    {
        self.brk = self.brk + increment;
        self.mapped_end = self.mapped_end + mapped_increment;
    }
}


} // verus!

verus! {

/// A handle for a process in the process table: a slot index plus the generation of the
/// slot when the process was stored, so stale handles are detected.
#[derive(Debug, Clone, Copy, PartialEq, Eq, Structural)]
pub struct ProcessId {
    idx: usize,
    generation: usize,
}

impl ProcessId {
    /// The slot index.
    pub closed spec fn index(&self) -> usize {
        self.idx
    }

    /// The slot generation.
    pub closed spec fn gen(&self) -> usize {
        self.generation
    }
}

/// A process record.
pub struct Process {
    /// User process or kernel thread.
    pub kind: ProcessKind,
    /// The current execution state.
    pub state: ProcessState,
    /// The logical process identifier.
    pub pid: Pid,
    /// The parent process, if any.
    pub parent: Option<ProcessId>,
    /// The child processes.
    pub children: Vec<ProcessId>,
    /// Heap information for the process.
    pub heap: ProcessHeap,
    /// The open file descriptors.
    pub fds: FdTable<FileRef>,
}

/// A versioned slot in the process table.
struct ProcessSlot {
    generation: usize,
    process: Option<Process>,
}

/// The process table: stores all processes and hands out generational handles.
pub struct ProcessTable {
    slots: Vec<ProcessSlot>,
    free: Vec<usize>,
    next_pid: usize,
    init_id: Option<ProcessId>,
}

/// The process table entries as seen through a handle: a handle is live only while its
/// generation matches its slot's.
pub open spec fn slot_lookup(gens: Seq<usize>, procs: Seq<Option<Process>>, id: ProcessId) -> Option<
    Process,
> {
    if id.index() < gens.len() && gens[id.index() as int] == id.gen() {
        procs[id.index() as int]
    } else {
        None
    }
}

impl ProcessTable {
    /// The generation of each slot.
    pub closed spec fn gens(&self) -> Seq<usize> {
        self.slots@.map_values(|s: ProcessSlot| s.generation)
    }

    /// The process held in each slot.
    pub closed spec fn procs(&self) -> Seq<Option<Process>> {
        self.slots@.map_values(|s: ProcessSlot| s.process)
    }

    /// The process a handle refers to, if the handle is live.
    pub open spec fn lookup(&self, id: ProcessId) -> Option<Process> {
        slot_lookup(self.gens(), self.procs(), id)
    }

    /// The next logical PID to hand out.
    pub closed spec fn next_pid_spec(&self) -> usize {
        self.next_pid
    }

    /// The registered init process handle.
    pub closed spec fn init_spec(&self) -> Option<ProcessId> {
        self.init_id
    }

    /// Free-list consistency: exactly the empty slots are listed, each once.
    pub closed spec fn wf(&self) -> bool {
        &&& forall|k: int|
            0 <= k < self.free@.len() ==> #[trigger] self.free@[k] < self.slots@.len()
                && self.slots@[self.free@[k] as int].process is None
        &&& self.free@.no_duplicates()
        &&& forall|i: int|
            0 <= i < self.slots@.len() && #[trigger] self.slots@[i].process is None
                ==> self.free@.contains(i as usize)
        &&& self.next_pid >= 2
    }

    /// No live handle refers to an empty slot.
    pub open spec fn handle_not_vacant(&self, id: ProcessId) -> bool {
        id.index() < self.gens().len() && self.gens()[id.index() as int] == id.gen() ==> self.procs()[id.index() as int] is Some
    }

    /// Creates a new, empty process table.
    pub fn new() -> (r: Self)
        ensures
            r.wf(),
            forall|id: ProcessId| r.lookup(id) is None,
            r.next_pid_spec() == 2,
            r.init_spec() is None,
    {
        ProcessTable {
            slots: Vec::new(),
            free: Vec::new(),
            next_pid: 2,  // 0 unused, 1 reserved for init
            init_id: None,
        }
    }

    /// Stores a new process and returns its handle, reusing a free slot if there is one.
    pub fn allocate(&mut self, p: Process) -> (r: ProcessId)
        requires
            old(self).wf(),
        ensures
            final(self).wf(),
            old(self).lookup(r) is None,
            final(self).lookup(r) == Some(p),
            forall|id: ProcessId| id != r ==> final(self).lookup(id) == old(self).lookup(id),
            final(self).next_pid_spec() == old(self).next_pid_spec(),
            final(self).init_spec() == old(self).init_spec(),
    {
        let ghost old_slots = self.slots@;
        let ghost old_free = self.free@;
        let idx = match self.free.pop() {
            Some(idx) => {
                proof {
                    assert(self.free@ =~= old(self).free@.drop_last());
                    assert(old(self).free@[old(self).free@.len() - 1] == idx);
                }
                idx
            },
            None => {
                self.slots.push(ProcessSlot { generation: 0, process: None });
                self.slots.len() - 1
            },
        };
        let generation = self.slots[idx].generation;
        let ghost before = self.slots@;
        self.slots.set(idx, ProcessSlot { generation, process: Some(p) });
        let r = ProcessId { idx, generation };
        proof {
            assert forall|k: int| 0 <= k < self.free@.len() implies #[trigger] self.free@[k]
                < self.slots@.len() && self.slots@[self.free@[k] as int].process is None by {
                assert(old(self).free@.contains(self.free@[k]));
                assert(self.free@[k] != idx) by {
                    if self.free@[k] == idx {
                        assert(old(self).free@[k] == old(self).free@[old(self).free@.len() - 1]);
                    }
                }
            }
            assert forall|i: int| 0 <= i < self.slots@.len() && #[trigger] self.slots@[i].process is None
                implies self.free@.contains(i as usize) by {
                assert(i != idx);
                assert(self.slots@.len() == self.slots.len());
                assert(i as usize == i);
                assert(i < old_slots.len());
                assert(self.slots@[i] == old_slots[i]);
                assert(old(self).free@.contains(i as usize));
                let k = choose|k: int| 0 <= k < old_free.len() && old_free[k] == i as usize;
                if old_free.len() > 0 {
                    assert(self.free@ =~= old_free.drop_last());
                    assert(idx == old_free[old_free.len() - 1]);
                    if k == old_free.len() - 1 {
                        assert(false);
                    } else {
                        assert(self.free@[k] == i as usize);
                    }
                }
            }
        }
        r
    }
}


impl ProcessTable {
    /// Returns the process a handle refers to, if the handle is live.
    pub fn get(&self, pid: ProcessId) -> (r: Option<&Process>)
        ensures
            match r {
                Some(p) => self.lookup(pid) == Some(*p),
                None => self.lookup(pid) is None,
            },
    {
        if pid.idx < self.slots.len() {
            let slot = &self.slots[pid.idx];
            if slot.generation == pid.generation {
                return match &slot.process {
                    Some(p) => Some(p),
                    None => None,
                };
            }
        }
        None
    }

    /// Gives mutable access to the process a handle refers to, if the handle is live. Only
    /// that process changes, and it stays in its slot.
    pub fn get_mut(&mut self, pid: ProcessId) -> (r: Option<&mut Process>)
        requires
            old(self).wf(),
        ensures
            match r {
                Some(p) => {
                    &&& old(self).lookup(pid) == Some(*p)
                    &&& final(self).lookup(pid) == Some(*final(p))
                    &&& forall|id: ProcessId| id != pid ==> final(self).lookup(id) == old(self).lookup(id)
                    &&& final(self).gens() == old(self).gens()
                    &&& final(self).next_pid_spec() == old(self).next_pid_spec()
                    &&& final(self).init_spec() == old(self).init_spec()
                    &&& final(self).wf()
                },
                None => old(self).lookup(pid) is None && *final(self) == *old(self),
            },
    {
        if pid.idx < self.slots.len() && self.slots[pid.idx].generation == pid.generation
            && self.slots[pid.idx].process.is_some() {
            let slot = &mut self.slots[pid.idx];
            match &mut slot.process {
                Some(p) => Some(p),
                None => None,
            }
        } else {
            None
        }
    }

    /// Removes the process a handle refers to, invalidating every handle to its slot and
    /// putting the slot up for reuse.
    ///
    /// Returns the removed process, or `None` if the handle is stale.
    pub fn take(&mut self, pid: ProcessId) -> (r: Option<Process>)
        requires
            old(self).wf(),
            old(self).handle_not_vacant(pid),
            pid.gen() < usize::MAX,
        ensures
            final(self).wf(),
            r == old(self).lookup(pid),
            final(self).lookup(pid) is None,
            forall|id: ProcessId| id != pid ==> final(self).lookup(id) == old(self).lookup(id),
            final(self).next_pid_spec() == old(self).next_pid_spec(),
            final(self).init_spec() == old(self).init_spec(),
            forall|i: int| 0 <= i < old(self).gens().len() && i != pid.index() ==> final(self).gens()[i] == old(self).gens()[i]
                && final(self).procs()[i] == old(self).procs()[i],
            final(self).gens().len() == old(self).gens().len(),
            final(self).procs().len() == old(self).procs().len(),
            old(self).lookup(pid) is Some ==> final(self).gens()[pid.index() as int] == old(self).gens()[pid.index() as int] + 1,
            old(self).lookup(pid) is None ==> final(self).gens() == old(self).gens() && final(self).procs() == old(self).procs(),
    {
        if pid.idx < self.slots.len() && self.slots[pid.idx].generation == pid.generation {
            let ghost old_slots = self.slots@;
            let ghost old_free = self.free@;
            let generation = self.slots[pid.idx].generation + 1;
            let mut slot = ProcessSlot { generation, process: None };
            self.slots.set_and_swap(pid.idx, &mut slot);
            let process = slot.process;
            self.free.push(pid.idx);
            proof {
                assert(!old_free.contains(pid.idx)) by {
                    if old_free.contains(pid.idx) {
                        let k = choose|k: int| 0 <= k < old_free.len() && old_free[k] == pid.idx;
                        assert(old_slots[old_free[k] as int].process is None);
                    }
                }
                assert forall|k: int| 0 <= k < self.free@.len() implies #[trigger] self.free@[k]
                    < self.slots@.len() && self.slots@[self.free@[k] as int].process is None by {
                    if k < old_free.len() {
                        assert(self.free@[k] == old_free[k]);
                    }
                }
                assert forall|i: int| 0 <= i < self.slots@.len() && #[trigger] self.slots@[i].process is None
                    implies self.free@.contains(i as usize) by {
                    assert(self.slots@.len() == self.slots.len());
                    assert(i as usize == i);
                    if i == pid.idx {
                        assert(self.free@[old_free.len() as int] == pid.idx);
                    } else {
                        assert(old_slots[i] == self.slots@[i]);
                        let k = choose|k: int| 0 <= k < old_free.len() && old_free[k] == i as usize;
                        assert(self.free@[k] == i as usize);
                    }
                }
                assert(self.free@.no_duplicates()) by {
                    assert forall|a: int, b: int| 0 <= a < b < self.free@.len() implies self.free@[a] != self.free@[b] by {
                        if b == old_free.len() {
                            assert(self.free@[a] == old_free[a]);
                        } else {
                            assert(self.free@[a] == old_free[a]);
                            assert(self.free@[b] == old_free[b]);
                        }
                    }
                }
            }
            process
        } else {
            None
        }
    }

    /// Sets the execution state of a live process.
    pub fn set_state(&mut self, pid: ProcessId, state: ProcessState)
        requires
            old(self).wf(),
            old(self).lookup(pid) is Some,
        ensures
            final(self).wf(),
            final(self).lookup(pid) matches Some(p) && p.state == state && p.kind == old(self).lookup(pid)->Some_0.kind
                && p.pid == old(self).lookup(pid)->Some_0.pid && p.parent == old(self).lookup(pid)->Some_0.parent
                && p.children@ == old(self).lookup(pid)->Some_0.children@,
            forall|id: ProcessId| id != pid ==> final(self).lookup(id) == old(self).lookup(id),
            final(self).gens() == old(self).gens(),
            final(self).next_pid_spec() == old(self).next_pid_spec(),
            final(self).init_spec() == old(self).init_spec(),
    {
        let ghost old_slots = self.slots@;
        let mut slot = ProcessSlot { generation: 0, process: None };
        self.slots.set_and_swap(pid.idx, &mut slot);
        if let Some(p) = &mut slot.process {
            p.state = state;
        }
        self.slots.set_and_swap(pid.idx, &mut slot);
        proof {
            assert(self.gens() =~= old(self).gens());
            assert forall|i: int| 0 <= i < self.slots@.len() implies (#[trigger] self.slots@[i].process is None) == (old_slots[i].process is None) by {
            }
        }
    }
}


/// The entry holds an exited kernel thread.
pub open spec fn is_zombie_kthread(o: Option<Process>) -> bool {
    match o {
        Some(p) => p.kind == ProcessKind::Kernel && p.state is Zombie,
        None => false,
    }
}

/// The process record `p` with its parent replaced.
pub open spec fn with_parent(p: Process, parent: Option<ProcessId>) -> Process {
    Process { parent: parent, ..p }
}

impl ProcessTable {
    /// Replaces the process in a live slot, keeping the slot's generation.
    fn replace_live(&mut self, pid: ProcessId, p: Process) -> (r: Process)
        requires
            old(self).wf(),
            old(self).lookup(pid) is Some,
        ensures
            final(self).wf(),
            r == old(self).lookup(pid)->Some_0,
            final(self).lookup(pid) == Some(p),
            forall|id: ProcessId| id != pid ==> final(self).lookup(id) == old(self).lookup(id),
            final(self).gens() == old(self).gens(),
            final(self).next_pid_spec() == old(self).next_pid_spec(),
            final(self).init_spec() == old(self).init_spec(),
    {
        let ghost old_slots = self.slots@;
        let mut slot = ProcessSlot { generation: pid.generation, process: Some(p) };
        self.slots.set_and_swap(pid.idx, &mut slot);
        proof {
            assert(self.gens() =~= old(self).gens());
            assert forall|i: int| 0 <= i < self.slots@.len() implies (#[trigger] self.slots@[i].process is None) == (old_slots[i].process is None) by {
            }
        }
        match slot.process {
            Some(q) => q,
            None => {
                proof { assert(false); }
                slot.process.unwrap()
            },
        }
    }

    /// Sets the parent of a live process.
    pub fn set_parent(&mut self, pid: ProcessId, parent: Option<ProcessId>)
        requires
            old(self).wf(),
            old(self).lookup(pid) is Some,
        ensures
            final(self).wf(),
            final(self).lookup(pid) matches Some(p) && p.parent == parent && p.state == old(self).lookup(pid)->Some_0.state
                && p.kind == old(self).lookup(pid)->Some_0.kind && p.pid == old(self).lookup(pid)->Some_0.pid
                && p.children@ == old(self).lookup(pid)->Some_0.children@,
            forall|id: ProcessId| id != pid ==> final(self).lookup(id) == old(self).lookup(id),
            final(self).gens() == old(self).gens(),
            final(self).next_pid_spec() == old(self).next_pid_spec(),
            final(self).init_spec() == old(self).init_spec(),
    {
        let placeholder = self.placeholder();
        let mut p = self.replace_live(pid, placeholder);
        p.parent = parent;
        let _ = self.replace_live(pid, p);
    }

    /// Appends a child handle to a live process.
    pub fn push_child(&mut self, pid: ProcessId, child: ProcessId)
        requires
            old(self).wf(),
            old(self).lookup(pid) is Some,
        ensures
            final(self).wf(),
            final(self).lookup(pid) matches Some(p) && p.children@ == old(self).lookup(pid)->Some_0.children@.push(child)
                && p.state == old(self).lookup(pid)->Some_0.state && p.kind == old(self).lookup(pid)->Some_0.kind
                && p.pid == old(self).lookup(pid)->Some_0.pid && p.parent == old(self).lookup(pid)->Some_0.parent,
            forall|id: ProcessId| id != pid ==> final(self).lookup(id) == old(self).lookup(id),
            final(self).gens() == old(self).gens(),
            final(self).next_pid_spec() == old(self).next_pid_spec(),
            final(self).init_spec() == old(self).init_spec(),
    {
        let placeholder = self.placeholder();
        let mut p = self.replace_live(pid, placeholder);
        p.children.push(child);
        let _ = self.replace_live(pid, p);
    }

    /// Removes and returns the child handles of a live process.
    pub fn take_children(&mut self, pid: ProcessId) -> (r: Vec<ProcessId>)
        requires
            old(self).wf(),
            old(self).lookup(pid) is Some,
        ensures
            final(self).wf(),
            r@ == old(self).lookup(pid)->Some_0.children@,
            final(self).lookup(pid) matches Some(p) && p.children@ == Seq::<ProcessId>::empty()
                && p.state == old(self).lookup(pid)->Some_0.state && p.kind == old(self).lookup(pid)->Some_0.kind
                && p.pid == old(self).lookup(pid)->Some_0.pid && p.parent == old(self).lookup(pid)->Some_0.parent,
            forall|id: ProcessId| id != pid ==> final(self).lookup(id) == old(self).lookup(id),
            final(self).gens() == old(self).gens(),
            final(self).next_pid_spec() == old(self).next_pid_spec(),
            final(self).init_spec() == old(self).init_spec(),
    {
        let placeholder = self.placeholder();
        let mut p = self.replace_live(pid, placeholder);
        let mut children: Vec<ProcessId> = Vec::new();
        core::mem::swap(&mut children, &mut p.children);
        let _ = self.replace_live(pid, p);
        children
    }

    /// Removes every occurrence of `child` from the children of a live process, keeping the
    /// others in order.
    pub fn remove_child(&mut self, pid: ProcessId, child: ProcessId)
        requires
            old(self).wf(),
            old(self).lookup(pid) is Some,
        ensures
            final(self).wf(),
            final(self).lookup(pid) matches Some(p) && p.children@ == old(self).lookup(pid)->Some_0.children@.filter(
                |c: ProcessId| c != child,
            ) && p.state == old(self).lookup(pid)->Some_0.state && p.kind == old(self).lookup(pid)->Some_0.kind
                && p.pid == old(self).lookup(pid)->Some_0.pid && p.parent == old(self).lookup(pid)->Some_0.parent,
            forall|id: ProcessId| id != pid ==> final(self).lookup(id) == old(self).lookup(id),
            final(self).gens() == old(self).gens(),
            final(self).next_pid_spec() == old(self).next_pid_spec(),
            final(self).init_spec() == old(self).init_spec(),
    {
        let placeholder = self.placeholder();
        let mut p = self.replace_live(pid, placeholder);
        let ghost old_children = p.children@;
        let mut kept: Vec<ProcessId> = Vec::new();
        let mut i: usize = 0;
        while i < p.children.len()
            invariant
                i <= p.children@.len(),
                p.children@ == old_children,
                kept@ == old_children.subrange(0, i as int).filter(|c: ProcessId| c != child),
            decreases p.children@.len() - i,
        {
            let c = p.children[i];
            proof {
                reveal(Seq::filter);
                assert(old_children.subrange(0, i + 1).drop_last() == old_children.subrange(0, i as int));
            }
            if c != child {
                kept.push(c);
            }
            i += 1;
        }
        proof {
            assert(old_children.subrange(0, i as int) == old_children);
        }
        p.children = kept;
        let _ = self.replace_live(pid, p);
    }

    /// A throwaway record used while a live process is being edited.
    fn placeholder(&self) -> (r: Process)
        ensures
            r.kind == ProcessKind::Kernel,
            r.state == ProcessState::Waiting,
            r.pid == Pid(0),
            r.parent is None,
            r.children@ == Seq::<ProcessId>::empty(),
            r.heap.base_spec() == 0 && r.heap.brk_spec() == 0 && r.heap.mapped_end_spec() == 0,
    {
        Process {
            kind: ProcessKind::Kernel,
            state: ProcessState::Waiting,
            pid: Pid(0),
            parent: None,
            children: Vec::new(),
            heap: ProcessHeap::new(VirtAddr::new_unchecked(0)),
            fds: FdTable::empty(),
        }
    }

    /// Removes all exited kernel threads from the table and returns them.
    #[verifier::spinoff_prover]
    pub fn take_zombie_kthreads(&mut self) -> (r: Vec<Process>)
        requires
            old(self).wf(),
            forall|i: int| 0 <= i < old(self).gens().len() ==> old(self).gens()[i] < usize::MAX,
        ensures
            final(self).wf(),
            forall|k: int| 0 <= k < r@.len() ==> r@[k].kind == ProcessKind::Kernel && r@[k].state is Zombie,
            forall|id: ProcessId| #[trigger] final(self).lookup(id) == if is_zombie_kthread(old(self).lookup(id)) {
                None
            } else {
                old(self).lookup(id)
            },
            final(self).next_pid_spec() == old(self).next_pid_spec(),
            final(self).init_spec() == old(self).init_spec(),
    {
        let ghost g0 = self.gens();
        let n = self.slots.len();
        let mut out: Vec<Process> = Vec::new();
        let mut idx: usize = 0;
        while idx < n
            invariant
                self.wf(),
                n == self.slots.len(),
                idx <= n,
                self.gens().len() == n,
                self.procs().len() == n,
                old(self).procs().len() == n,
                g0.len() == n,
                forall|i: int| 0 <= i < n ==> self.gens()[i] == g0[i] + 1 || self.gens()[i] == g0[i],
                forall|i: int| 0 <= i < n ==> g0[i] < usize::MAX,
                forall|k: int| 0 <= k < out@.len() ==> out@[k].kind == ProcessKind::Kernel && out@[k].state is Zombie,
                forall|id: ProcessId| #[trigger] self.lookup(id) == if id.index() < idx && is_zombie_kthread(old(self).lookup(id)) {
                    None
                } else {
                    old(self).lookup(id)
                },
                forall|i: int| #![trigger self.gens()[i]] #![trigger self.procs()[i]] idx <= i < n ==> self.gens()[i] == g0[i] && self.procs()[i] == old(self).procs()[i],
                self.next_pid == old(self).next_pid_spec(),
                self.init_id == old(self).init_spec(),
            decreases n - idx,
        {
            let is_zombie_kthread = match &self.slots[idx].process {
                Some(p) => p.kind == ProcessKind::Kernel && matches!(p.state, ProcessState::Zombie { .. }),
                None => false,
            };
            if is_zombie_kthread {
                let id = ProcessId { idx, generation: self.slots[idx].generation };
                proof {
                    assert(self.gens()[idx as int] == g0[idx as int]);
                    assert(old(self).lookup(id) == self.lookup(id));
                }
                let ghost bg = self.gens();
                let ghost bp = self.procs();
                assert(forall|i: int| idx <= i < n ==> bg[i] == g0[i] && bp[i] == old(self).procs()[i]);
                match self.take(id) {
                    Some(p) => out.push(p),
                    None => {},
                }
                proof {
                    assert(bg.len() == n);
                    assert(id.index() == idx);
                    assert forall|i: int| idx < i < n implies self.gens()[i] == g0[i] && self.procs()[i] == old(self).procs()[i] by {
                        assert(i != id.index());
                        assert(0 <= i < bg.len());
                        assert(self.gens()[i] == bg[i]);
                        assert(self.procs()[i] == bp[i]);
                        assert(bg[i] == g0[i] && bp[i] == old(self).procs()[i]);
                    }
                }
            }
            idx += 1;
        }
        out
    }

    /// Allocates a new unique logical process identifier; never the one reserved for init.
    pub fn alloc_pid(&mut self) -> (r: Pid)
        requires
            old(self).next_pid_spec() < usize::MAX,
        ensures
            r.value() == old(self).next_pid_spec(),
            final(self).next_pid_spec() == old(self).next_pid_spec() + 1,
            final(self).gens() == old(self).gens(),
            final(self).procs() == old(self).procs(),
            final(self).init_spec() == old(self).init_spec(),
            old(self).wf() ==> final(self).wf() && r.value() != Pid::INIT_RAW,
    {
        let pid = Pid(self.next_pid);
        self.next_pid = self.next_pid + 1;
        pid
    }

    /// Records the process-table handle of userspace init.
    pub fn set_init_id(&mut self, id: ProcessId)
        requires
            old(self).init_spec() is None,
            old(self).lookup(id) matches Some(p) && p.pid.value() == Pid::INIT_RAW,
        ensures
            final(self).init_spec() == Some(id),
            final(self).gens() == old(self).gens(),
            final(self).procs() == old(self).procs(),
            final(self).next_pid_spec() == old(self).next_pid_spec(),
            old(self).wf() ==> final(self).wf(),
    {
        self.init_id = Some(id);
    }

    /// Returns the handle of the userspace init process, if it has been registered.
    pub fn init_id(&self) -> (r: Option<ProcessId>)
        ensures
            r == self.init_spec(),
    {
        self.init_id
    }
}


/// Both tables hold processes under the same handles, with the same kinds, states and
/// logical PIDs.
pub open spec fn same_statuses(t0: &ProcessTable, t1: &ProcessTable) -> bool {
    forall|id: ProcessId|
        #![trigger t1.lookup(id)]
        (t1.lookup(id) is Some <==> t0.lookup(id) is Some) && (t0.lookup(id) is Some ==> t1.lookup(
            id,
        )->Some_0.state == t0.lookup(id)->Some_0.state && t1.lookup(id)->Some_0.kind == t0.lookup(
            id,
        )->Some_0.kind && t1.lookup(id)->Some_0.pid == t0.lookup(id)->Some_0.pid)
}

/// Marks a live process as exited with `exit_code`.
pub fn mark_as_zombie(proc_table: &mut ProcessTable, pid: ProcessId, exit_code: usize)
    requires
        old(proc_table).wf(),
        old(proc_table).lookup(pid) is Some,
    ensures
        final(proc_table).wf(),
        final(proc_table).lookup(pid) matches Some(p) && p.state == (ProcessState::Zombie { exit_code })
            && p.parent == old(proc_table).lookup(pid)->Some_0.parent
            && p.children@ == old(proc_table).lookup(pid)->Some_0.children@,
        forall|id: ProcessId| id != pid ==> final(proc_table).lookup(id) == old(proc_table).lookup(id),
        final(proc_table).init_spec() == old(proc_table).init_spec(),
        final(proc_table).next_pid_spec() == old(proc_table).next_pid_spec(),
{
    proc_table.set_state(pid, ProcessState::Zombie { exit_code });
}

/// Hands the children of a process over to userspace init: each live child gets init as
/// its parent and is appended to init's children.
pub fn reparent_children(proc_table: &mut ProcessTable, pid: ProcessId)
    requires
        old(proc_table).wf(),
        old(proc_table).lookup(pid) is Some,
        old(proc_table).init_spec() matches Some(init) && old(proc_table).lookup(init) is Some,
    ensures
        final(proc_table).wf(),
        same_statuses(old(proc_table), final(proc_table)),
        final(proc_table).init_spec() == old(proc_table).init_spec(),
        final(proc_table).next_pid_spec() == old(proc_table).next_pid_spec(),
        forall|k: int|
            0 <= k < old(proc_table).lookup(pid)->Some_0.children@.len() && old(proc_table).lookup(
                #[trigger] old(proc_table).lookup(pid)->Some_0.children@[k],
            ) is Some ==> final(proc_table).lookup(old(proc_table).lookup(pid)->Some_0.children@[k])->Some_0.parent
                == old(proc_table).init_spec(),
        forall|id: ProcessId|
            #![trigger final(proc_table).lookup(id)]
            final(proc_table).lookup(id) is Some && id != pid && id != old(proc_table).init_spec()->Some_0
                && !old(proc_table).lookup(pid)->Some_0.children@.contains(id) ==> final(proc_table).lookup(id)
                == old(proc_table).lookup(id),
        !old(proc_table).lookup(pid)->Some_0.children@.contains(pid) ==> final(proc_table).lookup(pid)->Some_0.parent
            == old(proc_table).lookup(pid)->Some_0.parent,
        old(proc_table).init_spec()->Some_0 != pid ==> final(proc_table).lookup(pid)->Some_0.children@
            == Seq::<ProcessId>::empty(),
        final(proc_table).lookup(old(proc_table).init_spec()->Some_0)->Some_0.children@ == (if old(
            proc_table,
        ).init_spec()->Some_0 == pid {
            Seq::<ProcessId>::empty()
        } else {
            old(proc_table).lookup(old(proc_table).init_spec()->Some_0)->Some_0.children@
        }) + live_children(*old(proc_table), old(proc_table).lookup(pid)->Some_0.children@),
{
    let children = proc_table.take_children(pid);
    let init_id = match proc_table.init_id() {
        Some(id) => id,
        None => {
            proof { assert(false); }
            return;
        },
    };
    let ghost t0 = *old(proc_table);
    let ghost base = if init_id == pid {
        Seq::<ProcessId>::empty()
    } else {
        t0.lookup(init_id)->Some_0.children@
    };
    proof {
        lemma_live_children_empty(t0, children@);
        assert(base + Seq::<ProcessId>::empty() =~= base);
    }
    let mut i: usize = 0;
    while i < children.len()
        invariant
            proc_table.wf(),
            i <= children.len(),
            children@ == t0.lookup(pid)->Some_0.children@,
            proc_table.lookup(init_id) is Some,
            t0.init_spec() == Some(init_id),
            proc_table.init_spec() == t0.init_spec(),
            proc_table.next_pid_spec() == t0.next_pid_spec(),
            same_statuses(&t0, proc_table),
            forall|k: int|
                0 <= k < i && t0.lookup(#[trigger] children@[k]) is Some ==> proc_table.lookup(children@[k])->Some_0.parent
                    == Some(init_id),
            forall|id: ProcessId|
                #![trigger proc_table.lookup(id)]
                proc_table.lookup(id) is Some && id != pid && id != init_id && !children@.contains(id)
                    ==> proc_table.lookup(id) == t0.lookup(id),
            !children@.contains(pid) ==> proc_table.lookup(pid)->Some_0.parent == t0.lookup(pid)->Some_0.parent,
            init_id != pid ==> proc_table.lookup(pid)->Some_0.children@ == Seq::<ProcessId>::empty(),
            proc_table.lookup(init_id)->Some_0.children@ == base + live_children(t0, children@.take(i as int)),
        decreases children.len() - i,
    {
        proof {
            lemma_live_children_step(t0, children@, i as int);
        }
        let child = children[i];
        let live = match proc_table.get(child) {
            Some(_) => true,
            None => false,
        };
        if live {
            proc_table.set_parent(child, Some(init_id));
            proc_table.push_child(init_id, child);
        }
        proof {
            assert(base + live_children(t0, children@.take(i as int)).push(child) =~= (base
                + live_children(t0, children@.take(i as int))).push(child));
        }
        i += 1;
    }
    proof {
        assert(children@.take(children@.len() as int) =~= children@);
    }
}

/// Whether a parent waiting for children finds one that has exited.
pub enum WaitPoll {
    /// A child has exited with `exit_code`.
    Ready {
        /// The exited child.
        child_pid: ProcessId,
        /// Its exit code.
        exit_code: usize,
    },
    /// The parent has no children.
    Empty,
    /// Children exist but none has exited yet.
    Pending,
}

/// Looks for an exited child of `parent_pid`, oldest child first.
pub fn poll_wait(proc_table: &ProcessTable, parent_pid: ProcessId) -> (r: WaitPoll)
    requires
        proc_table.lookup(parent_pid) is Some,
    ensures
        ({
            let kids = proc_table.lookup(parent_pid)->Some_0.children@;
            match r {
                WaitPoll::Empty => kids.len() == 0,
                WaitPoll::Ready { child_pid, exit_code } => exists|k: int|
                    #![trigger kids[k]]
                    0 <= k < kids.len() && kids[k] == child_pid && (proc_table.lookup(child_pid) matches Some(
                        c,
                    ) && c.state == (ProcessState::Zombie { exit_code })) && forall|j: int|
                        0 <= j < k ==> !(proc_table.lookup(#[trigger] kids[j]) matches Some(c) && c.state is Zombie),
                WaitPoll::Pending => kids.len() > 0 && forall|j: int|
                    0 <= j < kids.len() ==> !(proc_table.lookup(#[trigger] kids[j]) matches Some(c) && c.state is Zombie),
            }
        }),
{
    let parent = match proc_table.get(parent_pid) {
        Some(p) => p,
        None => {
            proof { assert(false); }
            return WaitPoll::Empty;
        },
    };
    if parent.children.len() == 0 {
        return WaitPoll::Empty;
    }
    let mut i: usize = 0;
    while i < parent.children.len()
        invariant
            i <= parent.children.len(),
            proc_table.lookup(parent_pid) == Some(*parent),
            forall|j: int|
                0 <= j < i ==> !(proc_table.lookup(#[trigger] parent.children@[j]) matches Some(c) && c.state is Zombie),
        decreases parent.children.len() - i,
    {
        let child_pid = parent.children[i];
        if let Some(child) = proc_table.get(child_pid) {
            if let ProcessState::Zombie { exit_code } = child.state {
                return WaitPoll::Ready { child_pid, exit_code };
            }
        }
        i += 1;
    }
    WaitPoll::Pending
}


/// Exits a process: marks it as exited with `exit_code`, hands its children to init, and
/// wakes its parent if the parent is waiting.
///
/// Returns the parent that was switched from waiting to running; the caller enqueues it
/// and switches to the next runnable process.
pub fn exit_current(proc_table: &mut ProcessTable, pid: ProcessId, exit_code: usize) -> (r: Option<ProcessId>)
    requires
        old(proc_table).wf(),
        old(proc_table).lookup(pid) is Some,
        old(proc_table).init_spec() matches Some(init) && old(proc_table).lookup(init) is Some,
    ensures
        final(proc_table).wf(),
        final(proc_table).lookup(pid) matches Some(p) && p.state == (ProcessState::Zombie { exit_code }),
        final(proc_table).init_spec() == old(proc_table).init_spec(),
        ({
            let p0 = old(proc_table).lookup(pid)->Some_0;
            !p0.children@.contains(pid) ==> match r {
                Some(q) => p0.parent == Some(q) && q != pid && (old(proc_table).lookup(q) matches Some(
                    pp,
                ) && pp.state == ProcessState::Waiting) && (final(proc_table).lookup(q) matches Some(
                    pp,
                ) && pp.state == ProcessState::Running),
                None => !(p0.parent matches Some(q) && q != pid && (old(proc_table).lookup(q) matches Some(
                    pp,
                ) && pp.state == ProcessState::Waiting)),
            }
        }),
        ({
            let init = old(proc_table).init_spec()->Some_0;
            let kids = old(proc_table).lookup(pid)->Some_0.children@;
            &&& init != pid ==> final(proc_table).lookup(pid)->Some_0.children@ == Seq::<ProcessId>::empty()
            &&& forall|k: int|
                0 <= k < kids.len() && old(proc_table).lookup(#[trigger] kids[k]) is Some
                    ==> final(proc_table).lookup(kids[k])->Some_0.parent == Some(init)
            &&& final(proc_table).lookup(init)->Some_0.children@ == (if init == pid {
                Seq::<ProcessId>::empty()
            } else {
                old(proc_table).lookup(init)->Some_0.children@
            }) + live_children(*old(proc_table), kids)
        }),
{
    mark_as_zombie(proc_table, pid, exit_code);
    proof {
        lemma_live_children_same(*old(proc_table), *proc_table, old(proc_table).lookup(pid)->Some_0.children@);
    }
    reparent_children(proc_table, pid);
    let parent = match proc_table.get(pid) {
        Some(p) => p.parent,
        None => {
            proof { assert(false); }
            None
        },
    };
    if let Some(parent_pid) = parent {
        let waiting = match proc_table.get(parent_pid) {
            Some(pp) => pp.state == ProcessState::Waiting,
            None => false,
        };
        if waiting {
            proc_table.set_state(parent_pid, ProcessState::Running);
            return Some(parent_pid);
        }
    }
    None
}

/// Exits a kernel thread: marks it as exited with code 0, without reparenting children or
/// waking a parent. Idle reaps it afterwards.
pub fn kthread_exit(proc_table: &mut ProcessTable, pid: ProcessId)
    requires
        old(proc_table).wf(),
        old(proc_table).lookup(pid) matches Some(p) && p.kind == ProcessKind::Kernel,
    ensures
        final(proc_table).wf(),
        final(proc_table).lookup(pid) matches Some(p) && p.state == (ProcessState::Zombie { exit_code: 0 })
            && p.kind == ProcessKind::Kernel,
        forall|id: ProcessId| id != pid ==> final(proc_table).lookup(id) == old(proc_table).lookup(id),
{
    proc_table.set_state(pid, ProcessState::Zombie { exit_code: 0 });
}

/// Registers a forked child: it gets `parent_pid` as parent, is stored in the table, and is
/// appended to the parent's children.
///
/// Returns the child's handle and its logical PID.
pub fn fork_process(proc_table: &mut ProcessTable, parent_pid: ProcessId, child: Process) -> (r: (ProcessId, Pid))
    requires
        old(proc_table).wf(),
        old(proc_table).lookup(parent_pid) is Some,
    ensures
        final(proc_table).wf(),
        r.1 == child.pid,
        old(proc_table).lookup(r.0) is None,
        final(proc_table).lookup(r.0) matches Some(c) && c.parent == Some(parent_pid) && c.pid == child.pid
            && c.kind == child.kind && c.state == child.state,
        final(proc_table).lookup(parent_pid) matches Some(p) && p.children@ == old(proc_table).lookup(parent_pid)->Some_0.children@.push(r.0)
            && p.state == old(proc_table).lookup(parent_pid)->Some_0.state,
        forall|id: ProcessId| id != r.0 && id != parent_pid ==> final(proc_table).lookup(id) == old(proc_table).lookup(id),
{
    let mut child = child;
    child.parent = Some(parent_pid);
    let logical_pid = child.pid;
    let child_id = proc_table.allocate(child);
    proc_table.push_child(parent_pid, child_id);
    (child_id, logical_pid)
}

/// Removes exited kernel threads from the table; the caller destroys them.
pub fn reap_zombie_kthreads(proc_table: &mut ProcessTable) -> (r: Vec<Process>)
    requires
        old(proc_table).wf(),
        forall|i: int| 0 <= i < old(proc_table).gens().len() ==> old(proc_table).gens()[i] < usize::MAX,
    ensures
        final(proc_table).wf(),
        forall|k: int| 0 <= k < r@.len() ==> r@[k].kind == ProcessKind::Kernel && r@[k].state is Zombie,
        forall|id: ProcessId| #[trigger] final(proc_table).lookup(id) == if is_zombie_kthread(old(proc_table).lookup(id)) {
            None
        } else {
            old(proc_table).lookup(id)
        },
{
    proc_table.take_zombie_kthreads()
}

/// Returns the process-table handle of userspace init.
pub fn init_process_id(proc_table: &ProcessTable) -> (r: ProcessId)
    requires
        proc_table.init_spec() is Some,
    ensures
        Some(r) == proc_table.init_spec(),
{
    match proc_table.init_id() {
        Some(id) => id,
        None => {
            proof { assert(false); }
            ProcessId { idx: 0, generation: 0 }
        },
    }
}


/// Collects an exited child that [`poll_wait`] reported: removes it from the table and from
/// its parent's children, and returns it so that it can be destroyed.
pub fn reap_child(proc_table: &mut ProcessTable, parent_pid: ProcessId, child_pid: ProcessId) -> (r: Process)
    requires
        old(proc_table).wf(),
        old(proc_table).lookup(parent_pid) is Some,
        old(proc_table).lookup(child_pid) is Some,
        child_pid != parent_pid,
        child_pid.gen() < usize::MAX,
    ensures
        final(proc_table).wf(),
        Some(r) == old(proc_table).lookup(child_pid),
        final(proc_table).lookup(child_pid) is None,
        final(proc_table).lookup(parent_pid) matches Some(p) && p.children@ == old(proc_table).lookup(parent_pid)->Some_0.children@.filter(
            |c: ProcessId| c != child_pid,
        ) && p.state == old(proc_table).lookup(parent_pid)->Some_0.state,
        forall|id: ProcessId| id != parent_pid && id != child_pid ==> final(proc_table).lookup(id) == old(proc_table).lookup(id),
        final(proc_table).init_spec() == old(proc_table).init_spec(),
        final(proc_table).next_pid_spec() == old(proc_table).next_pid_spec(),
{
    let child = proc_table.take(child_pid);
    proc_table.remove_child(parent_pid, child_pid);
    child.unwrap()
}


} // verus!
