//! Creating user processes: loading an ELF image into a fresh address space, choosing the
//! initial heap and handing the new process to the architecture's executor.
use vstd::prelude::*;
use crate::mm::addr::VirtAddr;
use crate::proc::{BreakError, Pid, Process, ProcessHeap, ProcessId, ProcessKind, ProcessState};
use crate::proc::elf::{
    load_elf_into, plan_matches, plan_result, wx_ok, ElfLoadError, ElfLoader, LoadPlan,
    LoadPolicy, LoadSegment, header_of, loader_accepts, first_refusal, load_headers,
};
use crate::align::align_up_spec;
use crate::vfs::fd::{FdTable, FileRef, FD_MAX};
use vstd::arithmetic::power2::{lemma_pow2_pos, pow2};

verus! {

/// Specification of a user stack layout.
#[derive(Debug, Clone, Copy)]
pub struct StackSpec {
    /// The start virtual address of the stack (lowest address).
    pub start: VirtAddr,
    /// The end virtual address of the stack (highest address).
    pub end: VirtAddr,
    /// The initial stack pointer value.
    pub initial_sp: VirtAddr,
}

/// Specification of the kernel and user stack layout for a process.
#[derive(Debug, Clone, Copy)]
pub struct ProcessStackLayout {
    /// The user stack specification.
    pub user_stack: StackSpec,
    /// The kernel stack specification.
    pub kernel_stack: StackSpec,
}

/// The default memory layout for user processes on the current architecture.
pub trait ProcessMemoryLayout {
    /// Returns the default stack layout for user processes, including both user and kernel
    /// stacks.
    fn default_stack_layout(&self) -> ProcessStackLayout;
}

/// Possible errors when loading a process.
#[derive(Debug, Clone, Copy, PartialEq, Eq, Structural)]
pub enum ProcessLoadError {
    /// Architecture-specific loading error.
    ArchError,
    /// ELF loading error.
    ElfLoadError(ElfLoadError),
}

impl From<ElfLoadError> for ProcessLoadError {
    fn from(e: ElfLoadError) -> (r: Self)
        ensures
            r == ProcessLoadError::ElfLoadError(e),
    {
        ProcessLoadError::ElfLoadError(e)
    }
}

impl vstd::std_specs::convert::FromSpecImpl<ElfLoadError> for ProcessLoadError {
    open spec fn obeys_from_spec() -> bool {
        true
    }

    open spec fn from_spec(v: ElfLoadError) -> ProcessLoadError {
        ProcessLoadError::ElfLoadError(v)
    }
}

/// Prepares architecture state for user processes running in address spaces of type `A`,
/// and enqueues them.
pub trait UserProcessExecutor<A> {
    /// Prepares arch state for `proc`, running in address space `aspace`, and enqueues it;
    /// returns its process id. The first schedule of this process lands in the
    /// return-to-user trampoline, which starts at `entry` on the stacks of `stack`.
    fn enqueue_user(&self, proc: Process, aspace: A, entry: VirtAddr, stack: ProcessStackLayout) -> ProcessId
        requires
            proc.kind == ProcessKind::User,
            proc.state == ProcessState::Running,
            proc.parent is None,
            proc.children@.len() == 0,
    ;
}

/// The most `PT_LOAD` segments a user image may have.
pub const USER_MAX_SEGMENTS: usize = 16;

/// The policy user images are loaded with: no segment both writable and executable, no base
/// hint, and at most [`USER_MAX_SEGMENTS`] loadable segments.
pub open spec fn user_load_policy() -> LoadPolicy {
    LoadPolicy { allow_wx: false, pie_base_hint: 0, max_segments: USER_MAX_SEGMENTS }
}

/// The highest end address (`vaddr + mem_size`) of the segments; 0 when there are none.
pub open spec fn segments_end(segs: Seq<LoadSegment>) -> int
    decreases segs.len(),
{
    if segs.len() == 0 {
        0
    } else {
        let rest = segments_end(segs.drop_last());
        let e = segs.last().vaddr@ + segs.last().mem_size;
        if e > rest {
            e
        } else {
            rest
        }
    }
}

/// Where the heap of a process loaded with `segs` starts: the first page boundary at or
/// after the end of its highest segment, if that is an address.
pub open spec fn heap_base(segs: Seq<LoadSegment>, page: int) -> Option<usize> {
    let b = align_up_spec(segments_end(segs), page);
    if b <= usize::MAX {
        Some(b as usize)
    } else {
        None
    }
}

/// The first page boundary at or after the end of the highest segment of `plan`, or `None`
/// if that lies beyond the address space.
pub fn heap_start(plan: &LoadPlan, page: usize) -> (r: Option<VirtAddr>)
    requires
        page > 0,
    ensures
        match r {
            Some(v) => heap_base(plan.segments@, page as int) == Some(v@),
            None => heap_base(plan.segments@, page as int) is None,
        },
{
    let mut end: usize = 0;
    let mut overflow = false;
    let mut i: usize = 0;
    while i < plan.segments.len()
        invariant
            i <= plan.segments@.len(),
            overflow ==> segments_end(plan.segments@.subrange(0, i as int)) > usize::MAX,
            !overflow ==> end == segments_end(plan.segments@.subrange(0, i as int)),
        decreases plan.segments@.len() - i,
    {
        let seg = &plan.segments[i];
        let ghost prefix = plan.segments@.subrange(0, i as int + 1);
        assert(prefix.drop_last() =~= plan.segments@.subrange(0, i as int));
        assert(prefix.last() == plan.segments@[i as int]);
        if !overflow {
            match seg.vaddr.as_usize().checked_add(seg.mem_size) {
                Some(e) => {
                    if e > end {
                        end = e;
                    }
                },
                None => {
                    overflow = true;
                },
            }
        } else {
            assert(segments_end(prefix) >= segments_end(prefix.drop_last()));
        }
        i += 1;
    }
    assert(plan.segments@.subrange(0, plan.segments@.len() as int) =~= plan.segments@);
    if overflow {
        return None;
    }
    let rem = end % page;
    if rem == 0 {
        Some(VirtAddr::new_unchecked(end))
    } else {
        assert(rem <= end) by (nonlinear_arith)
            requires
                rem == end % page,
                page > 0,
        ;
        let down = end - rem;
        match down.checked_add(page) {
            Some(b) => Some(VirtAddr::new_unchecked(b)),
            None => None,
        }
    }
}

/// A fresh, running user process with logical PID `pid`, no parent and no children, whose
/// empty heap starts at `heap_base`.
pub open spec fn is_new_user_process(p: Process, pid: Pid, heap_base: VirtAddr) -> bool {
    &&& p.kind == ProcessKind::User
    &&& p.state == ProcessState::Running
    &&& p.pid == pid
    &&& p.parent is None
    &&& p.children@.len() == 0
    &&& p.heap.base_spec() == heap_base@
    &&& p.heap.brk_spec() == heap_base@
    &&& p.heap.mapped_end_spec() == heap_base@
    &&& p.fds.wf()
    &&& p.fds.slots_spec()[0] == Some(FileRef::Console)
    &&& p.fds.slots_spec()[1] == Some(FileRef::Console)
    &&& p.fds.slots_spec()[2] == Some(FileRef::Console)
    &&& forall|i: int| 3 <= i < FD_MAX ==> (#[trigger] p.fds.slots_spec()[i]) is None
}

/// Builds the record of a freshly loaded user process.
pub fn new_user_process(pid: Pid, heap_base: VirtAddr) -> (r: Process)
    ensures
        is_new_user_process(r, pid, heap_base),
{
    Process {
        kind: ProcessKind::User,
        state: ProcessState::Running,
        pid,
        parent: None,
        children: Vec::new(),
        heap: ProcessHeap::new(heap_base),
        fds: FdTable::with_stdio(FileRef::Console, FileRef::Console, FileRef::Console),
    }
}

/// Builds, loads and schedules user processes on the current architecture.
pub trait ProcessBuilder {
    /// The process loader.
    type Loader: ElfLoader;

    /// The process executor.
    type Executor: UserProcessExecutor<<Self::Loader as ElfLoader>::AddrSpace>;

    /// The process memory layout.
    type MemoryLayout: ProcessMemoryLayout;

    /// Returns a reference to the loader.
    fn loader(&self) -> &Self::Loader;

    /// Returns a reference to the executor.
    fn executor(&self) -> &Self::Executor;

    /// Returns a reference to the memory layout.
    fn memory_layout(&self) -> &Self::MemoryLayout;

    /// Sets up the initial stack memory for the process, after its image has been loaded.
    /// The returned layout must match the allocated stack memory regions.
    fn setup_stack_memory(&self, aspace: &mut <Self::Loader as ElfLoader>::AddrSpace) -> Result<ProcessStackLayout, ElfLoadError>;

    /// Adjusts the program break of `proc` by `increment`; returns the previous break.
    fn adjust_program_break(&self, proc: &mut Process, increment: isize) -> Result<VirtAddr, BreakError>;

    /// Creates a new process by duplicating the given parent process.
    fn fork(&self, parent: &Process) -> Process;

    /// Destroys the given process, cleaning up any resources associated with it.
    fn destroy(&self, process: Process);

}

/// Every step of spawning a process from image `b` succeeds with `builder`: creating the
/// address space, every loader call, the placement of the heap within the address space and
/// the setup of the stacks; and no segment is refused.
pub open spec fn builder_accepts<B: ProcessBuilder>(builder: &B, b: Seq<u8>) -> bool {
    &&& forall|a: &mut <B::Loader as ElfLoader>::AddrSpace, res: Result<ProcessStackLayout, ElfLoadError>|
        #[trigger] call_ensures(B::setup_stack_memory, (builder, a), res) ==> res is Ok
    &&& forall|ldr: &B::Loader|
        #[trigger] call_ensures(B::loader, (builder,), ldr) ==> {
            &&& forall|res: Result<<B::Loader as ElfLoader>::AddrSpace, <B::Loader as ElfLoader>::Error>|
                #[trigger] call_ensures(<B::Loader as ElfLoader>::new_user_addr_space, (ldr,), res) ==> res is Ok
            &&& loader_accepts(ldr)
            &&& forall|page: usize|
                #[trigger] call_ensures(<B::Loader as ElfLoader>::page_size, (ldr,), page) ==> first_refusal(
                    load_headers(b),
                    user_load_policy(),
                    page as int,
                    0,
                ) is None && forall|plan: LoadPlan| #[trigger] plan_matches(plan, b) ==> heap_base(plan.segments@, page as int) is Some
        }
}

/// Loads a user process from its ELF image with logical PID `logical_pid` and enqueues it
/// for scheduling; returns the new process id.
///
/// A fresh address space is created, the image is loaded into it under
/// [`user_load_policy`], the stacks are set up, and a process built by
/// [`new_user_process`] (its heap starting at [`heap_start`] of the plan) is handed to the
/// executor with the plan's entry point. Failing to create the address space is an
/// [`ProcessLoadError::ArchError`]; any other failure is the [`ElfLoadError`] that caused
/// it (`OutOfBounds` when the heap would start beyond the address space).
pub fn spawn_user_with_pid<B: ProcessBuilder>(builder: &B, bytes: &[u8], logical_pid: Pid) -> (r: Result<ProcessId, ProcessLoadError>)
    ensures
        r is Ok ==> plan_result(bytes@, user_load_policy()) is None,
        plan_result(bytes@, user_load_policy()) matches Some(e) ==> (
            r == Err::<ProcessId, ProcessLoadError>(ProcessLoadError::ArchError)
            || r == Err::<ProcessId, ProcessLoadError>(ProcessLoadError::ElfLoadError(e))),
        r == Err::<ProcessId, ProcessLoadError>(ProcessLoadError::ArchError) ==> exists|
            ldr: &B::Loader,
            res: Result<<B::Loader as ElfLoader>::AddrSpace, <B::Loader as ElfLoader>::Error>,
        |
            #![trigger call_ensures(B::loader, (builder,), ldr), call_ensures(<B::Loader as ElfLoader>::new_user_addr_space, (ldr,), res)]
            call_ensures(B::loader, (builder,), ldr) && call_ensures(
                <B::Loader as ElfLoader>::new_user_addr_space,
                (ldr,),
                res,
            ) && res is Err,
        r matches Err(ProcessLoadError::ElfLoadError(e)) ==> {
            ||| exists|ldr: &B::Loader, a: &mut <B::Loader as ElfLoader>::AddrSpace, res: Result<LoadPlan, ElfLoadError>|
                #![trigger call_ensures(B::loader, (builder,), ldr), call_ensures(load_elf_into::<B::Loader>, (ldr, a, bytes, user_load_policy()), res)]
                call_ensures(B::loader, (builder,), ldr) && call_ensures(
                    load_elf_into::<B::Loader>,
                    (ldr, a, bytes, user_load_policy()),
                    res,
                ) && res == Err::<LoadPlan, ElfLoadError>(e)
            ||| e == ElfLoadError::OutOfBounds && exists|ldr: &B::Loader, page: usize, plan: LoadPlan|
                #![trigger call_ensures(B::loader, (builder,), ldr), call_ensures(<B::Loader as ElfLoader>::page_size, (ldr,), page), plan_matches(plan, bytes@)]
                call_ensures(B::loader, (builder,), ldr) && call_ensures(<B::Loader as ElfLoader>::page_size, (ldr,), page)
                    && plan_matches(plan, bytes@) && heap_base(plan.segments@, page as int) is None
            ||| exists|a: &mut <B::Loader as ElfLoader>::AddrSpace, res: Result<ProcessStackLayout, ElfLoadError>|
                #[trigger] call_ensures(B::setup_stack_memory, (builder, a), res) && res == Err::<ProcessStackLayout, ElfLoadError>(e)
        },
        builder_accepts(builder, bytes@) && plan_result(bytes@, user_load_policy()) is None ==> r is Ok,
        r matches Ok(id) ==> exists|
            ex: &B::Executor,
            proc: Process,
            aspace: <B::Loader as ElfLoader>::AddrSpace,
            entry: VirtAddr,
            stack: ProcessStackLayout,
            out: ProcessId,
        |
            #[trigger] call_ensures(
                <B::Executor as UserProcessExecutor<<B::Loader as ElfLoader>::AddrSpace>>::enqueue_user,
                (ex, proc, aspace, entry, stack),
                out,
            ) && {
                &&& out == id
                &&& call_ensures(B::executor, (builder,), ex)
                &&& proc.kind == ProcessKind::User
                &&& proc.state == ProcessState::Running
                &&& proc.pid == logical_pid
                &&& proc.parent is None
                &&& proc.children@.len() == 0
                &&& proc.heap.brk_spec() == proc.heap.base_spec()
                &&& proc.heap.mapped_end_spec() == proc.heap.base_spec()
                &&& proc.fds.wf()
                &&& proc.fds.slots_spec()[0] == Some(FileRef::Console)
                &&& proc.fds.slots_spec()[1] == Some(FileRef::Console)
                &&& proc.fds.slots_spec()[2] == Some(FileRef::Console)
                &&& forall|i: int| 3 <= i < FD_MAX ==> (#[trigger] proc.fds.slots_spec()[i]) is None
                &&& entry@ == header_of(bytes@).entry as usize
                &&& exists|ldr: &B::Loader, page: usize, plan: LoadPlan|
                    #![trigger call_ensures(B::loader, (builder,), ldr), call_ensures(<B::Loader as ElfLoader>::page_size, (ldr,), page), plan_matches(plan, bytes@)]
                    call_ensures(B::loader, (builder,), ldr) && call_ensures(<B::Loader as ElfLoader>::page_size, (ldr,), page)
                        && plan_matches(plan, bytes@) && heap_base(plan.segments@, page as int) == Some(proc.heap.base_spec())
                &&& exists|a: &mut <B::Loader as ElfLoader>::AddrSpace, res: Result<ProcessStackLayout, ElfLoadError>|
                    #[trigger] call_ensures(B::setup_stack_memory, (builder, a), res) && res == Ok::<ProcessStackLayout, ElfLoadError>(stack)
            },
{
    let loader = builder.loader();
    let mut aspace = match loader.new_user_addr_space() {
        Ok(a) => a,
        Err(_) => {
            return Err(ProcessLoadError::ArchError);
        },
    };
    let policy = LoadPolicy { allow_wx: false, pie_base_hint: 0, max_segments: USER_MAX_SEGMENTS };
    let plan = match load_elf_into(loader, &mut aspace, bytes, policy) {
        Ok(p) => p,
        Err(e) => {
            return Err(ProcessLoadError::ElfLoadError(e));
        },
    };
    let page = loader.page_size();
    proof {
        let k = choose|k: nat| pow2(k) == page as nat;
        lemma_pow2_pos(k);
    }
    let heap = match heap_start(&plan, page) {
        Some(h) => h,
        None => {
            return Err(ProcessLoadError::ElfLoadError(ElfLoadError::OutOfBounds));
        },
    };
    let stack = match builder.setup_stack_memory(&mut aspace) {
        Ok(layout) => layout,
        Err(e) => {
            return Err(ProcessLoadError::ElfLoadError(e));
        },
    };
    let proc = new_user_process(logical_pid, heap);
    let id = builder.executor().enqueue_user(proc, aspace, plan.entry, stack);
    Ok(id)
}

} // verus!
