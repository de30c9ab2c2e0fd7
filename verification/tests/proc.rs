use rv6::vfs::fd::FdTable;
use rv6::proc::wait::{wait_step, WaitStep};
use rv6::mm::addr::VirtAddr;
use rv6::proc::{
    exit_current, fork_process, init_process_id, kthread_exit, poll_wait, reap_zombie_kthreads,
    BreakError, Pid, Process, ProcessHeap, ProcessKind, ProcessState, ProcessTable, WaitPoll,
};
use rv6::sched::{
    current_process_id, enqueue_process, park_current, park_poll, run_scheduler,
    switch_from_exiting, wake_process, ParkAction, RoundRobinScheduler, Scheduler,
};

fn process(kind: ProcessKind, pid: Pid) -> Process {
    Process {
        kind,
        state: ProcessState::Running,
        pid,
        parent: None,
        children: Vec::new(),
        heap: ProcessHeap::new(VirtAddr::new_unchecked(0x4000_0000)),
        fds: FdTable::empty(),
    }
}

fn spawn(t: &mut ProcessTable, kind: ProcessKind) -> rv6::proc::ProcessId {
    let pid = t.alloc_pid();
    t.allocate(process(kind, pid))
}

#[test]
fn heap_reserve_and_reclaim() {
    let mut h = ProcessHeap::new(VirtAddr::new_unchecked(0x1000));
    assert_eq!(h.try_reserve(1), None);
    h.extend_reservation(0x10, 0x1000);
    assert_eq!(h.brk(), VirtAddr::new_unchecked(0x1010));
    assert_eq!(h.mapped_end(), VirtAddr::new_unchecked(0x2000));
    assert_eq!(h.available_space(), 0xff0);
    assert_eq!(h.try_reserve(0x100), Some(VirtAddr::new_unchecked(0x1010)));
    assert_eq!(h.allocated_size(), 0x110);
    assert_eq!(h.reclaim(0x200).err(), Some(BreakError::InvalidIncrement));
    assert_eq!(h.reclaim(0x110), Ok(VirtAddr::new_unchecked(0x1110)));
    assert_eq!(h.brk(), VirtAddr::new_unchecked(0x1000));
    assert_eq!(BreakError::OutOfMemory.message(), "out of memory");
}

#[test]
fn table_handles_go_stale_after_take() {
    let mut t = ProcessTable::new();
    let pid = t.alloc_pid();
    assert_eq!(pid.as_usize(), 2);
    let a = t.allocate(process(ProcessKind::User, pid));
    assert_eq!(t.get(a).map(|p| p.pid), Some(pid));
    let taken = t.take(a).unwrap();
    assert_eq!(taken.pid, pid);
    assert!(t.get(a).is_none());
    // The slot is reused under a new generation; the old handle stays dead.
    let b = spawn(&mut t, ProcessKind::User);
    assert_ne!(a, b);
    assert!(t.get(a).is_none());
    assert!(t.get(b).is_some());
}

#[test]
fn fork_wait_and_exit() {
    let mut t = ProcessTable::new();
    let init = t.allocate(process(ProcessKind::User, Pid::init()));
    t.set_init_id(init);
    assert_eq!(init_process_id(&t), init);
    let parent = spawn(&mut t, ProcessKind::User);
    assert!(matches!(poll_wait(&t, parent), WaitPoll::Empty));
    let child_pid = t.alloc_pid();
    let (child, logical) = fork_process(&mut t, parent, process(ProcessKind::User, child_pid));
    assert_eq!(logical, child_pid);
    assert_eq!(t.get(child).unwrap().parent, Some(parent));
    assert!(matches!(poll_wait(&t, parent), WaitPoll::Pending));
    // The parent waits; the child's exit wakes it.
    t.set_state(parent, ProcessState::Waiting);
    assert_eq!(exit_current(&mut t, child, 7), Some(parent));
    assert_eq!(t.get(parent).unwrap().state, ProcessState::Running);
    match poll_wait(&t, parent) {
        WaitPoll::Ready { child_pid, exit_code } => {
            assert_eq!(child_pid, child);
            assert_eq!(exit_code, 7);
        }
        _ => panic!("child should be reported"),
    }
}

#[test]
fn exiting_parent_hands_children_to_init() {
    let mut t = ProcessTable::new();
    let init = t.allocate(process(ProcessKind::User, Pid::init()));
    t.set_init_id(init);
    let parent = spawn(&mut t, ProcessKind::User);
    let (child, _) = { let p = t.alloc_pid(); fork_process(&mut t, parent, process(ProcessKind::User, p)) };
    assert_eq!(exit_current(&mut t, parent, 0), None);
    assert_eq!(t.get(child).unwrap().parent, Some(init));
    assert_eq!(t.get(init).unwrap().children, vec![child]);
    assert!(t.get(parent).unwrap().children.is_empty());
}

#[test]
fn zombie_kthreads_are_reaped() {
    let mut t = ProcessTable::new();
    let k = spawn(&mut t, ProcessKind::Kernel);
    let u = spawn(&mut t, ProcessKind::User);
    kthread_exit(&mut t, k);
    assert_eq!(t.get(k).unwrap().state, ProcessState::Zombie { exit_code: 0 });
    let reaped = reap_zombie_kthreads(&mut t);
    assert_eq!(reaped.len(), 1);
    assert_eq!(reaped[0].kind, ProcessKind::Kernel);
    assert!(t.get(k).is_none());
    assert!(t.get(u).is_some());
}

#[test]
fn round_robin_order() {
    let mut t = ProcessTable::new();
    let a = spawn(&mut t, ProcessKind::Kernel);
    let b = spawn(&mut t, ProcessKind::Kernel);
    let c = spawn(&mut t, ProcessKind::Kernel);
    let mut s = RoundRobinScheduler::new();
    assert_eq!(run_scheduler(&mut s), None);
    enqueue_process(&mut s, a);
    assert_eq!(current_process_id(&s), Some(a));
    enqueue_process(&mut s, b);
    enqueue_process(&mut s, c);
    assert_eq!(run_scheduler(&mut s), Some((Some(a), b)));
    assert_eq!(run_scheduler(&mut s), Some((Some(b), c)));
    assert_eq!(run_scheduler(&mut s), Some((Some(c), a)));
    assert_eq!(s.current(), Some(a));
}

#[test]
fn sole_process_keeps_running() {
    let mut t = ProcessTable::new();
    let a = spawn(&mut t, ProcessKind::Kernel);
    let mut s = RoundRobinScheduler::new();
    enqueue_process(&mut s, a);
    assert_eq!(run_scheduler(&mut s), None);
    assert_eq!(current_process_id(&s), Some(a));
}

#[test]
fn park_and_wake() {
    let mut t = ProcessTable::new();
    let a = spawn(&mut t, ProcessKind::Kernel);
    let b = spawn(&mut t, ProcessKind::Kernel);
    let mut s = RoundRobinScheduler::new();
    enqueue_process(&mut s, a);
    enqueue_process(&mut s, b);
    park_current(&mut t, &mut s, a);
    assert_eq!(t.get(a).unwrap().state, ProcessState::Waiting);
    assert_eq!(park_poll(&t, &mut s, a), ParkAction::SwitchTo(b));
    // b exits: nothing else is runnable until a is woken.
    rv6::sched::exit_current(&mut s, b);
    assert_eq!(switch_from_exiting(&mut s, b), None);
    assert_eq!(park_poll(&t, &mut s, a), ParkAction::Idle);
    wake_process(&mut t, &mut s, a);
    assert_eq!(t.get(a).unwrap().state, ProcessState::Running);
    assert_eq!(switch_from_exiting(&mut s, b), Some(a));
}

#[test]
fn parked_process_woken_early_resumes() {
    let mut t = ProcessTable::new();
    let a = spawn(&mut t, ProcessKind::Kernel);
    let mut s = RoundRobinScheduler::new();
    enqueue_process(&mut s, a);
    park_current(&mut t, &mut s, a);
    t.set_state(a, ProcessState::Running);
    assert_eq!(park_poll(&t, &mut s, a), ParkAction::Resume);
    assert_eq!(current_process_id(&s), Some(a));
}

#[test]
fn wait_step_reaps_sleeps_or_fails() {
    let mut t = ProcessTable::new();
    let parent = spawn(&mut t, ProcessKind::User);
    assert!(matches!(wait_step(&mut t, parent), WaitStep::NoChildren));
    let child_pid = t.alloc_pid();
    let (child, _) = fork_process(&mut t, parent, process(ProcessKind::User, child_pid));
    assert!(matches!(wait_step(&mut t, parent), WaitStep::Sleep));
    assert_eq!(t.get(parent).unwrap().state, ProcessState::Waiting);
    t.set_state(child, ProcessState::Zombie { exit_code: 7 });
    match wait_step(&mut t, parent) {
        WaitStep::Reaped { child_pid: id, child: p, exit_code } => {
            assert_eq!(id, child);
            assert_eq!(exit_code, 7);
            assert_eq!(p.pid, child_pid);
        }
        _ => panic!("expected the exited child"),
    }
    assert!(t.get(child).is_none());
    assert!(t.get(parent).unwrap().children.is_empty());
}

#[test]
fn get_mut_edits_one_live_process() {
    let mut t = ProcessTable::new();
    let a = spawn(&mut t, ProcessKind::User);
    let b = spawn(&mut t, ProcessKind::User);
    t.get_mut(a).unwrap().state = ProcessState::Waiting;
    assert_eq!(t.get(a).unwrap().state, ProcessState::Waiting);
    assert_eq!(t.get(b).unwrap().state, ProcessState::Running);
    t.take(a);
    assert!(t.get_mut(a).is_none());
}
