//! Process scheduling: a round-robin run queue and the decisions that drive context
//! switches. The switches themselves are performed by the caller.
use vstd::prelude::*;
use std::collections::VecDeque;
use crate::proc::{ProcessId, ProcessState, ProcessTable};

verus! {

/// The interface of a process scheduler.
pub trait Scheduler {
    /// Schedules the next process to run and returns it. A current process is moved to the
    /// back of the run queue first (cooperative yield).
    fn schedule(&mut self) -> Option<ProcessId>;

    /// Enqueues a process to be scheduled.
    fn enqueue(&mut self, proc_id: ProcessId);

    /// Removes the process from the run queue and clears it as current if needed.
    fn exit_current(&mut self, pid: ProcessId);

    /// Returns the currently running process, if any.
    fn current(&self) -> Option<ProcessId>;

    /// Sets the current process without touching the run queue.
    fn set_current(&mut self, pid: Option<ProcessId>);
}

/// The run queue after a yield: the current process, if any, goes to the back.
pub open spec fn requeued(queue: Seq<ProcessId>, current: Option<ProcessId>) -> Seq<ProcessId> {
    match current {
        Some(c) => queue.push(c),
        None => queue,
    }
}

/// Holds for every process other than `pid`.
pub open spec fn other_than(pid: ProcessId) -> spec_fn(ProcessId) -> bool {
    |p: ProcessId| p != pid
}

/// A round-robin scheduler: runnable processes are served in order.
#[derive(Debug)]
pub struct RoundRobinScheduler {
    current: Option<ProcessId>,
    run_queue: VecDeque<ProcessId>,
}

impl RoundRobinScheduler {
    /// The running process.
    pub closed spec fn current_spec(&self) -> Option<ProcessId> {
        self.current
    }

    /// The runnable processes, next first.
    pub closed spec fn queue(&self) -> Seq<ProcessId> {
        self.run_queue@
    }

    /// Creates a scheduler with nothing to run.
    pub fn new() -> (r: Self)
        ensures
            r.current_spec() is None,
            r.queue() == Seq::<ProcessId>::empty(),
    {
        RoundRobinScheduler { current: None, run_queue: VecDeque::new() }
    }
}

impl Scheduler for RoundRobinScheduler {
    /// Moves the running process to the back of the queue and runs the one at the front.
    fn schedule(&mut self) -> (r: Option<ProcessId>)
        ensures
            ({
                let q = requeued(old(self).queue(), old(self).current_spec());
                if q.len() == 0 {
                    r is None && final(self).queue() == q
                } else {
                    r == Some(q[0]) && final(self).queue() == q.drop_first()
                }
            }),
            final(self).current_spec() == r,
    {
        if let Some(current) = self.current {
            self.run_queue.push_back(current);
        }
        self.current = self.run_queue.pop_front();
        proof {
            let q = requeued(old(self).queue(), old(self).current_spec());
            if q.len() > 0 {
                assert(q.subrange(1, q.len() as int) =~= q.drop_first());
            }
        }
        self.current
    }

    /// Appends a process to the run queue.
    fn enqueue(&mut self, proc_id: ProcessId)
        ensures
            final(self).queue() == old(self).queue().push(proc_id),
            final(self).current_spec() == old(self).current_spec(),
    {
        self.run_queue.push_back(proc_id);
    }

    /// Drops every occurrence of `pid` from the run queue and clears it as current.
    fn exit_current(&mut self, pid: ProcessId)
        ensures
            final(self).queue() == old(self).queue().filter(other_than(pid)),
            final(self).current_spec() == if old(self).current_spec() == Some(pid) {
                None
            } else {
                old(self).current_spec()
            },
    {
        let ghost q0 = self.run_queue@;
        let mut kept: VecDeque<ProcessId> = VecDeque::new();
        let n = self.run_queue.len();
        let mut i: usize = 0;
        while i < n
            invariant
                i <= n,
                n == q0.len(),
                self.run_queue@ == q0.skip(i as int),
                kept@ == q0.take(i as int).filter(other_than(pid)),
                self.current == old(self).current_spec(),
            decreases n - i,
        {
            let p = self.run_queue.pop_front().unwrap();
            if p != pid {
                kept.push_back(p);
            }
            proof {
                reveal(Seq::filter);
                assert(q0.take(i + 1).drop_last() =~= q0.take(i as int));
                assert(q0.take(i + 1).last() == p);
                assert(q0.skip(i as int).subrange(1, q0.skip(i as int).len() as int) =~= q0.skip(i + 1));
            }
            i += 1;
        }
        proof {
            assert(q0.take(n as int) =~= q0);
            assert(kept@ == q0.filter(other_than(pid)));
            assert(q0 == old(self).queue());
        }
        self.run_queue = kept;
        assert(self.queue() == kept@);
        if self.current == Some(pid) {
            self.current = None;
        }
    }

    /// Returns the running process.
    fn current(&self) -> (r: Option<ProcessId>)
        ensures
            r == self.current_spec(),
    {
        self.current
    }

    /// Sets the running process without touching the run queue.
    fn set_current(&mut self, pid: Option<ProcessId>)
        ensures
            final(self).current_spec() == pid,
            final(self).queue() == old(self).queue(),
    {
        self.current = pid;
    }
}

} // verus!

verus! {

/// Picks the next process to run.
///
/// Returns `None` when nothing changes hands (nothing to run, or the running process is
/// picked again); otherwise the outgoing process (if any) and the one to switch to.
pub fn run_scheduler(sched: &mut RoundRobinScheduler) -> (r: Option<(Option<ProcessId>, ProcessId)>)
    ensures
        ({
            let q = requeued(old(sched).queue(), old(sched).current_spec());
            &&& q.len() == 0 ==> r is None && final(sched).current_spec() is None
            &&& q.len() > 0 ==> final(sched).current_spec() == Some(q[0]) && final(sched).queue() == q.drop_first()
                && (r == if old(sched).current_spec() == Some(q[0]) {
                    None
                } else {
                    Some((old(sched).current_spec(), q[0]))
                })
        }),
{
    let outgoing = sched.current();
    let next = match sched.schedule() {
        Some(next) => next,
        None => return None,
    };
    if outgoing == Some(next) {
        return None;
    }
    Some((outgoing, next))
}

/// Enqueues a process; if nothing is running yet, it is scheduled right away.
pub fn enqueue_process(sched: &mut RoundRobinScheduler, proc_id: ProcessId)
    ensures
        old(sched).current_spec() is Some ==> final(sched).queue() == old(sched).queue().push(proc_id)
            && final(sched).current_spec() == old(sched).current_spec(),
        old(sched).current_spec() is None ==> final(sched).current_spec() == Some(old(sched).queue().push(proc_id)[0])
            && final(sched).queue() == old(sched).queue().push(proc_id).drop_first(),
{
    sched.enqueue(proc_id);
    // Bootstrap: if nothing is running yet, make this process current.
    if sched.current().is_none() {
        sched.schedule();
    }
}

/// Marks a waiting process runnable and places it on the run queue, without changing
/// which process is current.
pub fn wake_process(proc_table: &mut ProcessTable, sched: &mut RoundRobinScheduler, proc_id: ProcessId)
    requires
        old(proc_table).wf(),
        old(proc_table).lookup(proc_id) matches Some(p) && p.state == ProcessState::Waiting,
    ensures
        final(proc_table).wf(),
        final(proc_table).lookup(proc_id) matches Some(p) && p.state == ProcessState::Running,
        forall|id: ProcessId| id != proc_id ==> final(proc_table).lookup(id) == old(proc_table).lookup(id),
        final(sched).queue() == old(sched).queue().push(proc_id),
        final(sched).current_spec() == old(sched).current_spec(),
{
    proc_table.set_state(proc_id, ProcessState::Running);
    sched.enqueue(proc_id);
}

/// Removes a process from the scheduler, typically when it exits or parks.
pub fn exit_current(sched: &mut RoundRobinScheduler, pid: ProcessId)
    ensures
        final(sched).queue() == old(sched).queue().filter(other_than(pid)),
        final(sched).current_spec() == if old(sched).current_spec() == Some(pid) {
            None
        } else {
            old(sched).current_spec()
        },
{
    sched.exit_current(pid);
}

/// Picks the process to switch to after `pid` has left the scheduler.
///
/// `None` means nothing is left to run.
pub fn switch_from_exiting(sched: &mut RoundRobinScheduler, pid: ProcessId) -> (r: Option<ProcessId>)
    requires
        old(sched).current_spec() != Some(pid),
    ensures
        ({
            let q = requeued(old(sched).queue(), old(sched).current_spec());
            &&& q.len() == 0 ==> r is None
            &&& q.len() > 0 ==> r == Some(q[0]) && final(sched).queue() == q.drop_first()
        }),
        final(sched).current_spec() == r,
{
    sched.schedule()
}

/// Returns the running process, if any.
pub fn current_process_id(sched: &RoundRobinScheduler) -> (r: Option<ProcessId>)
    ensures
        r == sched.current_spec(),
{
    sched.current()
}

/// What a parked process does next.
#[derive(Debug, Clone, Copy, PartialEq, Eq, Structural)]
pub enum ParkAction {
    /// The process was woken before it switched away: it continues running.
    Resume,
    /// Switch to this process; the parked process resumes when switched back to.
    SwitchTo(ProcessId),
    /// Nothing is runnable: idle until an interrupt arrives, then decide again.
    Idle,
}

/// Parks the current process: marks it waiting and takes it off the scheduler. The caller
/// then repeats [`park_poll`] until it resumes or switches away.
pub fn park_current(proc_table: &mut ProcessTable, sched: &mut RoundRobinScheduler, pid: ProcessId)
    requires
        old(proc_table).wf(),
        old(proc_table).lookup(pid) matches Some(p) && p.state == ProcessState::Running,
    ensures
        final(proc_table).wf(),
        final(proc_table).lookup(pid) matches Some(p) && p.state == ProcessState::Waiting,
        forall|id: ProcessId| id != pid ==> final(proc_table).lookup(id) == old(proc_table).lookup(id),
        final(sched).queue() == old(sched).queue().filter(other_than(pid)),
        final(sched).current_spec() == if old(sched).current_spec() == Some(pid) {
            None
        } else {
            old(sched).current_spec()
        },
{
    proc_table.set_state(pid, ProcessState::Waiting);
    // Must not be requeued by `schedule`.
    sched.exit_current(pid);
}

/// Decides the next step of a parked process: resume if it was woken in the meantime,
/// else switch to the next runnable process, else idle.
pub fn park_poll(proc_table: &ProcessTable, sched: &mut RoundRobinScheduler, pid: ProcessId) -> (r: ParkAction)
    requires
        proc_table.lookup(pid) is Some,
        old(sched).current_spec() is None,
    ensures
        (proc_table.lookup(pid)->Some_0.state == ProcessState::Running) ==> r == ParkAction::Resume
            && final(sched).current_spec() == Some(pid) && final(sched).queue() == old(sched).queue(),
        (proc_table.lookup(pid)->Some_0.state != ProcessState::Running) ==> (if old(sched).queue().len() == 0 {
            r == ParkAction::Idle && final(sched).queue() == old(sched).queue() && final(sched).current_spec() is None
        } else {
            r == ParkAction::SwitchTo(old(sched).queue()[0]) && final(sched).queue() == old(sched).queue().drop_first()
                && final(sched).current_spec() == Some(old(sched).queue()[0])
        }),
{
    let running = match proc_table.get(pid) {
        Some(p) => p.state == ProcessState::Running,
        None => false,
    };
    if running {
        // Lost-wakeup / early wake: already running again before switching away.
        sched.set_current(Some(pid));
        return ParkAction::Resume;
    }
    match sched.schedule() {
        Some(next) => ParkAction::SwitchTo(next),
        None => ParkAction::Idle,
    }
}

} // verus!
