//! Waiting for children: the decision a waiting parent takes each time it runs, between
//! which the caller parks it.
use vstd::prelude::*;
use crate::proc::{poll_wait, reap_child, Process, ProcessId, ProcessState, ProcessTable, WaitPoll};

verus! {

/// What a parent waiting for its children does next.
pub enum WaitStep {
    /// A child had exited: it has been removed from the table and from its parent's
    /// children; the caller destroys it and returns its exit code.
    Reaped {
        /// The handle the child had.
        child_pid: ProcessId,
        /// The removed child.
        child: Process,
        /// Its exit code.
        exit_code: usize,
    },
    /// The parent has no children: the wait fails.
    NoChildren,
    /// Children exist but none has exited: the parent has been marked waiting; the caller
    /// parks it and takes another step when it is woken.
    Sleep,
}

/// One round of waiting for a child of `parent_pid` to exit: collects the oldest exited
/// child if there is one, fails if there are no children, and otherwise marks the parent as
/// waiting.
pub fn wait_step(proc_table: &mut ProcessTable, parent_pid: ProcessId) -> (r: WaitStep)
    requires
        old(proc_table).wf(),
        old(proc_table).lookup(parent_pid) is Some,
        !old(proc_table).lookup(parent_pid)->Some_0.children@.contains(parent_pid),
        forall|i: int| 0 <= i < old(proc_table).gens().len() ==> old(proc_table).gens()[i] < usize::MAX,
    ensures
        final(proc_table).wf(),
        final(proc_table).init_spec() == old(proc_table).init_spec(),
        ({
            let p0 = old(proc_table).lookup(parent_pid)->Some_0;
            let kids = p0.children@;
            match r {
                WaitStep::NoChildren => kids.len() == 0 && forall|id: ProcessId|
                    final(proc_table).lookup(id) == old(proc_table).lookup(id),
                WaitStep::Reaped { child_pid, child, exit_code } => {
                    &&& exists|k: int|
                        #![trigger kids[k]]
                        0 <= k < kids.len() && kids[k] == child_pid && forall|j: int|
                            0 <= j < k ==> !(old(proc_table).lookup(#[trigger] kids[j]) matches Some(c) && c.state is Zombie)
                    &&& Some(child) == old(proc_table).lookup(child_pid)
                    &&& child.state == (ProcessState::Zombie { exit_code })
                    &&& final(proc_table).lookup(child_pid) is None
                    &&& final(proc_table).lookup(parent_pid) matches Some(p) && p.children@ == kids.filter(
                        |c: ProcessId| c != child_pid,
                    ) && p.state == p0.state
                    &&& forall|id: ProcessId| id != parent_pid && id != child_pid ==> final(proc_table).lookup(id) == old(proc_table).lookup(id)
                },
                WaitStep::Sleep => {
                    &&& kids.len() > 0
                    &&& forall|j: int| 0 <= j < kids.len() ==> !(old(proc_table).lookup(#[trigger] kids[j]) matches Some(c) && c.state is Zombie)
                    &&& final(proc_table).lookup(parent_pid) matches Some(p) && p.state == ProcessState::Waiting
                        && p.children@ == kids && p.pid == p0.pid && p.kind == p0.kind && p.parent == p0.parent
                    &&& forall|id: ProcessId| id != parent_pid ==> final(proc_table).lookup(id) == old(proc_table).lookup(id)
                },
            }
        }),
{
    match poll_wait(proc_table, parent_pid) {
        WaitPoll::Ready { child_pid, exit_code } => {
            proof {
                let kids = old(proc_table).lookup(parent_pid)->Some_0.children@;
                let k = choose|k: int| #![trigger kids[k]] 0 <= k < kids.len() && kids[k] == child_pid && (old(proc_table).lookup(child_pid) matches Some(c) && c.state == (ProcessState::Zombie { exit_code })) && forall|j: int| 0 <= j < k ==> !(old(proc_table).lookup(#[trigger] kids[j]) matches Some(c) && c.state is Zombie);
                assert(kids.contains(child_pid));
                assert(child_pid.index() < old(proc_table).gens().len());
            }
            let child = reap_child(proc_table, parent_pid, child_pid);
            WaitStep::Reaped { child_pid, child, exit_code }
        },
        WaitPoll::Empty => WaitStep::NoChildren,
        WaitPoll::Pending => {
            proc_table.set_state(parent_pid, ProcessState::Waiting);
            WaitStep::Sleep
        },
    }
}

} // verus!
