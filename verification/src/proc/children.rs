//! The children of a process that are still in the table.
use vstd::prelude::*;
use crate::proc::{ProcessId, ProcessTable};

verus! {

/// The handles of `kids` that are live in `t`, in order.
pub open spec fn live_children(t: ProcessTable, kids: Seq<ProcessId>) -> Seq<ProcessId> {
    kids.filter(|c: ProcessId| t.lookup(c) is Some)
}

/// Looking at one more child adds it to the live children exactly when it is live.
pub proof fn lemma_live_children_step(t: ProcessTable, kids: Seq<ProcessId>, i: int)
    requires
        0 <= i < kids.len(),
    ensures
        live_children(t, kids.take(i + 1)) == if t.lookup(kids[i]) is Some {
            live_children(t, kids.take(i)).push(kids[i])
        } else {
            live_children(t, kids.take(i))
        },
{
    reveal(Seq::filter);
    assert(kids.take(i + 1).drop_last() =~= kids.take(i));
    assert(kids.take(i + 1).last() == kids[i]);
}

/// No child is live among none.
pub proof fn lemma_live_children_empty(t: ProcessTable, kids: Seq<ProcessId>)
    ensures
        live_children(t, kids.take(0)) == Seq::<ProcessId>::empty(),
{
    reveal(Seq::filter);
    assert(kids.take(0) =~= Seq::<ProcessId>::empty());
}

/// Tables with the same live handles have the same live children.
pub proof fn lemma_live_children_same(t0: ProcessTable, t1: ProcessTable, kids: Seq<ProcessId>)
    requires
        forall|id: ProcessId| #[trigger] t1.lookup(id) is Some <==> t0.lookup(id) is Some,
    ensures
        live_children(t0, kids) == live_children(t1, kids),
{
    let f0 = |c: ProcessId| t0.lookup(c) is Some;
    let f1 = |c: ProcessId| t1.lookup(c) is Some;
    assert(f0 =~= f1);
}

} // verus!
