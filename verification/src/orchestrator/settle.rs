//! Tasks one after the other, until one needs something from outside.
use vstd::prelude::*;

use crate::agenda::{count, lemma_count_first, lemma_count_none, lemma_count_together, Agenda};
use crate::orchestrator::invariants::law_tasks_keep_cluster_consistent;
use crate::orchestrator::step::lemma_waiting_are_launches;
use crate::orchestrator::{ClusterView, Orchestrator, OrchestratorOutput, Task};

verus! {

/// A task that needs something from outside: the run of a namespace, or the pressure of a worker.
pub open spec fn outward(t: Task) -> bool {
    t is Run || t is Recompute
}

spec fn searches(t: Task) -> bool {
    t is ScheduleWaiting
}

/// A task that numbers a pod and may still find no place for it.
pub open spec fn numbers(t: Task) -> bool {
    t is Resume
}

/// A task takes no more than one number. What it leaves to do is of a lesser kind than it is
/// itself, or needs something from outside.
proof fn lemma_work_shrinks(
    before: Orchestrator,
    t: Task,
    after: Orchestrator,
    out: ClusterView,
    out_after: ClusterView,
    next: Seq<Task>,
)
    requires
        before.does(t, after, out, out_after, next),
        !outward(t),
        before.next_pod_id < u64::MAX,
    ensures
        count(next, |u: Task| searches(u)) == 0,
        count(next, |u: Task| numbers(u)) == 0,
        !searches(t) && next.len() > 0 ==> outward(next[0]),
        after.next_pod_id <= before.next_pod_id + 1,
        t is Launch && next.len() == 0 ==> after.next_pod_id == before.next_pod_id,
        !(t is Launch) && !(t is Resume) ==> after.next_pod_id == before.next_pod_id,
{
    if t is ScheduleWaiting {
        lemma_waiting_are_launches(before.namespaces.seq());
    }
    lemma_count_none(next, |u: Task| searches(u));
    lemma_count_none(next, |u: Task| numbers(u));
}

impl Orchestrator {
    /// After `steps` tasks inside the cluster, each the first of what was still to be done.
    pub open spec fn settles(
        self,
        todo: Seq<Task>,
        out: ClusterView,
        after: Orchestrator,
        left: Seq<Task>,
        out_after: ClusterView,
        steps: nat,
    ) -> bool
        decreases steps,
    {
        if steps == 0 {
            after == self && left == todo && out_after == out
        } else {
            exists|mid: Orchestrator, rest: Seq<Task>, o: ClusterView, next: Seq<Task>|
                {
                    &&& self.settles(todo, out, mid, rest, o, (steps - 1) as nat)
                    &&& rest.len() > 0
                    &&& !outward(rest[0])
                    &&& #[trigger] mid.does(rest[0], after, o, out_after, next)
                    &&& left == next + rest.drop_first()
                }
        }
    }

    /// Does what is to be done, in order, until one task needs something from outside: that one is
    /// returned, and the rest still waits.
    pub fn settle(&mut self, todo: &mut Agenda<Task>, out: &mut OrchestratorOutput) -> (r: Option<
        Task,
    >)
        requires
            old(self).next_pod_id + count(old(todo)@, |t: Task| numbers(t)) < u64::MAX,
        ensures
            match r {
                Some(t) => {
                    &&& outward(t)
                    &&& exists|steps: nat| #[trigger]
                        old(self).settles(
                            old(todo)@,
                            old(out)@,
                            *final(self),
                            seq![t] + final(todo)@,
                            final(out)@,
                            steps,
                        )
                },
                None => {
                    &&& final(todo)@.len() == 0
                    &&& exists|steps: nat| #[trigger]
                        old(self).settles(
                            old(todo)@,
                            old(out)@,
                            *final(self),
                            seq![],
                            final(out)@,
                            steps,
                        )
                },
            },
    {
        let ghost before = *self;
        let ghost todo0 = todo@;
        let ghost out0 = out@;
        let ghost mut steps: nat = 0;
        loop
            invariant
                before == *old(self),
                todo0 == old(todo)@,
                out0 == old(out)@,
                before.settles(todo0, out0, *self, todo@, out@, steps),
                (todo@.len() > 0 && outward(todo@[0])) || self.next_pod_id + count(
                    todo@,
                    |t: Task| numbers(t),
                ) < u64::MAX,
            decreases
                    (if todo@.len() > 0 && outward(todo@[0]) {
                        0int
                    } else {
                        1int
                    }),
                    count(todo@, |t: Task| searches(t)),
                    todo@.len(),
        {
            let ghost rest = todo@;
            let ghost mid = *self;
            let ghost o = out@;
            let t: Task = match todo.next() {
                Some(t) => t,
                None => {
                    assert(rest =~= seq![]);
                    return None;
                },
            };
            match &t {
                Task::Run { .. } | Task::Recompute { .. } => {
                    assert(seq![t] + todo@ =~= rest);
                    return Some(t);
                },
                _ => {},
            }
            let ghost g = t;
            let next: Vec<Task> = self.perform(t, out);
            proof {
                assert(mid.does(rest[0], *self, o, out@, next@));
                lemma_work_shrinks(mid, g, *self, o, out@, next@);
                lemma_count_first(rest, |t: Task| searches(t));
                lemma_count_first(rest, |t: Task| numbers(t));
                lemma_count_together(next@, rest.drop_first(), |t: Task| searches(t));
                lemma_count_together(next@, rest.drop_first(), |t: Task| numbers(t));
            }
            todo.first(next);
            proof {
                steps = steps + 1;
            }
        }
    }
}

/// The cluster is consistent when everything inside it has been done, if it was before and no worker
/// is still to be taken in.
pub proof fn law_settling_keeps_cluster_consistent(
    before: Orchestrator,
    todo: Seq<Task>,
    out: ClusterView,
    after: Orchestrator,
    left: Seq<Task>,
    out_after: ClusterView,
    steps: nat,
)
    requires
        before.settles(todo, out, after, left, out_after, steps),
        before.consistent(),
        forall|i: int| 0 <= i < todo.len() ==> !((#[trigger] todo[i]) is Welcome),
    ensures
        after.consistent(),
        forall|i: int| 0 <= i < left.len() ==> !((#[trigger] left[i]) is Welcome),
    decreases steps,
{
    if steps > 0 {
        let (mid, rest, o, next) = choose|
            mid: Orchestrator,
            rest: Seq<Task>,
            o: ClusterView,
            next: Seq<Task>,
        |
            {
                &&& before.settles(todo, out, mid, rest, o, (steps - 1) as nat)
                &&& rest.len() > 0
                &&& !outward(rest[0])
                &&& #[trigger] mid.does(rest[0], after, o, out_after, next)
                &&& left == next + rest.drop_first()
            };
        law_settling_keeps_cluster_consistent(
            before,
            todo,
            out,
            mid,
            rest,
            o,
            (steps - 1) as nat,
        );
        law_tasks_keep_cluster_consistent(mid, rest[0], after, o, out_after, next);
        if rest[0] is ScheduleWaiting {
            lemma_waiting_are_launches(mid.namespaces.seq());
        }
        assert forall|i: int| 0 <= i < left.len() implies !((#[trigger] left[i]) is Welcome) by {
            if i >= next.len() {
                assert(left[i] == rest[i - next.len() + 1]);
            } else {
                assert(left[i] == next[i]);
            }
        }
    }
}

} // verus!
