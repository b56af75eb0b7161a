//! Follow-ups one after the other, until one needs something from outside.
use vstd::prelude::*;

use crate::agenda::{count, lemma_count_first, lemma_count_none, lemma_count_together, Agenda};
use crate::namespace::step::law_follow_ups_keep_tables;
use crate::namespace::{FollowUp, NamespaceStateMachine};
use crate::output::{NamespaceOutput, OutputView};

verus! {

/// A follow-up that needs something from outside: the machine of a workload, or the addresses of
/// clients.
pub open spec fn outward(f: FollowUp) -> bool {
    match f {
        FollowUp::StepWorkload { .. } => true,
        FollowUp::ConnectPeer { .. } => true,
        FollowUp::DisconnectPeer { .. } => true,
        _ => false,
    }
}

spec fn drops(f: FollowUp) -> bool {
    f is DropWorker
}

spec fn checks(f: FollowUp) -> bool {
    f is ReconcileDemand
}

/// What a follow-up leaves to do is of a lesser kind than it is itself.
proof fn lemma_work_shrinks(
    before: NamespaceStateMachine,
    f: FollowUp,
    after: NamespaceStateMachine,
    out: OutputView,
    out_after: OutputView,
    next: Seq<FollowUp>,
)
    requires
        before.follows(f, after, out, out_after, next),
        !outward(f),
    ensures
        count(next, |g: FollowUp| drops(g)) == 0,
        !drops(f) ==> count(next, |g: FollowUp| checks(g)) == 0,
        !drops(f) && !checks(f) ==> next.len() == 0,
{
    lemma_count_none(next, |g: FollowUp| drops(g));
    if !drops(f) {
        lemma_count_none(next, |g: FollowUp| checks(g));
    }
}

impl NamespaceStateMachine {
    /// After `steps` follow-ups inside the namespace, each the first of what was still to be done.
    pub open spec fn settles(
        self,
        todo: Seq<FollowUp>,
        out: OutputView,
        after: NamespaceStateMachine,
        left: Seq<FollowUp>,
        out_after: OutputView,
        steps: nat,
    ) -> bool
        decreases steps,
    {
        if steps == 0 {
            after == self && left == todo && out_after == out
        } else {
            exists|mid: NamespaceStateMachine, rest: Seq<FollowUp>, o: OutputView, next: Seq<FollowUp>|
                {
                    &&& self.settles(todo, out, mid, rest, o, (steps - 1) as nat)
                    &&& rest.len() > 0
                    &&& !outward(rest[0])
                    &&& #[trigger] mid.follows(rest[0], after, o, out_after, next)
                    &&& left == next + rest.drop_first()
                }
        }
    }

    /// Does what is to be done, in order, until one follow-up needs something from outside: that one
    /// is returned, and the rest still waits.
    pub fn settle(&mut self, todo: &mut Agenda<FollowUp>, out: &mut NamespaceOutput) -> (r: Option<
        FollowUp,
    >)
        requires
            old(self).service_workload.seq().len() < u32::MAX,
        ensures
            match r {
                Some(f) => {
                    &&& outward(f)
                    &&& exists|steps: nat| #[trigger]
                        old(self).settles(
                            old(todo)@,
                            old(out)@,
                            *final(self),
                            seq![f] + final(todo)@,
                            final(out)@,
                            steps,
                        )
                },
                None => {
                    &&& final(todo)@.len() == 0
                    &&& exists|steps: nat| #[trigger]
                        old(self).settles(
                            old(todo)@,
                            old(out)@,
                            *final(self),
                            seq![],
                            final(out)@,
                            steps,
                        )
                },
            },
    {
        let ghost before = *self;
        let ghost todo0 = todo@;
        let ghost out0 = out@;
        let ghost mut steps: nat = 0;
        loop
            invariant
                before == *old(self),
                todo0 == old(todo)@,
                out0 == old(out)@,
                before.settles(todo0, out0, *self, todo@, out@, steps),
                self.service_workload.seq().len() < u32::MAX,
            decreases
                    count(todo@, |g: FollowUp| drops(g)),
                    count(todo@, |g: FollowUp| checks(g)),
                    todo@.len(),
        {
            let ghost rest = todo@;
            let ghost mid = *self;
            let ghost o = out@;
            let f: FollowUp = match todo.next() {
                Some(f) => f,
                None => {
                    assert(rest =~= seq![]);
                    return None;
                },
            };
            match &f {
                FollowUp::StepWorkload { .. } | FollowUp::ConnectPeer { .. }
                | FollowUp::DisconnectPeer { .. } => {
                    assert(seq![f] + todo@ =~= rest);
                    return Some(f);
                },
                _ => {},
            }
            let ghost g = f;
            let next: Vec<FollowUp> = self.perform(f, out);
            proof {
                assert(mid.follows(rest[0], *self, o, out@, next@));
                lemma_work_shrinks(mid, g, *self, o, out@, next@);
                lemma_count_first(rest, |g: FollowUp| drops(g));
                lemma_count_first(rest, |g: FollowUp| checks(g));
                lemma_count_together(next@, rest.drop_first(), |g: FollowUp| drops(g));
                lemma_count_together(next@, rest.drop_first(), |g: FollowUp| checks(g));
            }
            todo.first(next);
            proof {
                steps = steps + 1;
            }
        }
    }
}

/// The tables match the spec when everything inside the namespace has been done, if they matched it
/// before.
pub proof fn law_settling_keeps_tables(
    before: NamespaceStateMachine,
    todo: Seq<FollowUp>,
    out: OutputView,
    after: NamespaceStateMachine,
    left: Seq<FollowUp>,
    out_after: OutputView,
    steps: nat,
)
    requires
        before.settles(todo, out, after, left, out_after, steps),
        before.tables_match(),
    ensures
        after.tables_match(),
    decreases steps,
{
    if steps > 0 {
        let (mid, rest, o, next) = choose|
            mid: NamespaceStateMachine,
            rest: Seq<FollowUp>,
            o: OutputView,
            next: Seq<FollowUp>,
        |
            {
                &&& before.settles(todo, out, mid, rest, o, (steps - 1) as nat)
                &&& rest.len() > 0
                &&& !outward(rest[0])
                &&& #[trigger] mid.follows(rest[0], after, o, out_after, next)
                &&& left == next + rest.drop_first()
            };
        law_settling_keeps_tables(before, todo, out, mid, rest, o, (steps - 1) as nat);
        law_follow_ups_keep_tables(mid, rest[0], after, o, out_after, next);
    }
}

} // verus!
