//! Tells the scheduler which pods need a worker and which no longer do.
use vstd::prelude::*;

use crate::sm::{PodId, PodScheduleRequest, ScheduleRequestId, ScheduleRequestPortInput};
use crate::sorted_map::{
    as_map, increasing, lemma_contains_either, lemma_picked, lemma_position_unique, makes, picked,
    position, SortedMap,
};

verus! {

/// A change in what the scheduler is asked for.
#[derive(Debug, Clone, Copy, PartialEq, Eq, Structural)]
pub enum ScheduleRequestDelta {
    Request { pod_id: PodId, request: PodScheduleRequest },
    Drop { pod_id: PodId },
}

/// The requests of a list by pod. The last entry of a pod counts.
pub open spec fn by_pod(list: Seq<(PodId, PodScheduleRequest)>) -> Map<PodId, PodScheduleRequest>
    decreases list.len(),
{
    if list.len() == 0 {
        Map::empty()
    } else {
        by_pod(list.drop_last()).insert(list.last().0, list.last().1)
    }
}

/// What the first input of the port `id` asks for.
pub open spec fn asked(
    id: ScheduleRequestId,
    inputs: Seq<(ScheduleRequestId, ScheduleRequestPortInput)>,
) -> Option<Map<PodId, PodScheduleRequest>>
    decreases inputs.len(),
{
    if inputs.len() == 0 {
        None
    } else if inputs[0].0 == id {
        match inputs[0].1 {
            ScheduleRequestPortInput::PodRequestsInput(list) => Some(by_pod(list@)),
        }
    } else {
        asked(id, inputs.skip(1))
    }
}

/// A request for each pod that is not among `sent`.
pub open spec fn new_requests(
    next: Seq<(PodId, PodScheduleRequest)>,
    sent: Map<PodId, PodScheduleRequest>,
) -> Seq<ScheduleRequestDelta>
    decreases next.len(),
{
    if next.len() == 0 {
        seq![]
    } else {
        let rest = new_requests(next.drop_last(), sent);
        if sent.contains_key(next.last().0) {
            rest
        } else {
            rest.push(
                ScheduleRequestDelta::Request { pod_id: next.last().0, request: next.last().1 },
            )
        }
    }
}

/// A withdrawal for each pod that is not among `next`.
pub open spec fn withdrawals(
    sent: Seq<(PodId, PodScheduleRequest)>,
    next: Map<PodId, PodScheduleRequest>,
) -> Seq<ScheduleRequestDelta>
    decreases sent.len(),
{
    if sent.len() == 0 {
        seq![]
    } else {
        let rest = withdrawals(sent.drop_last(), next);
        if next.contains_key(sent.last().0) {
            rest
        } else {
            rest.push(ScheduleRequestDelta::Drop { pod_id: sent.last().0 })
        }
    }
}

/// What leads from the requests `sent` to the requests `next`.
pub open spec fn deltas(
    sent: Seq<(PodId, PodScheduleRequest)>,
    next: Seq<(PodId, PodScheduleRequest)>,
) -> Seq<ScheduleRequestDelta> {
    new_requests(next, as_map(sent)) + withdrawals(sent, as_map(next))
}

/// Keeps track of what the scheduler was asked for.
pub struct ScheduleRequestAdapter {
    schedule_request_id: ScheduleRequestId,
    sent_requests: SortedMap<PodId, PodScheduleRequest>,
}

impl ScheduleRequestAdapter {
    pub closed spec fn port(&self) -> ScheduleRequestId {
        self.schedule_request_id
    }

    /// What the scheduler was asked for.
    pub closed spec fn sent(&self) -> Seq<(PodId, PodScheduleRequest)> {
        self.sent_requests.seq()
    }

    pub fn new(schedule_request_id: ScheduleRequestId) -> (r: Self)
        ensures
            r.port() == schedule_request_id,
            r.sent() == Seq::<(PodId, PodScheduleRequest)>::empty(),
    {
        ScheduleRequestAdapter { schedule_request_id, sent_requests: SortedMap::new() }
    }

    /// Takes in what is asked for now, and says what to tell the scheduler.
    pub fn reconcile(
        &mut self,
        inputs: &Vec<(ScheduleRequestId, ScheduleRequestPortInput)>,
    ) -> (r: Vec<ScheduleRequestDelta>)
        ensures
            final(self).port() == old(self).port(),
            increasing(old(self).sent()),
            match asked(old(self).port(), inputs@) {
                Some(next) => as_map(final(self).sent()) == next && increasing(final(self).sent())
                    && r@ == deltas(old(self).sent(), final(self).sent()),
                None => *final(self) == *old(self) && r@.len() == 0,
            },
    {
        proof {
            use_type_invariant(&self.sent_requests);
        }
        let mut i: usize = 0;
        assert(inputs@.skip(0) =~= inputs@);
        while i < inputs.len()
            invariant
                i <= inputs@.len(),
                *self == *old(self),
                increasing(self.sent()),
                asked(self.port(), inputs@.skip(i as int)) == asked(self.port(), inputs@),
            decreases inputs@.len() - i,
        {
            assert(inputs@.skip(i as int).skip(1) =~= inputs@.skip(i + 1));
            if inputs[i].0 == self.schedule_request_id {
                match &inputs[i].1 {
                    ScheduleRequestPortInput::PodRequestsInput(list) => {
                        return self.replace_requests(list);
                    },
                }
            }
            i = i + 1;
        }
        Vec::new()
    }

    fn replace_requests(&mut self, list: &Vec<(PodId, PodScheduleRequest)>) -> (r: Vec<
        ScheduleRequestDelta,
    >)
        ensures
            final(self).port() == old(self).port(),
            as_map(final(self).sent()) == by_pod(list@),
            increasing(final(self).sent()),
            r@ == deltas(old(self).sent(), final(self).sent()),
    {
        let mut next: SortedMap<PodId, PodScheduleRequest> = SortedMap::new();
        let mut i: usize = 0;
        assert(list@.take(0) =~= Seq::<(PodId, PodScheduleRequest)>::empty());
        while i < list.len()
            invariant
                i <= list@.len(),
                next@ == by_pod(list@.take(i as int)),
            decreases list@.len() - i,
        {
            assert(list@.take(i + 1).drop_last() =~= list@.take(i as int));
            assert(list@.take(i + 1).last() == list@[i as int]);
            next.insert(list[i].0, list[i].1);
            i = i + 1;
        }
        assert(list@.take(i as int) =~= list@);
        let ghost after = next.seq();
        let ghost before = self.sent_requests.seq();
        let mut out: Vec<ScheduleRequestDelta> = Vec::new();
        let mut i: usize = 0;
        let n: usize = next.len();
        assert(after.take(0) =~= Seq::<(PodId, PodScheduleRequest)>::empty());
        while i < n
            invariant
                i <= n,
                n == after.len(),
                after == next.seq(),
                out@ == new_requests(after.take(i as int), self.sent_requests@),
            decreases n - i,
        {
            assert(after.take(i + 1).drop_last() =~= after.take(i as int));
            assert(after.take(i + 1).last() == after[i as int]);
            if !self.sent_requests.contains_key(next.key_at(i)) {
                out.push(
                    ScheduleRequestDelta::Request {
                        pod_id: *next.key_at(i),
                        request: *next.value_at(i),
                    },
                );
            }
            i = i + 1;
        }
        assert(after.take(i as int) =~= after);
        let ghost told = out@;
        let mut i: usize = 0;
        let n: usize = self.sent_requests.len();
        assert(before.take(0) =~= Seq::<(PodId, PodScheduleRequest)>::empty());
        assert(out@ =~= told + withdrawals(before.take(0), next@));
        while i < n
            invariant
                i <= n,
                n == before.len(),
                before == self.sent_requests.seq(),
                out@ == told + withdrawals(before.take(i as int), next@),
            decreases n - i,
        {
            assert(before.take(i + 1).drop_last() =~= before.take(i as int));
            assert(before.take(i + 1).last() == before[i as int]);
            if !next.contains_key(self.sent_requests.key_at(i)) {
                out.push(ScheduleRequestDelta::Drop { pod_id: *self.sent_requests.key_at(i) });
                assert(out@ =~= told + withdrawals(before.take(i + 1), next@));
            }
            i = i + 1;
        }
        assert(before.take(i as int) =~= before);
        self.sent_requests = next;
        out
    }

    /// What the scheduler was asked for.
    pub fn sent_requests(&self) -> (r: &SortedMap<PodId, PodScheduleRequest>)
        ensures
            r.seq() == self.sent(),
    {
        &self.sent_requests
    }
}

/// Whether the scheduler knows of a pod after it was told `told`.
pub open spec fn known(pods: Set<PodId>, told: Seq<ScheduleRequestDelta>) -> Set<PodId>
    decreases told.len(),
{
    if told.len() == 0 {
        pods
    } else {
        let rest = known(pods, told.drop_last());
        match told.last() {
            ScheduleRequestDelta::Request { pod_id, .. } => rest.insert(pod_id),
            ScheduleRequestDelta::Drop { pod_id } => rest.remove(pod_id),
        }
    }
}

proof fn lemma_requests_known(
    pods: Set<PodId>,
    next: Seq<(PodId, PodScheduleRequest)>,
    sent: Map<PodId, PodScheduleRequest>,
    id: PodId,
)
    ensures
        known(pods, new_requests(next, sent)).contains(id) <==> pods.contains(id) || (
        !sent.contains_key(id) && exists|i: int| 0 <= i < next.len() && (#[trigger] next[i]).0
            == id),
    decreases next.len(),
{
    if next.len() > 0 {
        let front = next.drop_last();
        lemma_requests_known(pods, front, sent, id);
        let rest = new_requests(front, sent);
        let all = new_requests(next, sent);
        if !sent.contains_key(next.last().0) {
            assert(all.drop_last() =~= rest);
        }
        if exists|i: int| 0 <= i < front.len() && (#[trigger] front[i]).0 == id {
            let i = choose|i: int| 0 <= i < front.len() && (#[trigger] front[i]).0 == id;
            assert(next[i].0 == id);
        }
        if exists|i: int| 0 <= i < next.len() && (#[trigger] next[i]).0 == id {
            let i = choose|i: int| 0 <= i < next.len() && (#[trigger] next[i]).0 == id;
            if i < front.len() {
                assert(front[i].0 == id);
            }
        }
        assert(next[next.len() - 1] == next.last());
    }
}

proof fn lemma_withdrawals_known(
    pods: Set<PodId>,
    told: Seq<ScheduleRequestDelta>,
    sent: Seq<(PodId, PodScheduleRequest)>,
    next: Map<PodId, PodScheduleRequest>,
    id: PodId,
)
    ensures
        known(pods, told + withdrawals(sent, next)).contains(id) <==> known(pods, told).contains(id)
            && (next.contains_key(id) || !(exists|i: int|
            0 <= i < sent.len() && (#[trigger] sent[i]).0 == id)),
    decreases sent.len(),
{
    if sent.len() == 0 {
        assert(told + withdrawals(sent, next) =~= told);
    } else {
        let front = sent.drop_last();
        lemma_withdrawals_known(pods, told, front, next, id);
        let rest = withdrawals(front, next);
        let all = withdrawals(sent, next);
        if !next.contains_key(sent.last().0) {
            assert((told + all).drop_last() =~= told + rest);
            assert((told + all).last() == all.last());
        }
        if exists|i: int| 0 <= i < front.len() && (#[trigger] front[i]).0 == id {
            let i = choose|i: int| 0 <= i < front.len() && (#[trigger] front[i]).0 == id;
            assert(sent[i].0 == id);
        }
        if exists|i: int| 0 <= i < sent.len() && (#[trigger] sent[i]).0 == id {
            let i = choose|i: int| 0 <= i < sent.len() && (#[trigger] sent[i]).0 == id;
            if i < front.len() {
                assert(front[i].0 == id);
            }
        }
        assert(sent[sent.len() - 1] == sent.last());
    }
}

/// A scheduler that knows of the pods that were sent knows, after the deltas, of exactly those
/// that are asked for now.
pub proof fn law_deltas_keep_scheduler_informed(
    sent: Seq<(PodId, PodScheduleRequest)>,
    next: Seq<(PodId, PodScheduleRequest)>,
)
    requires
        increasing(sent),
        increasing(next),
    ensures
        known(as_map(sent).dom(), deltas(sent, next)) == as_map(next).dom(),
{
    let (s, n) = (as_map(sent), as_map(next));
    let after = known(s.dom(), deltas(sent, next));
    assert forall|id: PodId| after.contains(id) <==> n.dom().contains(id) by {
        lemma_requests_known(s.dom(), next, s, id);
        lemma_withdrawals_known(s.dom(), new_requests(next, s), sent, n, id);
        if s.contains_key(id) {
            assert(sent[position(sent, id)].0 == id);
        }
        if n.contains_key(id) {
            assert(next[position(next, id)].0 == id);
        }
        assert forall|i: int| 0 <= i < next.len() && (#[trigger] next[i]).0 == id implies
            n.contains_key(id) by {
            lemma_position_unique(next, i);
        }
    }
    assert(after =~= n.dom());
}

proof fn lemma_no_requests(
    next: Seq<(PodId, PodScheduleRequest)>,
    sent: Map<PodId, PodScheduleRequest>,
)
    requires
        forall|i: int| 0 <= i < next.len() ==> sent.contains_key((#[trigger] next[i]).0),
    ensures
        new_requests(next, sent).len() == 0,
    decreases next.len(),
{
    if next.len() > 0 {
        assert(sent.contains_key(next[next.len() - 1].0));
        assert forall|i: int| 0 <= i < next.drop_last().len() implies sent.contains_key(
            (#[trigger] next.drop_last()[i]).0,
        ) by {
            assert(sent.contains_key(next[i].0));
        }
        lemma_no_requests(next.drop_last(), sent);
    }
}

proof fn lemma_no_withdrawals(
    sent: Seq<(PodId, PodScheduleRequest)>,
    next: Map<PodId, PodScheduleRequest>,
)
    requires
        forall|i: int| 0 <= i < sent.len() ==> next.contains_key((#[trigger] sent[i]).0),
    ensures
        withdrawals(sent, next).len() == 0,
    decreases sent.len(),
{
    if sent.len() > 0 {
        assert(next.contains_key(sent[sent.len() - 1].0));
        assert forall|i: int| 0 <= i < sent.drop_last().len() implies next.contains_key(
            (#[trigger] sent.drop_last()[i]).0,
        ) by {
            assert(next.contains_key(sent[i].0));
        }
        lemma_no_withdrawals(sent.drop_last(), next);
    }
}

/// A pod is asked for that was not asked for before.
pub open spec fn newly_asked(
    sent: Map<PodId, PodScheduleRequest>,
    next: Map<PodId, PodScheduleRequest>,
    delta: ScheduleRequestDelta,
) -> bool {
    delta matches ScheduleRequestDelta::Request { pod_id, request } && next.contains_key(pod_id)
        && next[pod_id] == request && !sent.contains_key(pod_id)
}

/// A pod was asked for that is not asked for any more.
pub open spec fn no_longer_asked(
    sent: Map<PodId, PodScheduleRequest>,
    next: Map<PodId, PodScheduleRequest>,
    delta: ScheduleRequestDelta,
) -> bool {
    delta matches ScheduleRequestDelta::Drop { pod_id } && sent.contains_key(pod_id)
        && !next.contains_key(pod_id)
}

spec fn not_among(m: Map<PodId, PodScheduleRequest>) -> spec_fn((PodId, PodScheduleRequest)) -> bool {
    |e: (PodId, PodScheduleRequest)| !m.contains_key(e.0)
}

spec fn as_request() -> spec_fn((PodId, PodScheduleRequest)) -> ScheduleRequestDelta {
    |e: (PodId, PodScheduleRequest)|
        ScheduleRequestDelta::Request { pod_id: e.0, request: e.1 }
}

spec fn as_withdrawal() -> spec_fn((PodId, PodScheduleRequest)) -> ScheduleRequestDelta {
    |e: (PodId, PodScheduleRequest)| ScheduleRequestDelta::Drop { pod_id: e.0 }
}

proof fn lemma_deltas_picked(
    list: Seq<(PodId, PodScheduleRequest)>,
    m: Map<PodId, PodScheduleRequest>,
)
    ensures
        new_requests(list, m) == picked(list, not_among(m), as_request()),
        withdrawals(list, m) == picked(list, not_among(m), as_withdrawal()),
    decreases list.len(),
{
    if list.len() > 0 {
        lemma_deltas_picked(list.drop_last(), m);
    }
}

/// Each change is reported exactly once, and nothing else is: a request for each pod that is asked for
/// now and was not before, and a withdrawal for each pod that was asked for and no longer is.
pub proof fn law_each_change_is_reported_once(
    sent: Seq<(PodId, PodScheduleRequest)>,
    next: Seq<(PodId, PodScheduleRequest)>,
)
    requires
        increasing(sent),
        increasing(next),
    ensures
        forall|d: ScheduleRequestDelta| #[trigger]
            deltas(sent, next).contains(d) <==> newly_asked(as_map(sent), as_map(next), d)
                || no_longer_asked(as_map(sent), as_map(next), d),
        deltas(sent, next).no_duplicates(),
{
    let (s, n) = (as_map(sent), as_map(next));
    let (a, b) = (new_requests(next, s), withdrawals(sent, n));
    let all = deltas(sent, next);
    lemma_deltas_picked(next, s);
    lemma_deltas_picked(sent, n);
    lemma_picked(next, not_among(s), as_request());
    lemma_picked(sent, not_among(n), as_withdrawal());
    assert forall|d: ScheduleRequestDelta| #[trigger] a.contains(d) <==> newly_asked(s, n, d) by {
        if makes(next, not_among(s), as_request(), d) {
            let j = choose|j: int|
                0 <= j < next.len() && not_among(s)(#[trigger] next[j]) && as_request()(next[j])
                    == d;
            lemma_position_unique(next, j);
        }
        if newly_asked(s, n, d) {
            if let ScheduleRequestDelta::Request { pod_id, request } = d {
                let j = position(next, pod_id);
                assert(0 <= j < next.len() && next[j].0 == pod_id);
                assert(not_among(s)(next[j]) && as_request()(next[j]) == d);
            }
        }
    }
    assert forall|d: ScheduleRequestDelta| #[trigger] b.contains(d) <==> no_longer_asked(s, n, d) by {
        if makes(sent, not_among(n), as_withdrawal(), d) {
            let j = choose|j: int|
                0 <= j < sent.len() && not_among(n)(#[trigger] sent[j]) && as_withdrawal()(sent[j])
                    == d;
            lemma_position_unique(sent, j);
        }
        if no_longer_asked(s, n, d) {
            if let ScheduleRequestDelta::Drop { pod_id } = d {
                let j = position(sent, pod_id);
                assert(0 <= j < sent.len() && sent[j].0 == pod_id);
                assert(not_among(n)(sent[j]) && as_withdrawal()(sent[j]) == d);
            }
        }
    }
    assert forall|d: ScheduleRequestDelta| #[trigger] all.contains(d) <==> newly_asked(s, n, d)
        || no_longer_asked(s, n, d) by {
        lemma_contains_either(a, b, d);
    }
    assert forall|i: int, j: int| 0 <= i < all.len() && 0 <= j < all.len() && i != j implies all[i]
        != all[j] by {
        if i < a.len() {
            assert(a.contains(a[i]) && all[i] == a[i]);
        } else {
            assert(b.contains(b[i - a.len()]) && all[i] == b[i - a.len()]);
        }
        if j < a.len() {
            assert(a.contains(a[j]) && all[j] == a[j]);
        } else {
            assert(b.contains(b[j - a.len()]) && all[j] == b[j - a.len()]);
        }
    }
}

/// Where the same pods are asked for again, the scheduler is told nothing.
pub proof fn law_same_pods_no_deltas(
    sent: Seq<(PodId, PodScheduleRequest)>,
    next: Seq<(PodId, PodScheduleRequest)>,
)
    requires
        increasing(sent),
        increasing(next),
        as_map(sent).dom() == as_map(next).dom(),
    ensures
        deltas(sent, next) == Seq::<ScheduleRequestDelta>::empty(),
{
    assert forall|i: int| 0 <= i < next.len() implies as_map(sent).contains_key(
        (#[trigger] next[i]).0,
    ) by {
        lemma_position_unique(next, i);
        assert(as_map(next).dom().contains(next[i].0));
    }
    assert forall|i: int| 0 <= i < sent.len() implies as_map(next).contains_key(
        (#[trigger] sent[i]).0,
    ) by {
        lemma_position_unique(sent, i);
        assert(as_map(sent).dom().contains(sent[i].0));
    }
    lemma_no_requests(next, as_map(sent));
    lemma_no_withdrawals(sent, as_map(next));
    assert(deltas(sent, next) =~= Seq::<ScheduleRequestDelta>::empty());
}

} // verus!
