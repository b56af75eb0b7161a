//! Whether a namespace can take what comes: numbers are left, and what is reported makes sense.
use vstd::prelude::*;

use crate::adapter::endpoint::{delivered, EndpointAction, FabricEndpointPortInput};
use crate::adapter::pod_assignment::{all_addressed, PodAssignmentDelta, WorkerPortInput};
use crate::engine::namespace::commands::{feasible, has_netmask, has_store};
use crate::engine::namespace::process::all_addressed_in;
use crate::engine::namespace::router::{RouterDrain, RouterSnapshot};
use crate::engine::namespace::{addressed, Namespace};
use crate::engine::types::{
    ClientCommand, OrchestratorToNamespace, SchedulerDecision, WorkerNamespaceEventKind,
};
use crate::namespace::wireguard::WgPeerOutput;
use crate::sm::{EndpointInfo, EndpointKind, WorkerId};
use crate::text::{chars_of, parse_number};

verus! {

impl Namespace {
    fn has_numbers(&self, workloads: u128, services: u128) -> (r: bool)
        requires
            workloads <= u64::MAX * 2,
            services <= u64::MAX * 2,
        ensures
            r == self.can_number(workloads as nat, services as nat),
    {
        let (w, s) = self.management.next_ids();
        let max: u128 = u64::MAX as u128;
        w as u128 + workloads <= max && s as u128 + services <= max && self.next_port as u128
            + workloads + services <= max
    }

    fn accepts_command(&self, command: &ClientCommand, peers: &Vec<WgPeerOutput>) -> (r: bool)
        ensures
            r == self.can_obey(*command, peers@),
    {
        match command {
            ClientCommand::UpdateSpec(spec) => self.has_numbers(
                spec.workloads.len() as u128,
                spec.services.len() as u128,
            ),
            ClientCommand::PatchSpec(patch) => match &self.current_spec {
                Some(c) => self.has_numbers(
                    c.workloads.len() as u128 + patch.workloads.len() as u128,
                    c.services.len() as u128 + patch.services.len() as u128,
                ),
                None => true,
            },
            ClientCommand::Connect { .. } => self.next_port as u128 + peers.len() as u128
                <= u64::MAX as u128,
            _ => true,
        }
    }

    fn accepts_report(
        &self,
        worker_id: WorkerId,
        event: &WorkerNamespaceEventKind,
        snapshot: &RouterSnapshot,
    ) -> (r: bool)
        ensures
            r == self.can_hear(worker_id, *event, *snapshot),
    {
        match event {
            WorkerNamespaceEventKind::NamespaceCreated => self.next_port as u128
                + self.deferred_grants.len() as u128 <= u64::MAX as u128,
            WorkerNamespaceEventKind::EndpointDemand { .. } => self.next_port < u64::MAX,
            WorkerNamespaceEventKind::PodSuspended { pod_id, artifact_id } => {
                if self.active_workers.contains_key(&worker_id) && snapshot.pods.contains_key(pod_id) {
                    let text: Vec<char> = chars_of(artifact_id.0.as_str());
                    proof {
                        assert(text@.subrange(0, text@.len() as int) =~= text@);
                    }
                    parse_number(&text, 0, text.len(), 10, u64::MAX).is_some()
                } else {
                    true
                }
            },
            _ => true,
        }
    }

    /// Whether a message can be taken in.
    pub fn accepts(
        &self,
        message: &OrchestratorToNamespace,
        snapshot: &RouterSnapshot,
        peers: &Vec<WgPeerOutput>,
    ) -> (r: bool)
        ensures
            r == self.can_take(*message, *snapshot, peers@),
    {
        match message {
            OrchestratorToNamespace::WorkerEvent(w) => self.accepts_report(
                w.worker_id,
                &w.event,
                snapshot,
            ),
            OrchestratorToNamespace::SchedulerDecision(decision) => match decision {
                SchedulerDecision::Grant { .. } => self.next_port < u64::MAX,
                SchedulerDecision::Revoke { .. } => true,
            },
            OrchestratorToNamespace::ClientCommand(command) => {
                self.accepts_command(command, peers)
            },
            _ => true,
        }
    }

    fn has_mask(&self) -> (r: bool)
        ensures
            r == has_netmask(self.current_spec),
    {
        match &self.current_spec {
            Some(c) => c.network.prefix_len <= 32,
            None => true,
        }
    }

    fn stores(&self, worker_id: WorkerId) -> (r: bool)
        ensures
            r == has_store(self.active_workers@, worker_id),
    {
        match self.active_workers.get(&worker_id) {
            Some(Some(_)) => true,
            _ => false,
        }
    }

    fn knows_address(info: &EndpointInfo) -> (r: bool)
        ensures
            r == addressed(*info),
    {
        match (&info.kind, info.backend) {
            (EndpointKind::Service { .. }, Some(b)) => b.ip.is_some(),
            _ => true,
        }
    }

    fn know_addresses(list: &Vec<EndpointAction>) -> (r: bool)
        ensures
            r == all_addressed_in(list@),
    {
        let mut i: usize = 0;
        while i < list.len()
            invariant
                i <= list@.len(),
                all_addressed_in(list@.take(i as int)),
            decreases list@.len() - i,
        {
            if let EndpointAction::Update { info, .. } = &list[i] {
                if !Self::knows_address(info) {
                    assert(!all_addressed_in(list@)) by {
                        assert(list@[i as int] matches EndpointAction::Update { info, .. }
                            && !addressed(info));
                    }
                    return false;
                }
            }
            proof {
                assert forall|j: int| 0 <= j < i + 1 implies ((
                #[trigger] list@.take(i + 1)[j]) matches EndpointAction::Update { info, .. }
                    ==> addressed(info)) by {
                    if j < i {
                        assert(list@.take(i as int)[j] == list@[j]);
                    }
                }
            }
            i = i + 1;
        }
        assert(list@.take(i as int) =~= list@);
        true
    }

    /// Whether what the router delivers can be turned into commands.
    pub fn runs<E>(&self, drain: &RouterDrain<E>) -> (r: bool)
        ensures
            r == self.can_run(*drain),
    {
        if self.next_artifact_counter as u128 + drain.workers.len() as u128 > u64::MAX as u128 {
            return false;
        }
        let ghost actions = all_addressed(drain.workers@);
        let mut i: usize = 0;
        while i < drain.workers.len()
            invariant
                i <= drain.workers@.len(),
                actions == all_addressed(drain.workers@),
                forall|j: int| 0 <= j < i ==> feasible(self.site(), #[trigger] actions[j]),
            decreases drain.workers@.len() - i,
        {
            let worker_id: WorkerId = drain.workers[i].0;
            let fine: bool = match &drain.workers[i].1 {
                WorkerPortInput::AssignedPodsInput(delta) => match delta {
                    PodAssignmentDelta::Launch { .. } => self.has_mask(),
                    PodAssignmentDelta::Resume { .. } => self.has_mask() && self.stores(worker_id),
                    PodAssignmentDelta::Suspend { .. } => self.stores(worker_id),
                    PodAssignmentDelta::Stop { .. } => true,
                },
            };
            assert(fine == feasible(self.site(), actions[i as int]));
            if !fine {
                return false;
            }
            i = i + 1;
        }
        let ghost s = drain.endpoints@;
        let ghost port = self.endpoint.port();
        let mut i: usize = 0;
        assert(s.take(0) =~= seq![]);
        while i < drain.endpoints.len()
            invariant
                i <= s.len(),
                s == drain.endpoints@,
                port == self.endpoint.port(),
                all_addressed_in(delivered(port, s.take(i as int))),
            decreases s.len() - i,
        {
            proof {
                assert(s.take(i + 1).drop_last() =~= s.take(i as int));
                assert(s.take(i + 1).last() == s[i as int]);
            }
            if drain.endpoints[i].0 == self.endpoint.fabric_endpoint_id() {
                match &drain.endpoints[i].1 {
                    FabricEndpointPortInput::EndpointsInput(list) => {
                        let fine: bool = Self::know_addresses(list);
                        proof {
                            lemma_addressed_together(delivered(port, s.take(i as int)), list@);
                        }
                        if !fine {
                            proof {
                                lemma_addressed_prefix(port, s, i + 1);
                            }
                            return false;
                        }
                    },
                }
            }
            i = i + 1;
        }
        assert(s.take(i as int) =~= s);
        true
    }
}

proof fn lemma_addressed_together(a: Seq<EndpointAction>, b: Seq<EndpointAction>)
    ensures
        all_addressed_in(a + b) == (all_addressed_in(a) && all_addressed_in(b)),
{
    let c = a + b;
    if all_addressed_in(c) {
        assert forall|i: int| 0 <= i < a.len() implies ((
        #[trigger] a[i]) matches EndpointAction::Update { info, .. } ==> addressed(info)) by {
            assert(c[i] == a[i]);
        }
        assert forall|i: int| 0 <= i < b.len() implies ((
        #[trigger] b[i]) matches EndpointAction::Update { info, .. } ==> addressed(info)) by {
            assert(c[a.len() + i] == b[i]);
        }
    }
}

proof fn lemma_addressed_prefix(
    port: crate::sm::FabricEndpointId,
    s: Seq<(crate::sm::FabricEndpointId, FabricEndpointPortInput)>,
    n: int,
)
    requires
        0 <= n <= s.len(),
        !all_addressed_in(delivered(port, s.take(n))),
    ensures
        !all_addressed_in(delivered(port, s)),
    decreases s.len() - n,
{
    if n == s.len() {
        assert(s.take(n) =~= s);
    } else {
        assert(s.take(n + 1).drop_last() =~= s.take(n));
        assert(s.take(n + 1).last() == s[n]);
        if s[n].0 == port {
            match s[n].1 {
                FabricEndpointPortInput::EndpointsInput(list) => {
                    lemma_addressed_together(delivered(port, s.take(n)), list@);
                },
            }
        }
        lemma_addressed_prefix(port, s, n + 1);
    }
}

} // verus!
