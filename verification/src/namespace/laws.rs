//! Scale to zero: a workload is wanted while it is used, and is told when that changes.
use vstd::prelude::*;

use crate::ids::{ServiceId, WorkerId, WorkloadId};
use crate::namespace::events::WorkerEvent;
use crate::namespace::reconciliation::{demanding, lemma_demanding_bound};
use crate::namespace::step::NamespaceInput;
use crate::namespace::{FollowUp, NamespaceStateMachine};
use crate::output::OutputView;
use crate::placement::ArtifactPlacement;
use crate::service::{ServiceState, ServiceStateMachine};
use crate::sorted_map::{has_key, position, Key};
use crate::types::NamespaceStatus;
use crate::workload::WorkloadInput;

verus! {

/// A service of a workload that wants a backend.
pub open spec fn asks_for(
    link: (ServiceId, WorkloadId),
    services: Map<Seq<char>, ServiceStateMachine>,
    workload: Seq<char>,
) -> bool {
    &&& link.1.id() == workload
    &&& services.contains_key(link.0.id())
    &&& services[link.0.id()].wanting()
}

impl NamespaceStateMachine {
    /// Flows are open to a workload, or one of its services wants a backend.
    pub open spec fn wanted(self, workload: Seq<char>) -> bool {
        ||| self.active_flows@.contains_key(workload)
        ||| exists|i: int|
            0 <= i < self.service_workload.seq().len() && asks_for(
                #[trigger] self.service_workload.seq()[i],
                self.services@,
                workload,
            )
    }
}

proof fn lemma_someone_asks(
    links: Seq<(ServiceId, WorkloadId)>,
    services: Map<Seq<char>, ServiceStateMachine>,
    workload: Seq<char>,
)
    ensures
        demanding(links, services, workload) > 0 <==> exists|i: int|
            0 <= i < links.len() && asks_for(#[trigger] links[i], services, workload),
    decreases links.len(),
{
    if links.len() > 0 {
        let rest = links.drop_last();
        lemma_someone_asks(rest, services, workload);
        if demanding(rest, services, workload) > 0 {
            let i = choose|i: int|
                0 <= i < rest.len() && asks_for(#[trigger] rest[i], services, workload);
            assert(links[i] == rest[i]);
        } else if demanding(links, services, workload) > 0 {
            assert(asks_for(links[links.len() - 1], services, workload));
        } else {
            assert forall|i: int| 0 <= i < links.len() implies !asks_for(
                #[trigger] links[i],
                services,
                workload,
            ) by {
                if i < rest.len() {
                    assert(links[i] == rest[i]);
                }
            }
        }
    }
}

/// There is demand for a workload exactly while it is wanted.
pub proof fn law_demand_while_wanted(ns: NamespaceStateMachine, workload: Seq<char>)
    ensures
        ns.demand(workload) > 0 <==> ns.wanted(workload),
{
    lemma_someone_asks(ns.service_workload.seq(), ns.services@, workload);
}

/// Traffic to a service that sleeps makes its workload wanted, and the demand for it is checked.
pub proof fn law_traffic_wakes_service(
    before: NamespaceStateMachine,
    worker_id: WorkerId,
    ip: u32,
    service_id: ServiceId,
    placements: Map<Seq<char>, ArtifactPlacement>,
    after: NamespaceStateMachine,
    placements_after: Map<Seq<char>, ArtifactPlacement>,
    out: OutputView,
    next: Seq<FollowUp>,
)
    requires
        before.takes(
            NamespaceInput::WorkerEvent {
                worker_id,
                event: WorkerEvent::EndpointActivation { ip, service_id: Some(service_id) },
            },
            placements,
            after,
            placements_after,
            out,
            next,
        ),
        before.workers@.contains_key(worker_id.id()),
        before.services@.contains_key(service_id.id()),
        before.services@[service_id.id()].state == ServiceState::Idle,
        before.service_workload@.contains_key(service_id.id()),
        before.service_workload@[service_id.id()].id()
            == before.services@[service_id.id()].workload_id.id(),
        before.status != NamespaceStatus::Destroying,
    ensures
        after.wanted(before.services@[service_id.id()].workload_id.id()),
        next == seq![
            FollowUp::ReconcileDemand { workload_id: before.services@[service_id.id()].workload_id },
        ],
{
    let s = service_id.id();
    let links = before.service_workload.seq();
    assert(has_key(links, s));
    let i = position(links, s);
    assert(0 <= i < links.len() && links[i].0.id() == s);
    assert(after.services@.contains_key(s));
    assert(after.services@[s].wanting());
    assert(asks_for(
        after.service_workload.seq()[i],
        after.services@,
        before.services@[s].workload_id.id(),
    ));
}

/// Traffic to the address of a workload makes it wanted, and the demand for it is checked.
pub proof fn law_flows_wake_workload(
    before: NamespaceStateMachine,
    worker_id: WorkerId,
    ip: u32,
    workload_id: WorkloadId,
    placements: Map<Seq<char>, ArtifactPlacement>,
    after: NamespaceStateMachine,
    placements_after: Map<Seq<char>, ArtifactPlacement>,
    out: OutputView,
    next: Seq<FollowUp>,
)
    requires
        before.takes(
            NamespaceInput::WorkerEvent {
                worker_id,
                event: WorkerEvent::EndpointActivation { ip, service_id: None },
            },
            placements,
            after,
            placements_after,
            out,
            next,
        ),
        before.workers@.contains_key(worker_id.id()),
        before.flow_target(ip, None) == Some(workload_id),
        before.status != NamespaceStatus::Destroying,
    ensures
        after.wanted(workload_id.id()),
        next == seq![FollowUp::ReconcileDemand { workload_id }],
{
}

/// A check tells a workload that is wanted and does not know it, and one that is no longer wanted
/// and still thinks so.
pub proof fn law_workload_learns_of_demand(ns: NamespaceStateMachine, workload_id: WorkloadId)
    requires
        ns.workloads@.contains_key(workload_id.id()),
        ns.wanted(workload_id.id()) != (ns.workloads@[workload_id.id()].status.current_demand > 0),
        ns.service_workload.seq().len() < u32::MAX,
    ensures
        ns.demand_next(workload_id).len() > 0,
        ns.demand_next(workload_id)[0] matches FollowUp::StepWorkload {
            workload_id: w,
            input: WorkloadInput::SetDemand { count },
            ..
        } && w == workload_id && (count > 0) == ns.wanted(workload_id.id()),
{
    law_demand_while_wanted(ns, workload_id.id());
    lemma_demanding_bound(ns.service_workload.seq(), ns.services@, workload_id.id());
}

} // verus!
