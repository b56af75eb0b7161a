//! Demand and readiness: what services want of workloads, and what workloads can offer services.
use vstd::prelude::*;

use crate::ids::{ServiceId, WorkloadId};
use crate::namespace::effects::service_conditions;
use crate::namespace::{demand_checks, FollowUp, NamespaceStateMachine};
use crate::output::{NamespaceOutput, OutputView, SmWorkloadEvent, WorkloadEventView};
use crate::service::{ServiceInput, ServiceOutput, ServiceStateMachine};
use crate::sorted_map::{increasing, lemma_position_unique, same_keys, Key};
use crate::types::{NamespaceStatus, ServiceBackend};
use crate::workload::{WorkloadInput, WorkloadReadyInfo};

verus! {

/// How many services of a workload want a backend.
pub open spec fn demanding(
    links: Seq<(ServiceId, WorkloadId)>,
    services: Map<Seq<char>, ServiceStateMachine>,
    workload: Seq<char>,
) -> nat
    decreases links.len(),
{
    if links.len() == 0 {
        0
    } else {
        let last = links.last();
        let rest = demanding(links.drop_last(), services, workload);
        if last.1.id() == workload && services.contains_key(last.0.id())
            && services[last.0.id()].wanting() {
            rest + 1
        } else {
            rest
        }
    }
}

/// Demand is bounded by the number of services.
pub proof fn lemma_demanding_bound(
    links: Seq<(ServiceId, WorkloadId)>,
    services: Map<Seq<char>, ServiceStateMachine>,
    workload: Seq<char>,
)
    ensures
        demanding(links, services, workload) <= links.len(),
    decreases links.len(),
{
    if links.len() > 0 {
        lemma_demanding_bound(links.drop_last(), services, workload);
    }
}

impl NamespaceStateMachine {
    /// The demand for a workload: its services that want a backend, and one for open flows.
    pub open spec fn demand(self, workload: Seq<char>) -> nat {
        demanding(self.service_workload.seq(), self.services@, workload) + if self.active_flows@.contains_key(
            workload,
        ) {
            1nat
        } else {
            0nat
        }
    }

    /// The demand for a workload.
    pub fn effective_demand(&self, workload_id: &WorkloadId) -> (r: u32)
        requires
            self.service_workload.seq().len() < u32::MAX,
        ensures
            r == self.demand(workload_id.id()),
    {
        let n: usize = self.service_workload.len();
        let ghost s = self.service_workload.seq();
        let ghost w = workload_id.id();
        let mut count: u32 = 0;
        let mut i: usize = 0;
        assert(s.take(0) =~= Seq::<(ServiceId, WorkloadId)>::empty());
        while i < n
            invariant
                n == s.len(),
                s == self.service_workload.seq(),
                s.len() < u32::MAX,
                w == workload_id.id(),
                i <= n,
                count == demanding(s.take(i as int), self.services@, w),
                count <= i,
            decreases n - i,
        {
            proof {
                assert(s.take(i + 1).drop_last() =~= s.take(i as int));
                assert(s.take(i + 1).last() == s[i as int]);
            }
            if self.service_workload.value_at(i).same(workload_id) {
                if let Some(svc) = self.services.get(self.service_workload.key_at(i)) {
                    if svc.wants_backend() {
                        count = count + 1;
                    }
                }
            }
            i = i + 1;
        }
        assert(s.take(n as int) =~= s);
        if self.active_flows.contains_key(workload_id) {
            count + 1
        } else {
            count
        }
    }

    /// What a demand check gives out.
    pub open spec fn demand_out(self, workload_id: WorkloadId, out: OutputView) -> OutputView {
        let w = workload_id.id();
        if self.workloads@.contains_key(w) && self.demand(w)
            != self.workloads@[w].status.current_demand {
            out.with_workload_event(
                workload_id,
                WorkloadEventView::DemandChanged { demanding_services: self.demand(w) as u32 },
            )
        } else {
            out
        }
    }

    /// What follows a demand check.
    pub open spec fn demand_next(self, workload_id: WorkloadId) -> Seq<FollowUp> {
        let w = workload_id.id();
        if !self.workloads@.contains_key(w) {
            seq![]
        } else if self.demand(w) != self.workloads@[w].status.current_demand {
            seq![
                FollowUp::StepWorkload {
                    workload_id,
                    input: WorkloadInput::SetDemand { count: self.demand(w) as u32 },
                    retry: false,
                },
                FollowUp::ReconcileReadiness { workload_id },
            ]
        } else {
            seq![FollowUp::ReconcileReadiness { workload_id }]
        }
    }

    /// Compares a workload's demand with what its services want. Where they differ the workload is
    /// told; in any case its services then learn whether it is ready.
    pub fn reconcile_demand(&self, workload_id: &WorkloadId, out: &mut NamespaceOutput) -> (r: Vec<
        FollowUp,
    >)
        requires
            self.service_workload.seq().len() < u32::MAX,
        ensures
            final(out)@ == self.demand_out(*workload_id, old(out)@),
            r@ == self.demand_next(*workload_id),
    {
        let mut follow_ups: Vec<FollowUp> = Vec::new();
        if let Some(wl) = self.workloads.get(workload_id) {
            let new_demand: u32 = self.effective_demand(workload_id);
            if new_demand != wl.status.current_demand {
                out.workload_event(
                    workload_id.clone(),
                    SmWorkloadEvent::DemandChanged { demanding_services: new_demand },
                );
                follow_ups.push(
                    FollowUp::StepWorkload {
                        workload_id: workload_id.clone(),
                        input: WorkloadInput::SetDemand { count: new_demand },
                        retry: false,
                    },
                );
            }
            follow_ups.push(FollowUp::ReconcileReadiness { workload_id: workload_id.clone() });
        }
        assert(follow_ups@ =~= self.demand_next(*workload_id));
        follow_ups
    }

    /// Checks the demand of every workload, unless the namespace is on its way out.
    pub fn reconcile_all_services(&self) -> (r: Vec<FollowUp>)
        ensures
            r@ == (if self.status == NamespaceStatus::Destroying {
                seq![]
            } else {
                demand_checks(self.workloads.seq())
            }),
    {
        if self.status == NamespaceStatus::Destroying {
            Vec::new()
        } else {
            self.reconcile_all_demand()
        }
    }

    /// `svc` after an input.
    pub open spec fn stepped(svc: ServiceStateMachine, input: ServiceInput) -> ServiceStateMachine {
        ServiceStateMachine { state: svc.next_state(input), ..svc }
    }

    /// What is given out when a service takes an input.
    pub open spec fn step_out(
        self,
        service_id: ServiceId,
        input: ServiceInput,
        out: OutputView,
    ) -> OutputView {
        let svc = self.services@[service_id.id()];
        self.service_effects(
            Some(Self::stepped(svc, input)),
            service_id,
            svc.outputs(input, self.namespace_id),
            out,
        )
    }

    /// `after` is `self` with one service after an input.
    pub open spec fn with_stepped(
        self,
        service: Seq<char>,
        input: ServiceInput,
        after: NamespaceStateMachine,
    ) -> bool {
        &&& after == NamespaceStateMachine { services: after.services, ..self }
        &&& same_keys(after.services.seq(), self.services.seq())
        &&& after.services@ == self.services@.insert(service, after.services@[service])
        &&& alike(after.services@[service], Self::stepped(self.services@[service], input))
    }

    /// Steps a service that is there and does what it asks for.
    pub fn step_service(
        &mut self,
        service_id: &ServiceId,
        input: ServiceInput,
        out: &mut NamespaceOutput,
    )
        requires
            old(self).services@.contains_key(service_id.id()),
        ensures
            final(out)@ == old(self).step_out(*service_id, input, old(out)@),
            old(self).with_stepped(service_id.id(), input, *final(self)),
    {
        let ghost before = *self;
        let ghost s = service_id.id();
        let namespace_id = self.namespace_id.clone();
        let change = |svc: ServiceStateMachine| -> (r: (ServiceStateMachine, Vec<ServiceOutput>))
            ensures
                r.0 == Self::stepped(svc, input),
                r.1@ == svc.outputs(input, namespace_id),
            {
                let mut svc: ServiceStateMachine = svc;
                let outputs = svc.step(input, &namespace_id);
                (svc, outputs)
            };
        let outputs: Vec<ServiceOutput> = match self.services.modify(service_id, change) {
            Some(outputs) => outputs,
            None => Vec::new(),
        };
        let ghost mid = *self;
        self.translate_service_effects(service_id, &outputs, out);
        proof {
            lemma_no_conditions(before.services@[s], input, before.namespace_id);
            lemma_same_effects(
                mid,
                before,
                mid.service(s),
                *service_id,
                outputs@,
                old(out)@,
            );
            assert(self.services@ =~= before.services@.insert(s, self.services@[s]));
        }
    }

    /// What a workload's services are told: that it is ready, or that it is not. Nothing is told of
    /// a ready workload that the spec does not know.
    pub open spec fn readiness_input(self, workload: Seq<char>) -> Option<ServiceInput> {
        if !self.workload_readiness@.contains_key(workload) {
            Some(ServiceInput::WorkloadUnready)
        } else if self.spec.workloads@.contains_key(workload) {
            let info = self.workload_readiness@[workload];
            Some(
                ServiceInput::WorkloadReady {
                    pod_id: info.pod_id,
                    worker_id: info.worker_id,
                    backend: ServiceBackend {
                        pod_ip: self.spec.workloads@[workload].network.ip,
                    },
                },
            )
        } else {
            None
        }
    }

    /// What is given out when the services of a workload take an input, in order.
    pub open spec fn readiness_out(
        self,
        links: Seq<(ServiceId, WorkloadId)>,
        workload: Seq<char>,
        input: ServiceInput,
        out: OutputView,
    ) -> OutputView
        decreases links.len(),
    {
        if links.len() == 0 {
            out
        } else {
            let rest = self.readiness_out(links.drop_last(), workload, input, out);
            let last = links.last();
            if last.1.id() == workload && self.services@.contains_key(last.0.id()) {
                self.step_out(last.0, input, rest)
            } else {
                rest
            }
        }
    }

    /// `after` is `self` with the services that the first `n` links tie to a workload after an
    /// input.
    pub open spec fn services_stepped(
        self,
        n: int,
        workload: Seq<char>,
        input: ServiceInput,
        after: NamespaceStateMachine,
    ) -> bool {
        &&& after == NamespaceStateMachine { services: after.services, ..self }
        &&& same_keys(after.services.seq(), self.services.seq())
        &&& after.services@.dom() == self.services@.dom()
        &&& forall|s: Seq<char>|
            #![trigger after.services@[s]]
            self.services@.contains_key(s) ==> if tied(
                self.service_workload.seq(),
                n,
                s,
                workload,
            ) {
                alike(after.services@[s], Self::stepped(self.services@[s], input))
            } else {
                after.services@[s] == self.services@[s]
            }
    }

    /// Tells the services of a workload whether it is ready.
    pub fn reconcile_readiness(&mut self, workload_id: &WorkloadId, out: &mut NamespaceOutput)
        ensures
            match old(self).readiness_input(workload_id.id()) {
                Some(input) => {
                    &&& final(out)@ == old(self).readiness_out(
                        old(self).service_workload.seq(),
                        workload_id.id(),
                        input,
                        old(out)@,
                    )
                    &&& old(self).services_stepped(
                        old(self).service_workload.seq().len() as int,
                        workload_id.id(),
                        input,
                        *final(self),
                    )
                },
                None => final(out)@ == old(out)@ && *final(self) == *old(self),
            },
    {
        let ready: Option<WorkloadReadyInfo> = match self.workload_readiness.get(workload_id) {
            Some(info) => Some(info.clone()),
            None => None,
        };
        let mut backend: Option<ServiceBackend> = None;
        if ready.is_some() {
            match self.spec.workloads.get(workload_id) {
                Some(wl_spec) => {
                    backend = Some(ServiceBackend { pod_ip: wl_spec.network.ip });
                },
                None => {
                    return;
                },
            }
        }
        let ghost before = *self;
        let ghost w = workload_id.id();
        let ghost input = before.readiness_input(w).unwrap();
        let ghost links = before.service_workload.seq();
        let n: usize = self.service_workload.len();
        let mut i: usize = 0;
        proof {
            assert(links.take(0) =~= Seq::<(ServiceId, WorkloadId)>::empty());
            assert(increasing(links));
        }
        while i < n
            invariant
                n == links.len(),
                i <= n,
                before == *old(self),
                w == workload_id.id(),
                links == before.service_workload.seq(),
                increasing(links),
                before.readiness_input(w) == Some(input),
                ready matches Some(info) ==> before.workload_readiness@.contains_key(w) && info
                    == before.workload_readiness@[w] && backend == Some(
                    ServiceBackend { pod_ip: before.spec.workloads@[w].network.ip },
                ),
                ready is None ==> !before.workload_readiness@.contains_key(w),
                out@ == before.readiness_out(links.take(i as int), w, input, old(out)@),
                before.services_stepped(i as int, w, input, *self),
            decreases n - i,
        {
            proof {
                assert(links.take(i + 1).drop_last() =~= links.take(i as int));
                assert(links.take(i + 1).last() == links[i as int]);
            }
            let service_id: ServiceId = self.service_workload.key_at(i).clone();
            let linked: bool = self.service_workload.value_at(i).same(workload_id);
            let ghost cur = *self;
            let ghost s = service_id.id();
            let ghost mid = out@;
            proof {
                lemma_not_tied_before(links, i as int, w);
            }
            if linked && self.services.contains_key(&service_id) {
                let told: ServiceInput = match &ready {
                    Some(info) => ServiceInput::WorkloadReady {
                        pod_id: info.pod_id.clone(),
                        worker_id: info.worker_id.clone(),
                        backend: match backend {
                            Some(b) => b,
                            None => ServiceBackend { pod_ip: 0 },
                        },
                    },
                    None => ServiceInput::WorkloadUnready,
                };
                proof {
                    assert(told == input);
                    assert(cur.services@[s] == before.services@[s]);
                    lemma_same_effects(
                        cur,
                        before,
                        Some(Self::stepped(before.services@[s], input)),
                        service_id,
                        before.services@[s].outputs(input, before.namespace_id),
                        mid,
                    );
                }
                self.step_service(&service_id, told, out);
            }
            proof {
                assert forall|q: Seq<char>|
                    #![trigger self.services@[q]]
                    before.services@.contains_key(q) implies if tied(links, i + 1, q, w) {
                    alike(self.services@[q], Self::stepped(before.services@[q], input))
                } else {
                    self.services@[q] == before.services@[q]
                } by {
                    lemma_tied_step(links, i as int, q, w);
                    assert(cur.services@.contains_key(q));
                    let earlier = cur.services@[q];
                }
                assert(self.services@.dom() =~= before.services@.dom());
            }
            i = i + 1;
        }
        assert(links.take(n as int) =~= links);
    }
}

/// One of the first `n` links ties a service to a workload.
pub open spec fn tied(
    links: Seq<(ServiceId, WorkloadId)>,
    n: int,
    service: Seq<char>,
    workload: Seq<char>,
) -> bool {
    exists|j: int|
        0 <= j < n && (#[trigger] links[j]).0.id() == service && links[j].1.id() == workload
}

proof fn lemma_tied_step(
    links: Seq<(ServiceId, WorkloadId)>,
    n: int,
    service: Seq<char>,
    workload: Seq<char>,
)
    requires
        0 <= n < links.len(),
    ensures
        tied(links, n + 1, service, workload) <==> (tied(links, n, service, workload) || (
        links[n].0.id() == service && links[n].1.id() == workload)),
{
    if tied(links, n, service, workload) {
        let j = choose|j: int|
            0 <= j < n && (#[trigger] links[j]).0.id() == service && links[j].1.id() == workload;
        assert(links[j].0.id() == service);
    }
}

proof fn lemma_not_tied_before(links: Seq<(ServiceId, WorkloadId)>, n: int, workload: Seq<char>)
    requires
        increasing(links),
        0 <= n < links.len(),
    ensures
        !tied(links, n, links[n].0.id(), workload),
{
    let service = links[n].0.id();
    if tied(links, n, service, workload) {
        let j = choose|j: int|
            0 <= j < n && (#[trigger] links[j]).0.id() == service && links[j].1.id() == workload;
        lemma_position_unique(links, j);
        lemma_position_unique(links, n);
    }
}

/// Two services that differ at most in how their conditions are stored.
pub open spec fn alike(a: ServiceStateMachine, b: ServiceStateMachine) -> bool {
    &&& a == ServiceStateMachine { conditions: a.conditions, ..b }
    &&& a.conditions.seq() == b.conditions.seq()
}

/// A step of a service touches no conditions.
proof fn lemma_no_conditions(
    svc: ServiceStateMachine,
    input: ServiceInput,
    namespace_id: crate::ids::NamespaceId,
)
    ensures
        service_conditions(svc.conditions.seq(), svc.outputs(input, namespace_id))
            == svc.conditions.seq(),
{
    let all = svc.outputs(input, namespace_id);
    assert(all.len() <= 3);
    reveal_with_fuel(service_conditions, 5);
    assert(forall|i: int|
        0 <= i < all.len() ==> !(#[trigger] all[i] is ConditionSet) && !(all[i] is ConditionClear));
    if all.len() > 0 {
        let a = all.drop_last();
        assert(all.last() == all[all.len() - 1]);
        if a.len() > 0 {
            let b = a.drop_last();
            assert(a.last() == all[a.len() - 1]);
            if b.len() > 0 {
                assert(b.last() == all[b.len() - 1]);
            }
        }
    }
}

/// What a service's outputs give out depends on the namespace's spec and workers alone.
pub(crate) proof fn lemma_same_effects(
    a: NamespaceStateMachine,
    b: NamespaceStateMachine,
    svc: Option<ServiceStateMachine>,
    service_id: ServiceId,
    outputs: Seq<ServiceOutput>,
    out: OutputView,
)
    requires
        a.namespace_id == b.namespace_id,
        a.spec == b.spec,
        a.workers == b.workers,
    ensures
        a.service_effects(svc, service_id, outputs, out) == b.service_effects(
            svc,
            service_id,
            outputs,
            out,
        ),
    decreases outputs.len(),
{
    if outputs.len() > 0 {
        lemma_same_effects(a, b, svc, service_id, outputs.drop_last(), out);
    }
}

} // verus!
