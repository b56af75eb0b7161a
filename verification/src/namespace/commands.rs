//! What clients and the scheduler ask of a namespace.
use vstd::prelude::*;

use crate::broadcast::{send_to_active_workers, targets, to_each};
use crate::ids::{ArtifactId, ClientId, NamespaceId, PodId, PoolId, ServiceId, WorkerId, WorkloadId};
use crate::namespace::effects::convert_resources;
use crate::namespace::reconciliation::{alike, lemma_same_effects};
use crate::namespace::{
    demand_checks, fresh_service, fresh_workload, new_service, FollowUp, NamespaceStateMachine,
};
use crate::output::{
    ClientEvent, ClientEventView, EventView, NamespaceOutput, OutputView, SmServiceEvent,
    SmWorkloadEvent, WorkloadEventView,
};
use crate::pod_map::PodInfo;
use crate::service::{
    ServiceDeactivationReason, ServiceInput, ServiceState, ServiceStateMachine,
};
use crate::sorted_map::{erase, increasing, lemma_position_unique, same_keys, Key};
use crate::types::{
    BackendNeed, CommandView, FabricStatus, NamespaceSpec, NamespaceStatus, NamespaceWorkerState,
    ServiceSpec, WorkerCommand, WorkloadSpec,
};
use crate::workload::{Workload, WorkloadInput, WorkloadState, WorkloadStatus};

verus! {

// ---- a new spec -----------------------------------------------------------------------------

/// The entries of workloads that a spec does not know, in order.
pub open spec fn gone_workloads(
    workloads: Seq<(WorkloadId, Workload)>,
    spec: Map<Seq<char>, WorkloadSpec>,
) -> Seq<WorkloadState>
    decreases workloads.len(),
{
    if workloads.len() == 0 {
        seq![]
    } else {
        let rest = gone_workloads(workloads.drop_last(), spec);
        let last = workloads.last();
        if spec.contains_key(last.0.id()) {
            rest
        } else {
            rest.push(last.1.status.state)
        }
    }
}

/// The names of services that a spec does not know, in order.
pub open spec fn gone_services(
    services: Seq<(ServiceId, ServiceStateMachine)>,
    spec: Map<Seq<char>, ServiceSpec>,
) -> Seq<ServiceId>
    decreases services.len(),
{
    if services.len() == 0 {
        seq![]
    } else {
        let rest = gone_services(services.drop_last(), spec);
        let last = services.last();
        if spec.contains_key(last.0.id()) {
            rest
        } else {
            rest.push(last.0)
        }
    }
}

/// What is given out for a workload that is dropped: its timer stops, its pod stops (gracefully if
/// it runs), its snapshot is deleted.
pub open spec fn dropped(namespace_id: NamespaceId, state: WorkloadState, out: OutputView) -> OutputView {
    match state {
        WorkloadState::Dormant => out,
        WorkloadState::WaitingForCapacity => out,
        WorkloadState::Launching { pod_id, worker_id, launch_timeout } => out.with_cancel(
            launch_timeout,
        ).with_command(
            worker_id,
            CommandView::StopPod { namespace_id, pod_id, graceful: false },
        ),
        WorkloadState::Running { pod_id, worker_id } => out.with_command(
            worker_id,
            CommandView::StopPod { namespace_id, pod_id, graceful: true },
        ),
        WorkloadState::Suspending { pod_id, worker_id, suspend_timeout } => out.with_cancel(
            suspend_timeout,
        ).with_command(
            worker_id,
            CommandView::StopPod { namespace_id, pod_id, graceful: false },
        ),
        WorkloadState::Suspended { worker_id, artifact_id, pool_id } => out.with_command(
            worker_id,
            CommandView::DeleteArtifact { artifact_id, pool_id },
        ),
        WorkloadState::Resuming { pod_id, worker_id, artifact_id, pool_id, resume_timeout } => {
            out.with_cancel(resume_timeout).with_command(
                worker_id,
                CommandView::StopPod { namespace_id, pod_id, graceful: false },
            ).with_command(worker_id, CommandView::DeleteArtifact { artifact_id, pool_id })
        },
    }
}

/// What is given out for workloads that are dropped, in order.
pub open spec fn dropped_all(
    namespace_id: NamespaceId,
    states: Seq<WorkloadState>,
    out: OutputView,
) -> OutputView
    decreases states.len(),
{
    if states.len() == 0 {
        out
    } else {
        dropped(namespace_id, states.last(), dropped_all(namespace_id, states.drop_last(), out))
    }
}

/// The pods without those of workloads that are dropped.
pub open spec fn pods_without(
    pods: Seq<(PodId, PodInfo)>,
    states: Seq<WorkloadState>,
) -> Seq<(PodId, PodInfo)>
    decreases states.len(),
{
    if states.len() == 0 {
        pods
    } else {
        let rest = pods_without(pods, states.drop_last());
        match states.last().pod() {
            Some(p) => erase(rest, p.id()),
            None => rest,
        }
    }
}

/// One `DestroyService` for each active worker and each of `ids`.
pub open spec fn destroyed_services(
    namespace_id: NamespaceId,
    to: Seq<WorkerId>,
    ids: Seq<ServiceId>,
) -> Seq<(WorkerId, CommandView)>
    decreases ids.len(),
{
    if ids.len() == 0 {
        seq![]
    } else {
        destroyed_services(namespace_id, to, ids.drop_last()) + to_each(
            to,
            CommandView::DestroyService { namespace_id, service_id: ids.last() },
        )
    }
}

impl NamespaceStateMachine {
    /// `after` holds what a new spec leaves of `self`: what the spec knows stays as it is, what it
    /// does not know goes, what is new starts fresh.
    pub open spec fn respecified(self, spec: NamespaceSpec, after: NamespaceStateMachine) -> bool {
        &&& after == NamespaceStateMachine {
            spec,
            workloads: after.workloads,
            services: after.services,
            service_workload: after.service_workload,
            pod_map: after.pod_map,
            ..self
        }
        &&& after.workloads@.dom() == spec.workloads@.dom()
        &&& forall|w: Seq<char>| #[trigger]
            after.workloads@.contains_key(w) ==> if self.workloads@.contains_key(w) {
                after.workloads@[w] == self.workloads@[w]
            } else {
                fresh_workload(after.workloads@[w], spec.workloads@[w])
            }
        &&& after.services@.dom() == spec.services@.dom()
        &&& forall|s: Seq<char>| #[trigger]
            after.services@.contains_key(s) ==> if self.services@.contains_key(s) {
                after.services@[s] == self.services@[s]
            } else {
                after.services@[s].service_id.id() == s && fresh_service(
                    after.services@[s],
                    after.services@[s].service_id,
                    spec.services@[s],
                )
            }
        &&& forall|s: Seq<char>| #[trigger]
            after.service_workload@.contains_key(s) <==> (if self.services@.contains_key(s) {
                spec.services@.contains_key(s) && self.service_workload@.contains_key(s)
            } else {
                spec.services@.contains_key(s) || self.service_workload@.contains_key(s)
            })
        &&& forall|s: Seq<char>| #[trigger]
            after.service_workload@.contains_key(s) ==> after.service_workload@[s] == (
            if !self.services@.contains_key(s) && spec.services@.contains_key(s) {
                spec.services@[s].workload_id
            } else {
                self.service_workload@[s]
            })
        &&& after.pod_map.seq() == pods_without(
            self.pod_map.seq(),
            gone_workloads(self.workloads.seq(), spec.workloads@),
        )
    }

    /// What a new spec gives out, where `after` is what it leaves.
    pub open spec fn respecified_out(
        self,
        client_id: ClientId,
        spec: NamespaceSpec,
        after: NamespaceStateMachine,
        out: OutputView,
    ) -> OutputView {
        let gone = gone_services(self.services.seq(), spec.services@);
        let cleared = dropped_all(
            self.namespace_id,
            gone_workloads(self.workloads.seq(), spec.workloads@),
            out,
        ).with_commands(
            destroyed_services(self.namespace_id, targets(self.workers.seq(), None), gone),
        );
        let renamed = if self.status == NamespaceStatus::Active && gone.len() > 0 {
            cleared.with_commands(after.broadcast(after.registry_sync()))
        } else {
            cleared
        };
        renamed.with_client_event(client_id, ClientEventView::Done)
    }

    fn stop_pod(&self, worker_id: &WorkerId, pod_id: &PodId, graceful: bool, out: &mut NamespaceOutput)
        ensures
            final(out)@ == old(out)@.with_command(
                *worker_id,
                CommandView::StopPod {
                    namespace_id: self.namespace_id,
                    pod_id: *pod_id,
                    graceful,
                },
            ),
    {
        out.command(
            worker_id.clone(),
            WorkerCommand::StopPod {
                namespace_id: self.namespace_id.clone(),
                pod_id: pod_id.clone(),
                graceful,
            },
        );
    }

    fn delete_artifact(
        &self,
        worker_id: &WorkerId,
        artifact_id: &ArtifactId,
        pool_id: &PoolId,
        out: &mut NamespaceOutput,
    )
        ensures
            final(out)@ == old(out)@.with_command(
                *worker_id,
                CommandView::DeleteArtifact { artifact_id: *artifact_id, pool_id: *pool_id },
            ),
    {
        out.command(
            worker_id.clone(),
            WorkerCommand::DeleteArtifact {
                artifact_id: artifact_id.clone(),
                pool_id: pool_id.clone(),
            },
        );
    }

    fn drop_workload(&self, state: &WorkloadState, out: &mut NamespaceOutput)
        ensures
            final(out)@ == dropped(self.namespace_id, *state, old(out)@),
    {
        match state {
            WorkloadState::Dormant | WorkloadState::WaitingForCapacity => {},
            WorkloadState::Launching { pod_id, worker_id, launch_timeout } => {
                out.cancel_timer(launch_timeout.clone());
                self.stop_pod(worker_id, pod_id, false, out);
            },
            WorkloadState::Running { pod_id, worker_id } => {
                self.stop_pod(worker_id, pod_id, true, out);
            },
            WorkloadState::Suspending { pod_id, worker_id, suspend_timeout } => {
                out.cancel_timer(suspend_timeout.clone());
                self.stop_pod(worker_id, pod_id, false, out);
            },
            WorkloadState::Suspended { worker_id, artifact_id, pool_id } => {
                self.delete_artifact(worker_id, artifact_id, pool_id, out);
            },
            WorkloadState::Resuming { pod_id, worker_id, artifact_id, pool_id, resume_timeout } => {
                out.cancel_timer(resume_timeout.clone());
                self.stop_pod(worker_id, pod_id, false, out);
                self.delete_artifact(worker_id, artifact_id, pool_id, out);
            },
        }
    }

    /// Stops the workloads that a spec does not know and forgets their pods.
    fn drop_gone_workloads(&mut self, spec: &NamespaceSpec, out: &mut NamespaceOutput)
        ensures
            final(out)@ == dropped_all(
                old(self).namespace_id,
                gone_workloads(old(self).workloads.seq(), spec.workloads@),
                old(out)@,
            ),
            *final(self) == (NamespaceStateMachine { pod_map: final(self).pod_map, ..*old(self) }),
            final(self).pod_map.seq() == pods_without(
                old(self).pod_map.seq(),
                gone_workloads(old(self).workloads.seq(), spec.workloads@),
            ),
    {
        let ghost before = *self;
        let ghost s = self.workloads.seq();
        let ghost m = spec.workloads@;
        let n: usize = self.workloads.len();
        let mut i: usize = 0;
        assert(s.take(0) =~= Seq::<(WorkloadId, Workload)>::empty());
        while i < n
            invariant
                n == s.len(),
                i <= n,
                before == *old(self),
                s == before.workloads.seq(),
                m == spec.workloads@,
                *self == (NamespaceStateMachine { pod_map: self.pod_map, ..before }),
                out@ == dropped_all(
                    before.namespace_id,
                    gone_workloads(s.take(i as int), m),
                    old(out)@,
                ),
                self.pod_map.seq() == pods_without(
                    before.pod_map.seq(),
                    gone_workloads(s.take(i as int), m),
                ),
            decreases n - i,
        {
            proof {
                assert(s.take(i + 1).drop_last() =~= s.take(i as int));
                assert(s.take(i + 1).last() == s[i as int]);
            }
            let ghost rest = gone_workloads(s.take(i as int), m);
            if !spec.workloads.contains_key(self.workloads.key_at(i)) {
                proof {
                    let state = s[i as int].1.status.state;
                    assert(rest.push(state).drop_last() =~= rest);
                    assert(rest.push(state).last() == state);
                }
                self.drop_workload(&self.workloads.value_at(i).status.state, out);
                let pod: Option<PodId> = match self.workloads.value_at(i).status.state.pod_id() {
                    Some(p) => Some(p.clone()),
                    None => None,
                };
                if let Some(p) = pod {
                    let _ = self.pod_map.remove(&p);
                }
            }
            i = i + 1;
        }
        assert(s.take(n as int) =~= s);
    }

    /// Tells the active workers which services a spec does not know. Returns whether there are any.
    fn destroy_gone_services(&self, spec: &NamespaceSpec, out: &mut NamespaceOutput) -> (r: bool)
        ensures
            final(out)@ == old(out)@.with_commands(
                destroyed_services(
                    self.namespace_id,
                    targets(self.workers.seq(), None),
                    gone_services(self.services.seq(), spec.services@),
                ),
            ),
            r == (gone_services(self.services.seq(), spec.services@).len() > 0),
    {
        let ghost s = self.services.seq();
        let ghost m = spec.services@;
        let ghost to = targets(self.workers.seq(), None);
        let n: usize = self.services.len();
        let mut any: bool = false;
        let mut i: usize = 0;
        proof {
            assert(s.take(0) =~= Seq::<(ServiceId, ServiceStateMachine)>::empty());
            assert(out@ =~= old(out)@.with_commands(seq![]));
        }
        while i < n
            invariant
                n == s.len(),
                i <= n,
                s == self.services.seq(),
                m == spec.services@,
                to == targets(self.workers.seq(), None),
                out@ == old(out)@.with_commands(
                    destroyed_services(self.namespace_id, to, gone_services(s.take(i as int), m)),
                ),
                any == (gone_services(s.take(i as int), m).len() > 0),
            decreases n - i,
        {
            proof {
                assert(s.take(i + 1).drop_last() =~= s.take(i as int));
                assert(s.take(i + 1).last() == s[i as int]);
            }
            let ghost rest = gone_services(s.take(i as int), m);
            let service_id: &ServiceId = self.services.key_at(i);
            if !spec.services.contains_key(service_id) {
                any = true;
                let command = WorkerCommand::DestroyService {
                    namespace_id: self.namespace_id.clone(),
                    service_id: service_id.clone(),
                };
                send_to_active_workers(&self.workers, None, &command, out);
                proof {
                    assert(rest.push(*service_id).drop_last() =~= rest);
                    assert(rest.push(*service_id).last() == *service_id);
                    assert(out@ =~= old(out)@.with_commands(
                        destroyed_services(
                            self.namespace_id,
                            to,
                            gone_services(s.take(i + 1), m),
                        ),
                    ));
                }
            }
            i = i + 1;
        }
        assert(s.take(n as int) =~= s);
        any
    }

    /// Keeps the workloads that a spec knows and adds those that are new.
    fn renew_workloads(&mut self, spec: &NamespaceSpec)
        ensures
            *final(self) == (NamespaceStateMachine {
                workloads: final(self).workloads,
                ..*old(self)
            }),
            final(self).workloads@.dom() == spec.workloads@.dom(),
            forall|w: Seq<char>| #[trigger]
                final(self).workloads@.contains_key(w) ==> if old(self).workloads@.contains_key(w) {
                    final(self).workloads@[w] == old(self).workloads@[w]
                } else {
                    fresh_workload(final(self).workloads@[w], spec.workloads@[w])
                },
    {
        let ghost before = *self;
        let ghost m = spec.workloads@;
        let test = |w: &WorkloadId, _wl: &Workload| -> (r: bool)
            ensures
                r == spec.workloads@.contains_key(w.id()),
            {
                spec.workloads.contains_key(w)
            };
        self.workloads.retain(test, Ghost(|w: Seq<char>, _wl: Workload| m.contains_key(w)));
        let ghost s = spec.workloads.seq();
        let n: usize = spec.workloads.len();
        let mut i: usize = 0;
        while i < n
            invariant
                n == s.len(),
                i <= n,
                s == spec.workloads.seq(),
                increasing(s),
                m == spec.workloads@,
                *self == (NamespaceStateMachine { workloads: self.workloads, ..before }),
                forall|w: Seq<char>| #[trigger]
                    self.workloads@.contains_key(w) ==> m.contains_key(w) && if before.workloads@.contains_key(
                        w,
                    ) {
                        self.workloads@[w] == before.workloads@[w]
                    } else {
                        fresh_workload(self.workloads@[w], m[w])
                    },
                forall|w: Seq<char>|
                    m.contains_key(w) && #[trigger] before.workloads@.contains_key(w)
                        ==> self.workloads@.contains_key(w),
                forall|j: int|
                    0 <= j < i ==> self.workloads@.contains_key((#[trigger] s[j]).0.id()),
            decreases n - i,
        {
            let w: &WorkloadId = spec.workloads.key_at(i);
            if !self.workloads.contains_key(w) {
                self.workloads.insert(
                    w.clone(),
                    Workload::new(spec.workloads.value_at(i).suspend_on_idle),
                );
            }
            i = i + 1;
        }
        proof {
            assert forall|w: Seq<char>| m.contains_key(w) implies self.workloads@.contains_key(w) by {
                let j = choose|j: int| 0 <= j < s.len() && (#[trigger] s[j]).0.id() == w;
                assert(self.workloads@.contains_key(s[j].0.id()));
            }
            assert(self.workloads@.dom() =~= m.dom());
        }
    }

    /// Keeps the services that a spec knows and adds those that are new.
    fn renew_services(&mut self, spec: &NamespaceSpec)
        ensures
            *final(self) == (NamespaceStateMachine {
                services: final(self).services,
                service_workload: final(self).service_workload,
                ..*old(self)
            }),
            final(self).services@.dom() == spec.services@.dom(),
            forall|s: Seq<char>| #[trigger]
                final(self).services@.contains_key(s) ==> if old(self).services@.contains_key(s) {
                    final(self).services@[s] == old(self).services@[s]
                } else {
                    final(self).services@[s].service_id.id() == s && fresh_service(
                        final(self).services@[s],
                        final(self).services@[s].service_id,
                        spec.services@[s],
                    )
                },
            forall|s: Seq<char>| #[trigger]
                final(self).service_workload@.contains_key(s) <==> (if old(
                    self,
                ).services@.contains_key(s) {
                    spec.services@.contains_key(s) && old(self).service_workload@.contains_key(s)
                } else {
                    spec.services@.contains_key(s) || old(self).service_workload@.contains_key(s)
                }),
            forall|s: Seq<char>| #[trigger]
                final(self).service_workload@.contains_key(s) ==> final(self).service_workload@[s]
                    == (if !old(self).services@.contains_key(s) && spec.services@.contains_key(s) {
                    spec.services@[s].workload_id
                } else {
                    old(self).service_workload@[s]
                }),
    {
        let ghost before = *self;
        let ghost m = spec.services@;
        let services = &self.services;
        let test_link = |s: &ServiceId, _w: &WorkloadId| -> (r: bool)
            ensures
                r == (spec.services@.contains_key(s.id()) || !services@.contains_key(s.id())),
            {
                spec.services.contains_key(s) || !services.contains_key(s)
            };
        self.service_workload.retain(
            test_link,
            Ghost(
                |s: Seq<char>, _w: WorkloadId|
                    m.contains_key(s) || !before.services@.contains_key(s),
            ),
        );
        let test = |s: &ServiceId, _svc: &ServiceStateMachine| -> (r: bool)
            ensures
                r == spec.services@.contains_key(s.id()),
            {
                spec.services.contains_key(s)
            };
        self.services.retain(
            test,
            Ghost(|s: Seq<char>, _svc: ServiceStateMachine| m.contains_key(s)),
        );
        let ghost links = self.service_workload@;
        let ghost s = spec.services.seq();
        let n: usize = spec.services.len();
        let mut i: usize = 0;
        while i < n
            invariant
                n == s.len(),
                i <= n,
                s == spec.services.seq(),
                increasing(s),
                m == spec.services@,
                *self == (NamespaceStateMachine {
                    services: self.services,
                    service_workload: self.service_workload,
                    ..before
                }),
                forall|k: Seq<char>| #[trigger]
                    self.services@.contains_key(k) ==> m.contains_key(k) && if before.services@.contains_key(
                        k,
                    ) {
                        self.services@[k] == before.services@[k]
                    } else {
                        self.services@[k].service_id.id() == k && fresh_service(
                            self.services@[k],
                            self.services@[k].service_id,
                            m[k],
                        )
                    },
                forall|k: Seq<char>|
                    m.contains_key(k) && #[trigger] before.services@.contains_key(k)
                        ==> self.services@.contains_key(k),
                forall|j: int|
                    0 <= j < i ==> self.services@.contains_key((#[trigger] s[j]).0.id()),
                forall|k: Seq<char>| #[trigger]
                    links.contains_key(k) <==> before.service_workload@.contains_key(k) && (
                    m.contains_key(k) || !before.services@.contains_key(k)),
                forall|k: Seq<char>| #[trigger]
                    links.contains_key(k) ==> links[k] == before.service_workload@[k],
                forall|k: Seq<char>| #[trigger]
                    self.service_workload@.contains_key(k) <==> links.contains_key(k) || (
                    self.services@.contains_key(k) && !before.services@.contains_key(k)),
                forall|k: Seq<char>| #[trigger]
                    self.service_workload@.contains_key(k) ==> self.service_workload@[k] == (
                    if self.services@.contains_key(k) && !before.services@.contains_key(k) {
                        m[k].workload_id
                    } else {
                        links[k]
                    }),
            decreases n - i,
        {
            let id: &ServiceId = spec.services.key_at(i);
            let svc_spec: &ServiceSpec = spec.services.value_at(i);
            if !self.services.contains_key(id) {
                self.services.insert(id.clone(), new_service(id, svc_spec));
                self.service_workload.insert(id.clone(), svc_spec.workload_id.clone());
            }
            i = i + 1;
        }
        proof {
            assert forall|k: Seq<char>| m.contains_key(k) implies self.services@.contains_key(k) by {
                let j = choose|j: int| 0 <= j < s.len() && (#[trigger] s[j]).0.id() == k;
                assert(self.services@.contains_key(s[j].0.id()));
            }
            assert(self.services@.dom() =~= m.dom());
        }
    }

    /// Takes a new spec. What the spec no longer knows is stopped, what is new is added; a spec that
    /// only changes in place is taken over as it is.
    pub fn handle_update_spec(
        &mut self,
        client_id: ClientId,
        spec: NamespaceSpec,
        out: &mut NamespaceOutput,
    ) -> (r: Vec<FollowUp>)
        ensures
            old(self).status == NamespaceStatus::Destroying ==> {
                &&& *final(self) == *old(self)
                &&& final(out)@ == old(out)@.with_client_event(
                    client_id,
                    ClientEventView::Error { message: "namespace is being destroyed"@ },
                )
                &&& r@.len() == 0
            },
            old(self).status != NamespaceStatus::Destroying ==> {
                &&& old(self).respecified(spec, *final(self))
                &&& final(out)@ == old(self).respecified_out(
                    client_id,
                    spec,
                    *final(self),
                    old(out)@,
                )
                &&& r@ == (if old(self).status == NamespaceStatus::Active {
                    demand_checks(final(self).workloads.seq())
                } else {
                    seq![]
                })
            },
    {
        if self.status == NamespaceStatus::Destroying {
            out.tell(client_id, ClientEvent::error("namespace is being destroyed"));
            return Vec::new();
        }
        self.drop_gone_workloads(&spec, out);
        self.renew_workloads(&spec);
        let any_gone: bool = self.destroy_gone_services(&spec, out);
        self.renew_services(&spec);
        self.spec = spec;
        let mut follow_ups: Vec<FollowUp> = Vec::new();
        if self.status == NamespaceStatus::Active {
            if any_gone {
                self.emit_registry_sync(out);
            }
            follow_ups = self.reconcile_all_services();
        }
        out.tell(client_id, ClientEvent::Done);
        follow_ups
    }
}

// ---- the end of a namespace -------------------------------------------------------------------

/// What is given out for a workload when its namespace goes: its timer stops, its snapshot is
/// deleted. Its pod stops with the namespace.
pub open spec fn abandoned(state: WorkloadState, out: OutputView) -> OutputView {
    match state {
        WorkloadState::Launching { launch_timeout, .. } => out.with_cancel(launch_timeout),
        WorkloadState::Suspending { suspend_timeout, .. } => out.with_cancel(suspend_timeout),
        WorkloadState::Suspended { worker_id, artifact_id, pool_id } => out.with_command(
            worker_id,
            CommandView::DeleteArtifact { artifact_id, pool_id },
        ),
        WorkloadState::Resuming { worker_id, artifact_id, pool_id, resume_timeout, .. } => {
            out.with_cancel(resume_timeout).with_command(
                worker_id,
                CommandView::DeleteArtifact { artifact_id, pool_id },
            )
        },
        _ => out,
    }
}

pub open spec fn abandoned_all(workloads: Seq<(WorkloadId, Workload)>, out: OutputView) -> OutputView
    decreases workloads.len(),
{
    if workloads.len() == 0 {
        out
    } else {
        abandoned(
            workloads.last().1.status.state,
            abandoned_all(workloads.drop_last(), out),
        )
    }
}

/// The idle timers of services stop, in order.
pub open spec fn timers_stopped(
    services: Seq<(ServiceId, ServiceStateMachine)>,
    out: OutputView,
) -> OutputView
    decreases services.len(),
{
    if services.len() == 0 {
        out
    } else {
        let rest = timers_stopped(services.drop_last(), out);
        match services.last().1.state {
            ServiceState::Active { idle_timer: Some(key), .. } => rest.with_cancel(key),
            _ => rest,
        }
    }
}

/// One `DestroyNamespace` for each worker.
pub open spec fn farewells(
    namespace_id: NamespaceId,
    workers: Seq<(WorkerId, NamespaceWorkerState)>,
) -> Seq<(WorkerId, CommandView)> {
    Seq::new(
        workers.len(),
        |i: int| (workers[i].0, CommandView::DestroyNamespace { namespace_id }),
    )
}

/// `w` at rest.
pub open spec fn at_rest(w: Workload) -> Workload {
    Workload {
        status: WorkloadStatus { state: WorkloadState::Dormant, current_demand: 0, ..w.status },
        ..w
    }
}

impl NamespaceStateMachine {
    /// `after` is `self` on its way out.
    pub open spec fn dissolved(self, after: NamespaceStateMachine) -> bool {
        &&& after == NamespaceStateMachine {
            status: NamespaceStatus::Destroying,
            workloads: after.workloads,
            services: after.services,
            pod_map: after.pod_map,
            workers: after.workers,
            ..self
        }
        &&& after.workloads@.dom() == self.workloads@.dom()
        &&& forall|w: Seq<char>| #[trigger]
            after.workloads@.contains_key(w) ==> after.workloads@[w] == at_rest(self.workloads@[w])
        &&& after.services@.dom() == self.services@.dom()
        &&& forall|s: Seq<char>| #[trigger]
            after.services@.contains_key(s) ==> after.services@[s] == (ServiceStateMachine {
                state: ServiceState::Idle,
                ..self.services@[s]
            })
        &&& after.pod_map@ == Map::<Seq<char>, PodInfo>::empty()
        &&& after.workers@.dom() == self.workers@.dom()
        &&& after.workers.keys() == self.workers.keys()
        &&& forall|w: Seq<char>| #[trigger]
            after.workers@.contains_key(w) ==> after.workers@[w] == (NamespaceWorkerState {
                fabric_status: FabricStatus::Destroying,
                ..self.workers@[w]
            })
    }

    /// What the end of a namespace gives out.
    pub open spec fn dissolved_out(self, client_id: ClientId, out: OutputView) -> OutputView {
        let cleared = timers_stopped(
            self.services.seq(),
            abandoned_all(self.workloads.seq(), out),
        ).with_commands(farewells(self.namespace_id, self.workers.seq()));
        (if self.workers.seq().len() == 0 {
            cleared.with_destroyed()
        } else {
            cleared
        }).with_client_event(client_id, ClientEventView::Done)
    }

    fn abandon_workloads(&self, out: &mut NamespaceOutput)
        ensures
            final(out)@ == abandoned_all(self.workloads.seq(), old(out)@),
    {
        let ghost s = self.workloads.seq();
        let n: usize = self.workloads.len();
        let mut i: usize = 0;
        assert(s.take(0) =~= Seq::<(WorkloadId, Workload)>::empty());
        while i < n
            invariant
                n == s.len(),
                i <= n,
                s == self.workloads.seq(),
                out@ == abandoned_all(s.take(i as int), old(out)@),
            decreases n - i,
        {
            proof {
                assert(s.take(i + 1).drop_last() =~= s.take(i as int));
                assert(s.take(i + 1).last() == s[i as int]);
            }
            match &self.workloads.value_at(i).status.state {
                WorkloadState::Launching { launch_timeout, .. } => {
                    out.cancel_timer(launch_timeout.clone());
                },
                WorkloadState::Suspending { suspend_timeout, .. } => {
                    out.cancel_timer(suspend_timeout.clone());
                },
                WorkloadState::Suspended { worker_id, artifact_id, pool_id } => {
                    self.delete_artifact(worker_id, artifact_id, pool_id, out);
                },
                WorkloadState::Resuming { worker_id, artifact_id, pool_id, resume_timeout, .. } => {
                    out.cancel_timer(resume_timeout.clone());
                    self.delete_artifact(worker_id, artifact_id, pool_id, out);
                },
                _ => {},
            }
            i = i + 1;
        }
        assert(s.take(n as int) =~= s);
    }

    fn stop_idle_timers(&self, out: &mut NamespaceOutput)
        ensures
            final(out)@ == timers_stopped(self.services.seq(), old(out)@),
    {
        let ghost s = self.services.seq();
        let n: usize = self.services.len();
        let mut i: usize = 0;
        assert(s.take(0) =~= Seq::<(ServiceId, ServiceStateMachine)>::empty());
        while i < n
            invariant
                n == s.len(),
                i <= n,
                s == self.services.seq(),
                out@ == timers_stopped(s.take(i as int), old(out)@),
            decreases n - i,
        {
            proof {
                assert(s.take(i + 1).drop_last() =~= s.take(i as int));
                assert(s.take(i + 1).last() == s[i as int]);
            }
            if let ServiceState::Active { idle_timer: Some(key), .. } = &self.services.value_at(
                i,
            ).state {
                out.cancel_timer(key.clone());
            }
            i = i + 1;
        }
        assert(s.take(n as int) =~= s);
    }

    fn say_farewell(&self, out: &mut NamespaceOutput)
        ensures
            final(out)@ == old(out)@.with_commands(
                farewells(self.namespace_id, self.workers.seq()),
            ),
    {
        let ghost all = farewells(self.namespace_id, self.workers.seq());
        let n: usize = self.workers.len();
        let mut i: usize = 0;
        assert(out@ =~= old(out)@.with_commands(all.take(0)));
        while i < n
            invariant
                n == self.workers.seq().len(),
                i <= n,
                all == farewells(self.namespace_id, self.workers.seq()),
                out@ == old(out)@.with_commands(all.take(i as int)),
            decreases n - i,
        {
            out.command(
                self.workers.key_at(i).clone(),
                WorkerCommand::DestroyNamespace { namespace_id: self.namespace_id.clone() },
            );
            assert(out@ =~= old(out)@.with_commands(all.take(i + 1)));
            i = i + 1;
        }
        assert(all.take(n as int) =~= all);
    }

    /// Begins the end of the namespace: timers stop, snapshots are deleted, every worker is told. The
    /// namespace is gone at once where it has no workers.
    pub fn handle_delete(&mut self, client_id: ClientId, out: &mut NamespaceOutput)
        ensures
            old(self).dissolved(*final(self)),
            final(out)@ == old(self).dissolved_out(client_id, old(out)@),
    {
        self.abandon_workloads(out);
        self.stop_idle_timers(out);
        self.say_farewell(out);
        if self.workers.is_empty() {
            out.set_destroyed();
        }
        self.status = NamespaceStatus::Destroying;
        let rest = |w: Workload| -> (r: Workload)
            ensures
                r == at_rest(w),
            {
                Workload {
                    status: WorkloadStatus {
                        state: WorkloadState::Dormant,
                        current_demand: 0,
                        retiring: w.status.retiring,
                    },
                    suspend_on_idle: w.suspend_on_idle,
                    conditions: w.conditions,
                }
            };
        self.workloads.replace_values(rest);
        let sleep = |s: ServiceStateMachine| -> (r: ServiceStateMachine)
            ensures
                r == (ServiceStateMachine { state: ServiceState::Idle, ..s }),
            {
                ServiceStateMachine {
                    service_id: s.service_id,
                    state: ServiceState::Idle,
                    workload_id: s.workload_id,
                    has_activation: s.has_activation,
                    idle_timeout_ms: s.idle_timeout_ms,
                    conditions: s.conditions,
                }
            };
        self.services.replace_values(sleep);
        self.pod_map.clear();
        let leave = |w: NamespaceWorkerState| -> (r: NamespaceWorkerState)
            ensures
                r == (NamespaceWorkerState { fabric_status: FabricStatus::Destroying, ..w }),
            {
                NamespaceWorkerState {
                    fabric_status: FabricStatus::Destroying,
                    primary_pool_id: w.primary_pool_id,
                    pressure_band: w.pressure_band,
                }
            };
        self.workers.replace_values(leave);
        out.tell(client_id, ClientEvent::Done);
    }
}

// ---- pods -------------------------------------------------------------------------------------

/// The first service of a workload, in service order.
pub open spec fn first_service(links: Seq<(ServiceId, WorkloadId)>, workload: Seq<char>) -> Option<
    ServiceId,
>
    decreases links.len(),
{
    if links.len() == 0 {
        None
    } else if links[0].1.id() == workload {
        Some(links[0].0)
    } else {
        first_service(links.drop_first(), workload)
    }
}

impl NamespaceStateMachine {
    fn find_service(&self, workload_id: &WorkloadId) -> (r: Option<ServiceId>)
        ensures
            r == first_service(self.service_workload.seq(), workload_id.id()),
    {
        let ghost s = self.service_workload.seq();
        let ghost w = workload_id.id();
        let n: usize = self.service_workload.len();
        let mut i: usize = 0;
        assert(s.skip(0) =~= s);
        while i < n
            invariant
                n == s.len(),
                i <= n,
                s == self.service_workload.seq(),
                w == workload_id.id(),
                first_service(s, w) == first_service(s.skip(i as int), w),
            decreases n - i,
        {
            proof {
                assert(s.skip(i as int).drop_first() =~= s.skip(i + 1));
                assert(s.skip(i as int)[0] == s[i as int]);
            }
            if self.service_workload.value_at(i).same(workload_id) {
                return Some(self.service_workload.key_at(i).clone());
            }
            i = i + 1;
        }
        None
    }

    /// The fabric of a worker is up.
    pub open spec fn worker_up(self, worker: Seq<char>) -> bool {
        self.workers@.contains_key(worker) && self.workers@[worker].fabric_status
            == FabricStatus::Active
    }

    fn is_worker_up(&self, worker_id: &WorkerId) -> (r: bool)
        ensures
            r == self.worker_up(worker_id.id()),
    {
        match self.workers.get(worker_id) {
            Some(state) => state.fabric_status == FabricStatus::Active,
            None => false,
        }
    }

    /// A pod is new, and its netmask can be written.
    pub open spec fn has_room_for(self, pod_id: PodId) -> bool {
        &&& self.spec.network.prefix_len <= 32
        &&& !self.pod_map@.contains_key(pod_id.id())
    }

    /// A workload that waits for capacity, and that the spec ties to a service, can start on a
    /// worker whose fabric is up.
    pub open spec fn can_launch(self, workload: Seq<char>, worker: Seq<char>) -> bool {
        let service = first_service(self.service_workload.seq(), workload);
        &&& self.status != NamespaceStatus::Destroying
        &&& self.workloads@.contains_key(workload)
        &&& self.workloads@[workload].status.state is WaitingForCapacity
        &&& self.worker_up(worker)
        &&& self.spec.workloads@.contains_key(workload)
        &&& service is Some
        &&& self.spec.services@.contains_key(service.unwrap().id())
    }

    /// The route to a pod, for the other workers where there are any.
    pub open spec fn route_out(self, pod_ip: u32, worker_id: WorkerId, out: OutputView) -> OutputView {
        if self.workers.seq().len() > 1 {
            out.with_commands(
                to_each(
                    targets(self.workers.seq(), Some(worker_id.id())),
                    self.route_add(pod_ip, worker_id),
                ),
            )
        } else {
            out
        }
    }

    /// What the launch of a pod gives out.
    pub open spec fn launch_out(
        self,
        workload_id: WorkloadId,
        worker_id: WorkerId,
        pod_id: PodId,
        out: OutputView,
    ) -> OutputView {
        let w = workload_id.id();
        let service_id = first_service(self.service_workload.seq(), w).unwrap();
        let service = self.spec.services@[service_id.id()];
        self.route_out(
            self.spec.workloads@[w].network.ip,
            worker_id,
            out.with_command(
                worker_id,
                CommandView::CreateService {
                    namespace_id: self.namespace_id,
                    service_id,
                    ip: service.ip,
                    policy: service.policy,
                },
            ).with_command(worker_id, self.launch_command(w, pod_id)),
        ).with_workload_event(workload_id, WorkloadEventView::PodLaunching { pod_id, worker_id })
    }

    /// Starts a pod of a workload that waits for capacity. Does nothing where it cannot.
    pub fn handle_launch_pod(
        &mut self,
        workload_id: &WorkloadId,
        worker_id: &WorkerId,
        pod_id: &PodId,
        out: &mut NamespaceOutput,
    ) -> (r: Vec<FollowUp>)
        requires
            old(self).can_launch(workload_id.id(), worker_id.id()) ==> old(self).has_room_for(*pod_id),
        ensures
            old(self).can_launch(workload_id.id(), worker_id.id()) ==> {
                &&& *final(self) == (NamespaceStateMachine {
                    pod_map: final(self).pod_map,
                    ..*old(self)
                })
                &&& final(self).pod_map@ == old(self).pod_map@.insert(
                    pod_id.id(),
                    PodInfo { workload_id: *workload_id, worker_id: *worker_id },
                )
                &&& final(out)@ == old(self).launch_out(
                    *workload_id,
                    *worker_id,
                    *pod_id,
                    old(out)@,
                )
                &&& r@ == seq![
                    FollowUp::StepWorkload {
                        workload_id: *workload_id,
                        input: WorkloadInput::LaunchPod {
                            worker_id: *worker_id,
                            pod_id: *pod_id,
                        },
                        retry: false,
                    },
                ]
            },
            !old(self).can_launch(workload_id.id(), worker_id.id()) ==> {
                &&& *final(self) == *old(self)
                &&& final(out)@ == old(out)@
                &&& r@.len() == 0
            },
    {
        let mut follow_ups: Vec<FollowUp> = Vec::new();
        if self.status == NamespaceStatus::Destroying {
            return follow_ups;
        }
        match self.workloads.get(workload_id) {
            Some(wl) => {
                match &wl.status.state {
                    WorkloadState::WaitingForCapacity => {},
                    _ => {
                        return follow_ups;
                    },
                }
            },
            None => {
                return follow_ups;
            },
        }
        if !self.is_worker_up(worker_id) {
            return follow_ups;
        }
        let wl_spec: &WorkloadSpec = match self.spec.workloads.get(workload_id) {
            Some(s) => s,
            None => {
                return follow_ups;
            },
        };
        let service_id: ServiceId = match self.find_service(workload_id) {
            Some(id) => id,
            None => {
                return follow_ups;
            },
        };
        let svc_spec: &ServiceSpec = match self.spec.services.get(&service_id) {
            Some(s) => s,
            None => {
                return follow_ups;
            },
        };
        out.command(
            worker_id.clone(),
            WorkerCommand::CreateService {
                namespace_id: self.namespace_id.clone(),
                service_id: service_id.clone(),
                ip: svc_spec.ip,
                policy: svc_spec.policy.clone(),
            },
        );
        out.command(
            worker_id.clone(),
            WorkerCommand::LaunchPod {
                namespace_id: self.namespace_id.clone(),
                pod_id: pod_id.clone(),
                network: self.build_pod_network(wl_spec),
                containers: wl_spec.containers.clone(),
                resources: convert_resources(wl_spec.resources),
            },
        );
        if self.workers.len() > 1 {
            self.emit_fabric_route_add(wl_spec.network.ip, worker_id, out);
        }
        out.workload_event(
            workload_id.clone(),
            SmWorkloadEvent::PodLaunching { pod_id: pod_id.clone(), worker_id: worker_id.clone() },
        );
        self.pod_map.insert(
            pod_id.clone(),
            PodInfo { workload_id: workload_id.clone(), worker_id: worker_id.clone() },
        );
        follow_ups.push(
            FollowUp::StepWorkload {
                workload_id: workload_id.clone(),
                input: WorkloadInput::LaunchPod {
                    worker_id: worker_id.clone(),
                    pod_id: pod_id.clone(),
                },
                retry: false,
            },
        );
        follow_ups
    }

    /// A suspended workload that the spec knows can go on at a worker whose fabric is up.
    pub open spec fn can_resume(self, workload: Seq<char>, worker: Seq<char>) -> bool {
        &&& self.status != NamespaceStatus::Destroying
        &&& self.workloads@.contains_key(workload)
        &&& self.workloads@[workload].status.state is Suspended
        &&& self.worker_up(worker)
        &&& self.spec.workloads@.contains_key(workload)
    }

    /// What the resumption of a pod gives out.
    pub open spec fn resume_out(
        self,
        workload_id: WorkloadId,
        worker_id: WorkerId,
        pod_id: PodId,
        artifact_id: ArtifactId,
        pool_id: PoolId,
        out: OutputView,
    ) -> OutputView {
        let w = workload_id.id();
        self.route_out(
            self.spec.workloads@[w].network.ip,
            worker_id,
            out.with_command(
                worker_id,
                CommandView::ResumePod {
                    namespace_id: self.namespace_id,
                    pod_id,
                    artifact_id,
                    network: self.pod_network(w),
                    pool_id,
                },
            ),
        ).with_workload_event(workload_id, WorkloadEventView::PodResuming { pod_id, worker_id })
    }

    /// Lets a suspended workload go on from its snapshot. Does nothing where it cannot.
    pub fn handle_resume_pod(
        &mut self,
        workload_id: &WorkloadId,
        worker_id: &WorkerId,
        pod_id: &PodId,
        artifact_id: &ArtifactId,
        pool_id: &PoolId,
        out: &mut NamespaceOutput,
    ) -> (r: Vec<FollowUp>)
        requires
            old(self).can_resume(workload_id.id(), worker_id.id()) ==> old(self).has_room_for(*pod_id),
        ensures
            old(self).can_resume(workload_id.id(), worker_id.id()) ==> {
                &&& *final(self) == (NamespaceStateMachine {
                    pod_map: final(self).pod_map,
                    ..*old(self)
                })
                &&& final(self).pod_map@ == old(self).pod_map@.insert(
                    pod_id.id(),
                    PodInfo { workload_id: *workload_id, worker_id: *worker_id },
                )
                &&& final(out)@ == old(self).resume_out(
                    *workload_id,
                    *worker_id,
                    *pod_id,
                    *artifact_id,
                    *pool_id,
                    old(out)@,
                )
                &&& r@ == seq![
                    FollowUp::StepWorkload {
                        workload_id: *workload_id,
                        input: WorkloadInput::ResumePod {
                            worker_id: *worker_id,
                            pod_id: *pod_id,
                            artifact_id: *artifact_id,
                            pool_id: *pool_id,
                        },
                        retry: false,
                    },
                ]
            },
            !old(self).can_resume(workload_id.id(), worker_id.id()) ==> {
                &&& *final(self) == *old(self)
                &&& final(out)@ == old(out)@
                &&& r@.len() == 0
            },
    {
        let mut follow_ups: Vec<FollowUp> = Vec::new();
        if self.status == NamespaceStatus::Destroying {
            return follow_ups;
        }
        match self.workloads.get(workload_id) {
            Some(wl) => {
                match &wl.status.state {
                    WorkloadState::Suspended { .. } => {},
                    _ => {
                        return follow_ups;
                    },
                }
            },
            None => {
                return follow_ups;
            },
        }
        if !self.is_worker_up(worker_id) {
            return follow_ups;
        }
        let wl_spec: &WorkloadSpec = match self.spec.workloads.get(workload_id) {
            Some(s) => s,
            None => {
                return follow_ups;
            },
        };
        out.command(
            worker_id.clone(),
            WorkerCommand::ResumePod {
                namespace_id: self.namespace_id.clone(),
                pod_id: pod_id.clone(),
                artifact_id: artifact_id.clone(),
                network: self.build_pod_network(wl_spec),
                pool_id: pool_id.clone(),
            },
        );
        if self.workers.len() > 1 {
            self.emit_fabric_route_add(wl_spec.network.ip, worker_id, out);
        }
        out.workload_event(
            workload_id.clone(),
            SmWorkloadEvent::PodResuming { pod_id: pod_id.clone(), worker_id: worker_id.clone() },
        );
        self.pod_map.insert(
            pod_id.clone(),
            PodInfo { workload_id: workload_id.clone(), worker_id: worker_id.clone() },
        );
        follow_ups.push(
            FollowUp::StepWorkload {
                workload_id: workload_id.clone(),
                input: WorkloadInput::ResumePod {
                    worker_id: worker_id.clone(),
                    pod_id: pod_id.clone(),
                    artifact_id: artifact_id.clone(),
                    pool_id: pool_id.clone(),
                },
                retry: false,
            },
        );
        follow_ups
    }
}

// ---- putting a workload to sleep ----------------------------------------------------------------

/// The service belongs to a workload and can sleep.
pub open spec fn can_sleep(svc: ServiceStateMachine, workload: Seq<char>) -> bool {
    svc.workload_id.id() == workload && svc.has_activation
}

/// Some service of a workload can sleep.
pub open spec fn any_can_sleep(
    services: Seq<(ServiceId, ServiceStateMachine)>,
    workload: Seq<char>,
) -> bool {
    exists|i: int| 0 <= i < services.len() && can_sleep((#[trigger] services[i]).1, workload)
}

/// The need that keeps a service awake.
pub open spec fn open_need(svc: ServiceStateMachine) -> Option<BackendNeed> {
    match svc.state {
        ServiceState::Active { backend_need, .. } => if backend_need != BackendNeed::Nothing {
            Some(backend_need)
        } else {
            None
        },
        _ => None,
    }
}

/// The first service of a workload that could sleep but is needed.
pub open spec fn first_needed(
    services: Seq<(ServiceId, ServiceStateMachine)>,
    workload: Seq<char>,
) -> Option<(ServiceId, BackendNeed)>
    decreases services.len(),
{
    if services.len() == 0 {
        None
    } else if can_sleep(services[0].1, workload) && open_need(services[0].1) is Some {
        Some((services[0].0, open_need(services[0].1).unwrap()))
    } else {
        first_needed(services.drop_first(), workload)
    }
}

/// The name of a need.
pub open spec fn need_name(need: BackendNeed) -> Seq<char> {
    match need {
        BackendNeed::Nothing => "None"@,
        BackendNeed::Traffic => "Traffic"@,
        BackendNeed::Active => "Active"@,
    }
}

/// The name of a need.
pub fn need_text(need: BackendNeed) -> (r: &'static str)
    ensures
        r@ == need_name(need),
{
    match need {
        BackendNeed::Nothing => "None",
        BackendNeed::Traffic => "Traffic",
        BackendNeed::Active => "Active",
    }
}

/// The service is awake and can be put to sleep.
pub open spec fn is_awake(svc: ServiceStateMachine, workload: Seq<char>) -> bool {
    can_sleep(svc, workload) && svc.state is Active
}

impl NamespaceStateMachine {
    /// What is given out when the services of a workload are put to sleep, in order.
    pub open spec fn sleep_out(
        self,
        services: Seq<(ServiceId, ServiceStateMachine)>,
        workload: Seq<char>,
        out: OutputView,
    ) -> OutputView
        decreases services.len(),
    {
        if services.len() == 0 {
            out
        } else {
            let rest = self.sleep_out(services.drop_last(), workload, out);
            let last = services.last();
            if is_awake(last.1, workload) {
                self.step_out(
                    last.0,
                    ServiceInput::ForceDeactivate,
                    rest.with_event(
                        EventView::Service {
                            service_id: last.0,
                            workload_id: last.1.workload_id,
                            event: SmServiceEvent::Deactivated {
                                reason: ServiceDeactivationReason::ForceDeactivate,
                            },
                        },
                    ),
                )
            } else {
                rest
            }
        }
    }

    /// `after` is `self` with the first `n` services put to sleep that belong to a workload.
    pub open spec fn asleep(self, n: int, workload: Seq<char>, after: NamespaceStateMachine) -> bool {
        let s = self.services.seq();
        &&& after == NamespaceStateMachine { services: after.services, ..self }
        &&& same_keys(after.services.seq(), s)
        &&& after.services@.dom() == self.services@.dom()
        &&& forall|i: int|
            0 <= i < s.len() ==> if i < n && is_awake((#[trigger] s[i]).1, workload) {
                alike(
                    after.services@[s[i].0.id()],
                    Self::stepped(s[i].1, ServiceInput::ForceDeactivate),
                )
            } else {
                after.services@[s[i].0.id()] == s[i].1
            }
    }

    /// Some service of a workload is awake and can be put to sleep.
    pub open spec fn any_awake(self, n: int, workload: Seq<char>) -> bool {
        exists|i: int|
            0 <= i < n && is_awake((#[trigger] self.services.seq()[i]).1, workload)
    }

    /// What a client is told that wants a workload put to sleep.
    pub open spec fn sleep_answer(self, workload_id: WorkloadId) -> ClientEventView {
        let w = workload_id.id();
        let s = self.services.seq();
        if !self.workloads@.contains_key(w) {
            ClientEventView::DeactivateWorkloadResult {
                deactivated: false,
                reason: "workload '"@ + w + "' not found"@,
            }
        } else if !any_can_sleep(s, w) {
            ClientEventView::DeactivateWorkloadResult {
                deactivated: false,
                reason: "no activation-enabled services on this workload"@,
            }
        } else {
            match first_needed(s, w) {
                Some((id, need)) => ClientEventView::DeactivateWorkloadResult {
                    deactivated: false,
                    reason: "service '"@ + id.id() + "' has active demand ("@ + need_name(need)
                        + ")"@,
                },
                None => if self.any_awake(s.len() as int, w) {
                    ClientEventView::DeactivateWorkloadResult { deactivated: true, reason: ""@ }
                } else {
                    ClientEventView::DeactivateWorkloadResult {
                        deactivated: false,
                        reason: "no services were in active state"@,
                    }
                },
            }
        }
    }

    /// The request to put a workload to sleep is refused outright.
    pub open spec fn sleep_refused(self, workload: Seq<char>) -> bool {
        let s = self.services.seq();
        !self.workloads@.contains_key(workload) || !any_can_sleep(s, workload) || first_needed(
            s,
            workload,
        ) is Some
    }

    fn has_sleeper(&self, workload_id: &WorkloadId) -> (r: bool)
        ensures
            r == any_can_sleep(self.services.seq(), workload_id.id()),
    {
        let n: usize = self.services.len();
        let mut i: usize = 0;
        while i < n
            invariant
                n == self.services.seq().len(),
                i <= n,
                forall|j: int|
                    0 <= j < i ==> !can_sleep(
                        (#[trigger] self.services.seq()[j]).1,
                        workload_id.id(),
                    ),
            decreases n - i,
        {
            let svc: &ServiceStateMachine = self.services.value_at(i);
            if svc.workload_id.same(workload_id) && svc.has_activation {
                assert(can_sleep(self.services.seq()[i as int].1, workload_id.id()));
                return true;
            }
            i = i + 1;
        }
        false
    }

    fn find_needed(&self, workload_id: &WorkloadId) -> (r: Option<(ServiceId, BackendNeed)>)
        ensures
            r == first_needed(self.services.seq(), workload_id.id()),
    {
        let ghost s = self.services.seq();
        let ghost w = workload_id.id();
        let n: usize = self.services.len();
        let mut i: usize = 0;
        assert(s.skip(0) =~= s);
        while i < n
            invariant
                n == s.len(),
                i <= n,
                s == self.services.seq(),
                w == workload_id.id(),
                first_needed(s, w) == first_needed(s.skip(i as int), w),
            decreases n - i,
        {
            proof {
                assert(s.skip(i as int).drop_first() =~= s.skip(i + 1));
                assert(s.skip(i as int)[0] == s[i as int]);
            }
            let svc: &ServiceStateMachine = self.services.value_at(i);
            if svc.workload_id.same(workload_id) && svc.has_activation {
                if let ServiceState::Active { backend_need, .. } = &svc.state {
                    if *backend_need != BackendNeed::Nothing {
                        return Some((self.services.key_at(i).clone(), *backend_need));
                    }
                }
            }
            i = i + 1;
        }
        None
    }

    /// Puts the services of a workload to sleep.
    fn put_to_sleep(&mut self, workload_id: &WorkloadId, out: &mut NamespaceOutput) -> (r: bool)
        ensures
            final(out)@ == old(self).sleep_out(
                old(self).services.seq(),
                workload_id.id(),
                old(out)@,
            ),
            old(self).asleep(
                old(self).services.seq().len() as int,
                workload_id.id(),
                *final(self),
            ),
            r == old(self).any_awake(old(self).services.seq().len() as int, workload_id.id()),
    {
        let ghost before = *self;
        let ghost s = self.services.seq();
        let ghost w = workload_id.id();
        let n: usize = self.services.len();
        let mut any: bool = false;
        let mut i: usize = 0;
        proof {
            assert(s.take(0) =~= Seq::<(ServiceId, ServiceStateMachine)>::empty());
            assert forall|j: int| 0 <= j < s.len() implies before.services@[(#[trigger] s[j]).0.id()]
                == s[j].1 by {
                lemma_position_unique(s, j);
            }
        }
        while i < n
            invariant
                n == s.len(),
                i <= n,
                before == *old(self),
                s == before.services.seq(),
                increasing(s),
                w == workload_id.id(),
                forall|j: int|
                    0 <= j < s.len() ==> before.services@[(#[trigger] s[j]).0.id()] == s[j].1
                        && before.services@.contains_key(s[j].0.id()),
                out@ == before.sleep_out(s.take(i as int), w, old(out)@),
                before.asleep(i as int, w, *self),
                any == before.any_awake(i as int, w),
            decreases n - i,
        {
            proof {
                assert(s.take(i + 1).drop_last() =~= s.take(i as int));
                assert(s.take(i + 1).last() == s[i as int]);
            }
            let ghost cur = *self;
            let service_id: ServiceId = self.services.key_at(i).clone();
            let svc: &ServiceStateMachine = self.services.value_at(i);
            let belongs: bool = svc.workload_id.same(workload_id) && svc.has_activation;
            let active: bool = match &svc.state {
                ServiceState::Active { .. } => true,
                _ => false,
            };
            let workload: WorkloadId = svc.workload_id.clone();
            proof {
                assert(service_id == s[i as int].0);
                assert(cur.services@[s[i as int].0.id()] == s[i as int].1);
            }
            if belongs && active {
                any = true;
                out.service_event(
                    service_id.clone(),
                    workload,
                    SmServiceEvent::Deactivated {
                        reason: ServiceDeactivationReason::ForceDeactivate,
                    },
                );
                proof {
                    lemma_same_effects(
                        cur,
                        before,
                        Some(Self::stepped(s[i as int].1, ServiceInput::ForceDeactivate)),
                        service_id,
                        s[i as int].1.outputs(ServiceInput::ForceDeactivate, before.namespace_id),
                        out@,
                    );
                }
                self.step_service(&service_id, ServiceInput::ForceDeactivate, out);
                assert(is_awake(before.services.seq()[i as int].1, w));
            }
            proof {
                assert forall|j: int| 0 <= j < s.len() implies if j < i + 1 && is_awake(
                    (#[trigger] s[j]).1,
                    w,
                ) {
                    alike(
                        self.services@[s[j].0.id()],
                        Self::stepped(s[j].1, ServiceInput::ForceDeactivate),
                    )
                } else {
                    self.services@[s[j].0.id()] == s[j].1
                } by {
                    if j != i && s[j].0.id() == s[i as int].0.id() {
                        lemma_position_unique(s, j);
                        lemma_position_unique(s, i as int);
                    }
                }
                assert(self.services@.dom() =~= before.services@.dom());
                assert(any == before.any_awake(i + 1, w)) by {
                    if before.any_awake(i as int, w) {
                        let k = choose|k: int|
                            0 <= k < i && is_awake((#[trigger] before.services.seq()[k]).1, w);
                        assert(is_awake(before.services.seq()[k].1, w));
                    }
                }
            }
            i = i + 1;
        }
        assert(s.take(n as int) =~= s);
        any
    }

    /// Puts a workload's services to sleep, unless one of them is needed. The workload's demand is
    /// checked afterwards.
    pub fn handle_deactivate_workload(
        &mut self,
        client_id: ClientId,
        workload_id: WorkloadId,
        out: &mut NamespaceOutput,
    ) -> (r: Vec<FollowUp>)
        ensures
            old(self).sleep_refused(workload_id.id()) ==> {
                &&& *final(self) == *old(self)
                &&& final(out)@ == old(out)@.with_client_event(
                    client_id,
                    old(self).sleep_answer(workload_id),
                )
                &&& r@.len() == 0
            },
            !old(self).sleep_refused(workload_id.id()) ==> {
                let n = old(self).services.seq().len() as int;
                &&& old(self).asleep(n, workload_id.id(), *final(self))
                &&& final(out)@ == old(self).sleep_out(
                    old(self).services.seq(),
                    workload_id.id(),
                    old(out)@,
                ).with_client_event(client_id, old(self).sleep_answer(workload_id))
                &&& r@ == (if old(self).any_awake(n, workload_id.id()) {
                    seq![FollowUp::ReconcileDemand { workload_id }]
                } else {
                    seq![]
                })
            },
    {
        let mut follow_ups: Vec<FollowUp> = Vec::new();
        if !self.workloads.contains_key(&workload_id) {
            let mut reason: String = "workload '".to_owned();
            reason.append(workload_id.0.as_str());
            reason.append("' not found");
            out.tell(
                client_id,
                ClientEvent::DeactivateWorkloadResult { deactivated: false, reason },
            );
            return follow_ups;
        }
        if !self.has_sleeper(&workload_id) {
            out.tell(
                client_id,
                ClientEvent::DeactivateWorkloadResult {
                    deactivated: false,
                    reason: "no activation-enabled services on this workload".to_owned(),
                },
            );
            return follow_ups;
        }
        if let Some((id, need)) = self.find_needed(&workload_id) {
            let mut reason: String = "service '".to_owned();
            reason.append(id.0.as_str());
            reason.append("' has active demand (");
            reason.append(need_text(need));
            reason.append(")");
            out.tell(
                client_id,
                ClientEvent::DeactivateWorkloadResult { deactivated: false, reason },
            );
            return follow_ups;
        }
        let any: bool = self.put_to_sleep(&workload_id, out);
        if any {
            out.tell(
                client_id,
                ClientEvent::DeactivateWorkloadResult {
                    deactivated: true,
                    reason: "".to_owned(),
                },
            );
            follow_ups.push(FollowUp::ReconcileDemand { workload_id });
        } else {
            out.tell(
                client_id,
                ClientEvent::DeactivateWorkloadResult {
                    deactivated: false,
                    reason: "no services were in active state".to_owned(),
                },
            );
        }
        follow_ups
    }
}

} // verus!
