//! What a namespace reports of itself.
use vstd::prelude::*;

use crate::ids::{ClientId, PodId, ServiceId, WorkerId, WorkloadId};
use crate::namespace::NamespaceStateMachine;
use crate::output::{
    ClientEvent, ClientEventView, NamespaceOutput, NamespaceStatusReport, PodReportView, PodStatus,
    PodStatusReport, ReportView, ServiceReportView, ServiceStatusReport, WorkloadReportView,
    WorkloadStatusReport,
};
use crate::pod_map::PodInfo;
use crate::service::{ServiceState, ServiceStateMachine};
use crate::sorted_map::{Key, SortedMap};
use crate::text::{dotted, dotted_text};
use crate::types::BackendNeed;
use crate::workload::{Workload, WorkloadState};

verus! {

/// The entries of a table of texts, in key order.
fn entries_of(table: &SortedMap<String, String>) -> (r: Vec<(String, String)>)
    ensures
        r@ == table.seq(),
{
    let mut r: Vec<(String, String)> = Vec::new();
    let n: usize = table.len();
    let mut i: usize = 0;
    while i < n
        invariant
            n == table.seq().len(),
            i <= n,
            r@ == table.seq().take(i as int),
        decreases n - i,
    {
        r.push((table.key_at(i).clone(), table.value_at(i).clone()));
        assert(r@ =~= table.seq().take(i + 1));
        i = i + 1;
    }
    assert(table.seq().take(i as int) =~= table.seq());
    r
}

fn copy_pod(p: Option<&PodId>) -> (r: Option<PodId>)
    ensures
        r == (match p {
            Some(p) => Some(*p),
            None => None,
        }),
{
    match p {
        Some(p) => Some(p.clone()),
        None => None,
    }
}

/// What is reported of a workload.
pub open spec fn workload_report(w: Workload) -> WorkloadReportView {
    WorkloadReportView {
        state: w.status.state.name(),
        pod_id: w.status.state.pod(),
        conditions: w.conditions.seq(),
    }
}

impl NamespaceStateMachine {
    /// What is reported of a service. The workload of a service counts as dormant where it is not
    /// known.
    pub open spec fn service_report(self, service_id: ServiceId, svc: ServiceStateMachine) -> ServiceReportView {
        let w = svc.workload_id.id();
        let known = self.workloads@.contains_key(w);
        let state = self.workloads@[w].status.state;
        ServiceReportView {
            workload_id: svc.workload_id,
            service_state: svc.state.name(),
            workload_state: if known {
                state.name()
            } else {
                "dormant"@
            },
            pod_id: if known {
                state.pod()
            } else {
                None
            },
            worker_id: if known {
                state.worker()
            } else {
                None
            },
            backend_need: match svc.state {
                ServiceState::Active { backend_need, .. } => Some(backend_need),
                _ => None,
            },
            activation_enabled: svc.has_activation,
            ip: if self.spec.services@.contains_key(service_id.id()) {
                dotted(self.spec.services@[service_id.id()].ip)
            } else {
                seq![]
            },
            workload_conditions: if known {
                self.workloads@[w].conditions.seq()
            } else {
                seq![]
            },
            service_conditions: svc.conditions.seq(),
        }
    }

    /// Whether a pod is the one that its workload runs in.
    pub open spec fn runs(self, pod_id: PodId, info: PodInfo) -> bool {
        self.workloads@.contains_key(info.workload_id.id()) && match self.workloads@[info.workload_id.id()].status.state {
            WorkloadState::Running { pod_id: running, .. } => running.id() == pod_id.id(),
            _ => false,
        }
    }

    /// What is reported of a pod.
    pub open spec fn pod_report(self, pod_id: PodId, info: PodInfo) -> PodReportView {
        PodReportView {
            pod_id,
            workload_id: info.workload_id,
            worker_id: info.worker_id,
            ip: if self.spec.workloads@.contains_key(info.workload_id.id()) {
                dotted(self.spec.workloads@[info.workload_id.id()].network.ip)
            } else {
                seq![]
            },
            state: if self.runs(pod_id, info) {
                PodStatus::Running
            } else {
                PodStatus::Launching
            },
        }
    }

    /// What a namespace reports of itself.
    pub open spec fn report(self) -> ReportView {
        let w = self.workloads.seq();
        let s = self.services.seq();
        let p = self.pod_map.seq();
        ReportView {
            namespace_id: self.namespace_id,
            status: self.status,
            workloads: Seq::new(w.len(), |i: int| (w[i].0, workload_report(w[i].1))),
            services: Seq::new(s.len(), |i: int| (s[i].0, self.service_report(s[i].0, s[i].1))),
            pods: Seq::new(p.len(), |i: int| self.pod_report(p[i].0, p[i].1)),
        }
    }

    fn report_workload(w: &Workload) -> (r: WorkloadStatusReport)
        ensures
            r@ == workload_report(*w),
    {
        WorkloadStatusReport {
            state: w.status.state.as_str().to_owned(),
            pod_id: copy_pod(w.status.state.pod_id()),
            conditions: entries_of(&w.conditions),
        }
    }

    fn report_service(&self, service_id: &ServiceId, svc: &ServiceStateMachine) -> (r: ServiceStatusReport)
        ensures
            r@ == self.service_report(*service_id, *svc),
    {
        let backend_need: Option<BackendNeed> = match &svc.state {
            ServiceState::Active { backend_need, .. } => Some(*backend_need),
            _ => None,
        };
        let ip: String = match self.spec.services.get(service_id) {
            Some(spec) => dotted_text(spec.ip),
            None => String::new(),
        };
        let wl: Option<&Workload> = self.workloads.get(&svc.workload_id);
        let workload_state: String = match wl {
            Some(w) => w.status.state.as_str().to_owned(),
            None => "dormant".to_owned(),
        };
        let pod_id: Option<PodId> = match wl {
            Some(w) => copy_pod(w.status.state.pod_id()),
            None => None,
        };
        let worker_id: Option<WorkerId> = match wl {
            Some(w) => match w.status.state.worker_id() {
                Some(id) => Some(id.clone()),
                None => None,
            },
            None => None,
        };
        let workload_conditions: Vec<(String, String)> = match wl {
            Some(w) => entries_of(&w.conditions),
            None => Vec::new(),
        };
        let r = ServiceStatusReport {
            workload_id: svc.workload_id.clone(),
            service_state: svc.state.as_str().to_owned(),
            workload_state,
            pod_id,
            worker_id,
            backend_need,
            activation_enabled: svc.has_activation,
            ip,
            workload_conditions,
            service_conditions: entries_of(&svc.conditions),
        };
        assert(r@ =~= self.service_report(*service_id, *svc));
        r
    }

    fn report_pod(&self, pod_id: &PodId, info: &PodInfo) -> (r: PodStatusReport)
        ensures
            r@ == self.pod_report(*pod_id, *info),
    {
        let running: bool = match self.workloads.get(&info.workload_id) {
            Some(wl) => match &wl.status.state {
                WorkloadState::Running { pod_id: running, .. } => running.same(pod_id),
                _ => false,
            },
            None => false,
        };
        let ip: String = match self.spec.workloads.get(&info.workload_id) {
            Some(spec) => dotted_text(spec.network.ip),
            None => String::new(),
        };
        let r = PodStatusReport {
            pod_id: pod_id.clone(),
            workload_id: info.workload_id.clone(),
            worker_id: info.worker_id.clone(),
            ip,
            state: if running {
                PodStatus::Running
            } else {
                PodStatus::Launching
            },
        };
        assert(r@ =~= self.pod_report(*pod_id, *info));
        r
    }

    /// What is reported of the pods, in name order.
    pub fn pod_reports(&self) -> (r: Vec<PodStatusReport>)
        ensures
            r@.map_values(|p: PodStatusReport| p@) == self.report().pods,
    {
        let ghost p = self.pod_map.seq();
        let list: Vec<(&PodId, &PodInfo)> = self.pod_map.iter();
        let mut pods: Vec<PodStatusReport> = Vec::new();
        let mut i: usize = 0;
        while i < list.len()
            invariant
                list@.len() == p.len(),
                forall|j: int|
                    0 <= j < p.len() ==> *(#[trigger] list@[j]).0 == p[j].0 && *list@[j].1
                        == p[j].1,
                i <= list@.len(),
                pods@.len() == i,
                forall|j: int|
                    0 <= j < i ==> (#[trigger] pods@[j])@ == self.pod_report(p[j].0, p[j].1),
            decreases list@.len() - i,
        {
            pods.push(self.report_pod(list[i].0, list[i].1));
            i = i + 1;
        }
        assert(pods@.map_values(|p: PodStatusReport| p@) =~= self.report().pods);
        pods
    }

    /// What a namespace reports of itself: its workloads, services and pods, each in name order.
    pub fn status_report(&self) -> (r: NamespaceStatusReport)
        ensures
            r@ == self.report(),
    {
        let ghost w = self.workloads.seq();
        let ghost s = self.services.seq();
        let mut workloads: Vec<(WorkloadId, WorkloadStatusReport)> = Vec::new();
        let n: usize = self.workloads.len();
        let mut i: usize = 0;
        while i < n
            invariant
                n == w.len(),
                w == self.workloads.seq(),
                i <= n,
                workloads@.len() == i,
                forall|j: int|
                    0 <= j < i ==> (#[trigger] workloads@[j]).0 == w[j].0 && workloads@[j].1@
                        == workload_report(w[j].1),
            decreases n - i,
        {
            workloads.push(
                (
                    self.workloads.key_at(i).clone(),
                    Self::report_workload(self.workloads.value_at(i)),
                ),
            );
            i = i + 1;
        }
        let mut services: Vec<(ServiceId, ServiceStatusReport)> = Vec::new();
        let n: usize = self.services.len();
        let mut i: usize = 0;
        while i < n
            invariant
                n == s.len(),
                s == self.services.seq(),
                i <= n,
                services@.len() == i,
                forall|j: int|
                    0 <= j < i ==> (#[trigger] services@[j]).0 == s[j].0 && services@[j].1@
                        == self.service_report(s[j].0, s[j].1),
            decreases n - i,
        {
            services.push(
                (
                    self.services.key_at(i).clone(),
                    self.report_service(self.services.key_at(i), self.services.value_at(i)),
                ),
            );
            i = i + 1;
        }
        let pods: Vec<PodStatusReport> = self.pod_reports();
        let r = NamespaceStatusReport {
            namespace_id: self.namespace_id.clone(),
            status: self.status,
            workloads,
            services,
            pods,
        };
        assert(r@.workloads =~= self.report().workloads);
        assert(r@.services =~= self.report().services);
        assert(r@.pods =~= self.report().pods);
        r
    }

    /// Tells a client how the namespace is.
    pub fn handle_get_status(&self, client_id: ClientId, out: &mut NamespaceOutput)
        ensures
            final(out)@ == old(out)@.with_client_event(
                client_id,
                ClientEventView::NamespaceStatus {
                    namespace_id: self.namespace_id,
                    status: self.report(),
                },
            ),
    {
        out.tell(
            client_id,
            ClientEvent::NamespaceStatus {
                namespace_id: self.namespace_id.clone(),
                status: self.status_report(),
            },
        );
    }
}

} // verus!
