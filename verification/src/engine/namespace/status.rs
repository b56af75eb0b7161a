//! What a client learns of a namespace.
use vstd::prelude::*;

use crate::engine::namespace::router::{
    EndpointSnapshot, PodSnapshot, RouterSnapshot, WorkloadSnapshot,
};
use crate::engine::namespace::Namespace;
use crate::ids;
use crate::ids::NamespaceId;
use crate::namespace::command_laws::lemma_contains_pushed;
use crate::sm::{
    EndpointId, EndpointStatus, PodId, PodStatus, ServiceId, WlStatus, WorkerId, WorkloadId,
};
use crate::sorted_map::{as_map, increasing};
use crate::text::{dotted, dotted_text};
use crate::types::{BackendNeed, NamespaceSpec, NamespaceStatus};

verus! {

/// How a workload is, for a client.
#[derive(Debug, Clone, Copy, PartialEq, Eq, Structural)]
pub enum WorkloadStatus {
    Dormant,
    WaitingForSpec,
    Launching,
    Running,
    Suspending,
    Suspended,
    RetryBackoff,
    Failed,
    Completed,
}

/// How a service is, for a client.
#[derive(Debug, Clone, Copy, PartialEq, Eq, Structural)]
pub enum ServiceStatus {
    Pending,
    Idle,
    NeedBackend,
    Active,
}

/// How a pod is, for a client.
#[derive(Debug, Clone, Copy, PartialEq, Eq, Structural)]
pub enum PodState {
    Launching,
    Running,
    Suspending,
    Suspended,
}

/// How a workload is, for a client.
pub open spec fn workload_status(status: WlStatus) -> WorkloadStatus {
    match status {
        WlStatus::Dormant => WorkloadStatus::Dormant,
        WlStatus::WaitingForSpec => WorkloadStatus::WaitingForSpec,
        WlStatus::Launching => WorkloadStatus::Launching,
        WlStatus::Running => WorkloadStatus::Running,
        WlStatus::Suspending => WorkloadStatus::Suspending,
        WlStatus::Suspended => WorkloadStatus::Suspended,
        WlStatus::RetryBackoff => WorkloadStatus::RetryBackoff,
        WlStatus::Failed => WorkloadStatus::Failed,
        WlStatus::Completed => WorkloadStatus::Completed,
    }
}

/// How a workload is, for a client.
pub fn sm_wl_status_to_client(status: WlStatus) -> (r: WorkloadStatus)
    ensures
        r == workload_status(status),
{
    match status {
        WlStatus::Dormant => WorkloadStatus::Dormant,
        WlStatus::WaitingForSpec => WorkloadStatus::WaitingForSpec,
        WlStatus::Launching => WorkloadStatus::Launching,
        WlStatus::Running => WorkloadStatus::Running,
        WlStatus::Suspending => WorkloadStatus::Suspending,
        WlStatus::Suspended => WorkloadStatus::Suspended,
        WlStatus::RetryBackoff => WorkloadStatus::RetryBackoff,
        WlStatus::Failed => WorkloadStatus::Failed,
        WlStatus::Completed => WorkloadStatus::Completed,
    }
}

/// How a service is, for a client.
pub open spec fn service_status(status: EndpointStatus) -> ServiceStatus {
    match status {
        EndpointStatus::Idle => ServiceStatus::Idle,
        EndpointStatus::NeedBackend => ServiceStatus::NeedBackend,
        EndpointStatus::Active => ServiceStatus::Active,
    }
}

/// How a service is, for a client.
pub fn sm_endpoint_status_to_client(status: EndpointStatus) -> (r: ServiceStatus)
    ensures
        r == service_status(status),
{
    match status {
        EndpointStatus::Idle => ServiceStatus::Idle,
        EndpointStatus::NeedBackend => ServiceStatus::NeedBackend,
        EndpointStatus::Active => ServiceStatus::Active,
    }
}

/// How a pod is, for a client. A pod that has ended counts as launching: another takes its place.
pub open spec fn pod_state(status: PodStatus) -> PodState {
    match status {
        PodStatus::Running => PodState::Running,
        PodStatus::Suspending => PodState::Suspending,
        PodStatus::Suspended { .. } => PodState::Suspended,
        _ => PodState::Launching,
    }
}

/// How a pod is, for a client.
pub fn sm_pod_status_to_client(status: PodStatus) -> (r: PodState)
    ensures
        r == pod_state(status),
{
    match status {
        PodStatus::Pending => PodState::Launching,
        PodStatus::Running => PodState::Running,
        PodStatus::Suspending => PodState::Suspending,
        PodStatus::Suspended { .. } => PodState::Suspended,
        PodStatus::Finished | PodStatus::Failed | PodStatus::Displaced => PodState::Launching,
    }
}

#[derive(Debug)]
pub struct WorkloadStatusReport {
    pub name: String,
    pub state: WorkloadStatus,
    pub pod_id: Option<PodId>,
    pub ip: String,
}

#[derive(Debug)]
pub struct ServiceStatusReport {
    pub name: String,
    pub workload: String,
    pub service_state: ServiceStatus,
    pub backend_need: Option<BackendNeed>,
    pub activation_enabled: bool,
    pub ip: String,
}

#[derive(Debug)]
pub struct PodStatusReport {
    pub pod_id: PodId,
    pub workload: String,
    pub worker_id: WorkerId,
    pub ip: String,
    pub state: PodState,
}

#[derive(Debug)]
pub struct NamespaceStatusReport {
    pub namespace_id: NamespaceId,
    pub status: NamespaceStatus,
    pub workloads: Vec<WorkloadStatusReport>,
    pub services: Vec<ServiceStatusReport>,
    pub pods: Vec<PodStatusReport>,
}

#[verifier::ext_equal]
pub struct WorkloadView {
    pub name: Seq<char>,
    pub state: WorkloadStatus,
    pub pod_id: Option<PodId>,
    pub ip: Seq<char>,
}

#[verifier::ext_equal]
pub struct ServiceView {
    pub name: Seq<char>,
    pub workload: Seq<char>,
    pub service_state: ServiceStatus,
    pub backend_need: Option<BackendNeed>,
    pub activation_enabled: bool,
    pub ip: Seq<char>,
}

#[verifier::ext_equal]
pub struct PodView {
    pub pod_id: PodId,
    pub workload: Seq<char>,
    pub worker_id: WorkerId,
    pub ip: Seq<char>,
    pub state: PodState,
}

impl WorkloadStatusReport {
    pub open spec fn view(&self) -> WorkloadView {
        WorkloadView {
            name: self.name@,
            state: self.state,
            pod_id: self.pod_id,
            ip: self.ip@,
        }
    }
}

impl ServiceStatusReport {
    pub open spec fn view(&self) -> ServiceView {
        ServiceView {
            name: self.name@,
            workload: self.workload@,
            service_state: self.service_state,
            backend_need: self.backend_need,
            activation_enabled: self.activation_enabled,
            ip: self.ip@,
        }
    }
}

impl PodStatusReport {
    pub open spec fn view(&self) -> PodView {
        PodView {
            pod_id: self.pod_id,
            workload: self.workload@,
            worker_id: self.worker_id,
            ip: self.ip@,
            state: self.state,
        }
    }
}

/// A value that a table may hold.
pub open spec fn lookup<I, V>(m: Map<I, V>, k: I) -> Option<V> {
    if m.contains_key(k) {
        Some(m[k])
    } else {
        None
    }
}

/// The endpoint behind a number that may be missing.
pub open spec fn endpoint_of(
    endpoints: Map<EndpointId, EndpointSnapshot>,
    id: Option<EndpointId>,
) -> Option<EndpointSnapshot> {
    match id {
        Some(e) => lookup(endpoints, e),
        None => None,
    }
}

/// What a client learns of a workload.
pub open spec fn workload_view(name: Seq<char>, id: u64, snapshot: RouterSnapshot) -> WorkloadView {
    let w = lookup(snapshot.workloads@, WorkloadId(id));
    WorkloadView {
        name,
        state: match w {
            Some(w) => match w.status {
                Some(s) => workload_status(s),
                None => WorkloadStatus::Dormant,
            },
            None => WorkloadStatus::Dormant,
        },
        pod_id: match w {
            Some(w) => w.pod_id,
            None => None,
        },
        ip: match w {
            Some(w) => match endpoint_of(snapshot.endpoints@, w.endpoint_id) {
                Some(e) => dotted(e.ip),
                None => seq![],
            },
            None => seq![],
        },
    }
}

/// What a client learns of a service.
pub open spec fn service_view(
    name: Seq<char>,
    id: u64,
    snapshot: RouterSnapshot,
    spec: Option<NamespaceSpec>,
) -> ServiceView {
    let e = match lookup(snapshot.services@, ServiceId(id)) {
        Some(s) => endpoint_of(snapshot.endpoints@, s.endpoint_id),
        None => None,
    };
    ServiceView {
        name,
        workload: match spec {
            Some(s) => match lookup(s.services@, name) {
                Some(v) => v.workload_id.0@,
                None => seq![],
            },
            None => seq![],
        },
        service_state: match e {
            Some(e) => match e.status {
                Some(s) => service_status(s),
                None => ServiceStatus::Pending,
            },
            None => ServiceStatus::Pending,
        },
        backend_need: match e {
            Some(e) => e.backend_need,
            None => None,
        },
        activation_enabled: match e {
            Some(e) => e.has_activation,
            None => false,
        },
        ip: match e {
            Some(e) => dotted(e.ip),
            None => dotted(0),
        },
    }
}

/// What a client learns of a pod. A pod without a workload is passed over.
pub open spec fn pod_view(
    pod_id: PodId,
    pod: PodSnapshot,
    names: Map<u64, Seq<char>>,
) -> Option<PodView> {
    match pod.workload_id {
        Some(w) => Some(
            PodView {
                pod_id,
                workload: match lookup(names, w.0) {
                    Some(n) => n,
                    None => seq![],
                },
                worker_id: match pod.worker_id {
                    Some(w) => w,
                    None => WorkerId(0),
                },
                ip: match pod.launch_spec {
                    Some(s) => match s.network {
                        Some(n) => dotted(n.ip),
                        None => seq![],
                    },
                    None => seq![],
                },
                state: pod_state(pod.status),
            },
        ),
        None => None,
    }
}

/// What a client learns of the pods, in order.
pub open spec fn pod_views(
    pods: Seq<(PodId, PodSnapshot)>,
    names: Map<u64, Seq<char>>,
) -> Seq<PodView>
    decreases pods.len(),
{
    if pods.len() == 0 {
        seq![]
    } else {
        let rest = pod_views(pods.drop_last(), names);
        match pod_view(pods.last().0, pods.last().1, names) {
            Some(p) => rest.push(p),
            None => rest,
        }
    }
}

/// A report with its lists as sequences.
#[verifier::ext_equal]
pub struct StatusView {
    pub namespace_id: NamespaceId,
    pub status: NamespaceStatus,
    pub workloads: Seq<WorkloadView>,
    pub services: Seq<ServiceView>,
    pub pods: Seq<PodView>,
}

impl NamespaceStatusReport {
    pub open spec fn view(&self) -> StatusView {
        StatusView {
            namespace_id: self.namespace_id,
            status: self.status,
            workloads: self.workloads@.map_values(|w: WorkloadStatusReport| w@),
            services: self.services@.map_values(|s: ServiceStatusReport| s@),
            pods: self.pods@.map_values(|p: PodStatusReport| p@),
        }
    }
}

/// An empty text.
fn blank() -> (r: String)
    ensures
        r@ == Seq::<char>::empty(),
{
    let r: String = String::new();
    assert(r@ =~= Seq::<char>::empty());
    r
}

impl Namespace {
    fn report_workload(name: &String, id: WorkloadId, snapshot: &RouterSnapshot) -> (r:
        WorkloadStatusReport)
        ensures
            r@ == workload_view(name@, id.0, *snapshot),
    {
        let w: Option<WorkloadSnapshot> = match snapshot.workloads.get(&id) {
            Some(w) => Some(*w),
            None => None,
        };
        let state: WorkloadStatus = match w {
            Some(w) => match w.status {
                Some(s) => sm_wl_status_to_client(s),
                None => WorkloadStatus::Dormant,
            },
            None => WorkloadStatus::Dormant,
        };
        let endpoint_id: Option<EndpointId> = match w {
            Some(w) => w.endpoint_id,
            None => None,
        };
        let ip: String = match endpoint_id {
            Some(e) => match snapshot.endpoints.get(&e) {
                Some(e) => dotted_text(e.ip),
                None => blank(),
            },
            None => blank(),
        };
        WorkloadStatusReport {
            name: name.clone(),
            state,
            pod_id: match w {
                Some(w) => w.pod_id,
                None => None,
            },
            ip,
        }
    }

    fn report_service(&self, name: &String, id: ServiceId, snapshot: &RouterSnapshot) -> (r:
        ServiceStatusReport)
        ensures
            r@ == service_view(name@, id.0, *snapshot, self.current_spec),
    {
        let endpoint_id: Option<EndpointId> = match snapshot.services.get(&id) {
            Some(s) => s.endpoint_id,
            None => None,
        };
        let endpoint: Option<EndpointSnapshot> = match endpoint_id {
            Some(e) => match snapshot.endpoints.get(&e) {
                Some(e) => Some(*e),
                None => None,
            },
            None => None,
        };
        let workload: String = match &self.current_spec {
            Some(s) => match s.services.get(&ids::ServiceId(name.clone())) {
                Some(v) => v.workload_id.0.clone(),
                None => blank(),
            },
            None => blank(),
        };
        match endpoint {
            Some(e) => ServiceStatusReport {
                name: name.clone(),
                workload,
                service_state: match e.status {
                    Some(s) => sm_endpoint_status_to_client(s),
                    None => ServiceStatus::Pending,
                },
                backend_need: e.backend_need,
                activation_enabled: e.has_activation,
                ip: dotted_text(e.ip),
            },
            None => ServiceStatusReport {
                name: name.clone(),
                workload,
                service_state: ServiceStatus::Pending,
                backend_need: None,
                activation_enabled: false,
                ip: dotted_text(0),
            },
        }
    }

    fn report_pod(&self, pod_id: PodId, pod: &PodSnapshot) -> (r: Option<PodStatusReport>)
        ensures
            match r {
                Some(p) => pod_view(pod_id, *pod, self.management@.workloads.names) == Some(p@),
                None => pod_view(pod_id, *pod, self.management@.workloads.names) is None,
            },
    {
        let workload_id: WorkloadId = match pod.workload_id {
            Some(w) => w,
            None => {
                return None;
            },
        };
        let workload: String = match self.management.workload_proto_name(workload_id) {
            Some(n) => n.clone(),
            None => blank(),
        };
        let ip: String = match &pod.launch_spec {
            Some(s) => match &s.network {
                Some(n) => dotted_text(n.ip),
                None => blank(),
            },
            None => blank(),
        };
        Some(
            PodStatusReport {
                pod_id,
                workload,
                worker_id: match pod.worker_id {
                    Some(w) => w,
                    None => WorkerId(0),
                },
                ip,
                state: sm_pod_status_to_client(pod.status),
            },
        )
    }

    /// What a client learns of the namespace.
    pub open spec fn report(self, snapshot: RouterSnapshot) -> StatusView {
        StatusView {
            namespace_id: self.namespace_id,
            status: NamespaceStatus::Active,
            workloads: self.management.workload_seq().map_values(
                |w: (String, u64)| workload_view(w.0@, w.1, snapshot),
            ),
            services: self.management.service_seq().map_values(
                |s: (String, u64)| service_view(s.0@, s.1, snapshot, self.current_spec),
            ),
            pods: pod_views(snapshot.pods.seq(), self.management@.workloads.names),
        }
    }

    /// What a client learns of the namespace, given what the router holds.
    pub fn status_report(&self, snapshot: &RouterSnapshot) -> (r: NamespaceStatusReport)
        ensures
            r@ == self.report(*snapshot),
            self.management@.workloads.ids == as_map(self.management.workload_seq()),
            increasing(self.management.workload_seq()),
            self.management@.services.ids == as_map(self.management.service_seq()),
            increasing(self.management.service_seq()),
    {
        let ghost ws = self.management.workload_seq();
        let n: usize = self.management.workload_count();
        let mut workloads: Vec<WorkloadStatusReport> = Vec::new();
        let mut i: usize = 0;
        while i < n
            invariant
                i <= n,
                n == ws.len(),
                ws == self.management.workload_seq(),
                workloads@.len() == i,
                forall|j: int|
                    0 <= j < i ==> (#[trigger] workloads@[j])@ == workload_view(
                        ws[j].0@,
                        ws[j].1,
                        *snapshot,
                    ),
            decreases n - i,
        {
            let (name, id) = self.management.workload_at(i);
            workloads.push(Self::report_workload(name, id, snapshot));
            i = i + 1;
        }
        let ghost ss = self.management.service_seq();
        let n: usize = self.management.service_count();
        let mut services: Vec<ServiceStatusReport> = Vec::new();
        let mut i: usize = 0;
        while i < n
            invariant
                i <= n,
                n == ss.len(),
                ss == self.management.service_seq(),
                services@.len() == i,
                forall|j: int|
                    0 <= j < i ==> (#[trigger] services@[j])@ == service_view(
                        ss[j].0@,
                        ss[j].1,
                        *snapshot,
                        self.current_spec,
                    ),
            decreases n - i,
        {
            let (name, id) = self.management.service_at(i);
            services.push(self.report_service(name, id, snapshot));
            i = i + 1;
        }
        let ghost ps = snapshot.pods.seq();
        let ghost names = self.management@.workloads.names;
        let n: usize = snapshot.pods.len();
        let mut pods: Vec<PodStatusReport> = Vec::new();
        let mut i: usize = 0;
        assert(ps.take(0) =~= Seq::<(PodId, PodSnapshot)>::empty());
        assert(pods@.map_values(|p: PodStatusReport| p@) =~= seq![]);
        while i < n
            invariant
                i <= n,
                n == ps.len(),
                ps == snapshot.pods.seq(),
                names == self.management@.workloads.names,
                pods@.map_values(|p: PodStatusReport| p@) == pod_views(ps.take(i as int), names),
            decreases n - i,
        {
            assert(ps.take(i + 1).drop_last() =~= ps.take(i as int));
            assert(ps.take(i + 1).last() == ps[i as int]);
            let ghost mid = pods@.map_values(|p: PodStatusReport| p@);
            if let Some(p) = self.report_pod(*snapshot.pods.key_at(i), snapshot.pods.value_at(i)) {
                pods.push(p);
                assert(pods@.map_values(|p: PodStatusReport| p@) =~= mid.push(p@));
            }
            i = i + 1;
        }
        assert(ps.take(i as int) =~= ps);
        let r = NamespaceStatusReport {
            namespace_id: self.namespace_id.clone(),
            status: NamespaceStatus::Active,
            workloads,
            services,
            pods,
        };
        assert(r@ =~= self.report(*snapshot));
        r
    }
}

/// A report lists each workload under its name, with the status that its machine has, its pod, and
/// the address of its endpoint. A workload without a machine is dormant.
pub proof fn law_report_shows_workloads(ns: Namespace, snapshot: RouterSnapshot, i: int)
    requires
        0 <= i < ns.management.workload_seq().len(),
    ensures
        ns.report(snapshot).namespace_id == ns.namespace_id,
        ns.report(snapshot).status == NamespaceStatus::Active,
        ns.report(snapshot).workloads.len() == ns.management.workload_seq().len(),
        ns.report(snapshot).workloads[i].name == ns.management.workload_seq()[i].0@,
        ({
            let r = ns.report(snapshot).workloads[i];
            let id = WorkloadId(ns.management.workload_seq()[i].1);
            &&& !snapshot.workloads@.contains_key(id) ==> r.state == WorkloadStatus::Dormant
                && r.pod_id is None && r.ip.len() == 0
            &&& snapshot.workloads@.contains_key(id) ==> {
                let w = snapshot.workloads@[id];
                &&& r.pod_id == w.pod_id
                &&& w.status == Some(WlStatus::Running) <==> r.state == WorkloadStatus::Running
                &&& w.status == Some(WlStatus::Launching) <==> r.state == WorkloadStatus::Launching
                &&& w.status == Some(WlStatus::Suspending) <==> r.state
                    == WorkloadStatus::Suspending
                &&& w.status == Some(WlStatus::Suspended) <==> r.state == WorkloadStatus::Suspended
                &&& w.status == Some(WlStatus::Failed) <==> r.state == WorkloadStatus::Failed
                &&& w.status == Some(WlStatus::Completed) <==> r.state == WorkloadStatus::Completed
                &&& w.status == Some(WlStatus::RetryBackoff) <==> r.state
                    == WorkloadStatus::RetryBackoff
                &&& w.status == Some(WlStatus::WaitingForSpec) <==> r.state
                    == WorkloadStatus::WaitingForSpec
                &&& w.endpoint_id matches Some(e) ==> (snapshot.endpoints@.contains_key(e) ==> r.ip
                    == dotted(snapshot.endpoints@[e].ip))
            }
        }),
{
}

/// A report lists each service under its name, with the status, the need and the address of its
/// endpoint, and with the workload that the spec gives it.
pub proof fn law_report_shows_services(ns: Namespace, snapshot: RouterSnapshot, i: int)
    requires
        0 <= i < ns.management.service_seq().len(),
    ensures
        ns.report(snapshot).services.len() == ns.management.service_seq().len(),
        ns.report(snapshot).services[i].name == ns.management.service_seq()[i].0@,
        ({
            let r = ns.report(snapshot).services[i];
            let id = ServiceId(ns.management.service_seq()[i].1);
            &&& ns.current_spec matches Some(spec) ==> (spec.services@.contains_key(r.name)
                ==> r.workload == spec.services@[r.name].workload_id.0@)
            &&& !snapshot.services@.contains_key(id) ==> r.service_state == ServiceStatus::Pending
                && !r.activation_enabled && r.backend_need is None
            &&& snapshot.services@.contains_key(id) ==> (snapshot.services@[id].endpoint_id matches
                Some(e) ==> (snapshot.endpoints@.contains_key(e) ==> {
                let end = snapshot.endpoints@[e];
                &&& r.ip == dotted(end.ip)
                &&& r.backend_need == end.backend_need
                &&& r.activation_enabled == end.has_activation
                &&& end.status == Some(EndpointStatus::Active) <==> r.service_state
                    == ServiceStatus::Active
                &&& end.status == Some(EndpointStatus::Idle) <==> r.service_state
                    == ServiceStatus::Idle
                &&& end.status == Some(EndpointStatus::NeedBackend) <==> r.service_state
                    == ServiceStatus::NeedBackend
            }))
        }),
{
}

/// A report lists a pod exactly if it belongs to a workload: with the workload's name, its worker,
/// its address, and how far it is.
pub proof fn law_report_shows_pods(
    pods: Seq<(PodId, PodSnapshot)>,
    names: Map<u64, Seq<char>>,
    p: PodView,
)
    ensures
        pod_views(pods, names).contains(p) <==> exists|i: int|
            0 <= i < pods.len() && shown_as((#[trigger] pods[i]).0, pods[i].1, names, p),
    decreases pods.len(),
{
    if pods.len() > 0 {
        let front = pods.drop_last();
        let last = pods.len() - 1;
        let rest = pod_views(front, names);
        law_report_shows_pods(front, names, p);
        let v = pod_view(pods[last].0, pods[last].1, names);
        assert((v == Some(p)) == shown_as(pods[last].0, pods[last].1, names, p)) by {
            if shown_as(pods[last].0, pods[last].1, names, p) {
                assert(v.unwrap() =~= p);
            }
        }
        if let Some(q) = v {
            lemma_contains_pushed(rest, q, p);
        }
        if rest.contains(p) {
            let i = choose|i: int|
                0 <= i < front.len() && shown_as((#[trigger] front[i]).0, front[i].1, names, p);
            assert(pods[i] == front[i]);
        }
        if exists|i: int|
            0 <= i < pods.len() && shown_as((#[trigger] pods[i]).0, pods[i].1, names, p) {
            let i = choose|i: int|
                0 <= i < pods.len() && shown_as((#[trigger] pods[i]).0, pods[i].1, names, p);
            if i < last {
                assert(front[i] == pods[i]);
            }
        }
    }
}

/// A pod of a workload, as a report shows it.
pub open spec fn shown_as(
    pod_id: PodId,
    pod: PodSnapshot,
    names: Map<u64, Seq<char>>,
    p: PodView,
) -> bool {
    &&& p.pod_id == pod_id
    &&& pod.workload_id matches Some(w) && p.workload == (if names.contains_key(w.0) {
        names[w.0]
    } else {
        seq![]
    })
    &&& pod.worker_id matches Some(w) ==> p.worker_id == w
    &&& pod.worker_id is None ==> p.worker_id == WorkerId(0)
    &&& p.ip == (match pod.launch_spec {
        Some(s) => match s.network {
            Some(n) => dotted(n.ip),
            None => seq![],
        },
        None => seq![],
    })
    &&& p.state == PodState::Running <==> pod.status == PodStatus::Running
    &&& p.state == PodState::Suspending <==> pod.status == PodStatus::Suspending
    &&& p.state == PodState::Suspended <==> pod.status is Suspended
    &&& p.state == PodState::Launching <==> !(pod.status == PodStatus::Running || pod.status
        == PodStatus::Suspending || pod.status is Suspended)
}

} // verus!
