//! What clients are told: reports and observed events.
use vstd::prelude::*;

use crate::grpc::proto;
use crate::ids::{PodId, ServiceId, WorkerId};
use crate::output::{
    NamespaceStatusReport, PodStatus, PodStatusReport, ReportView, ServiceReportView,
    ServiceStatusReport, SmNamespaceEvent, SmServiceEvent, SmWorkloadEvent, WorkerStatusReport,
};
use crate::service::{IdleTimerCancelReason, ServiceActivationTrigger, ServiceDeactivationReason};
use crate::sorted_map::SortedMap;
use crate::types::{BackendNeed, NamespaceStatus};

verus! {

// ---- status reports ---------------------------------------------------------------------------

pub open spec fn namespace_state(status: NamespaceStatus) -> proto::NamespaceState {
    match status {
        NamespaceStatus::Creating => proto::NamespaceState::Creating,
        NamespaceStatus::Active => proto::NamespaceState::Active,
        NamespaceStatus::Destroying => proto::NamespaceState::Destroying,
    }
}

/// The state of a namespace as clients see it.
pub fn convert_namespace_state(status: &NamespaceStatus) -> (r: proto::NamespaceState)
    ensures
        r == namespace_state(*status),
{
    match status {
        NamespaceStatus::Creating => proto::NamespaceState::Creating,
        NamespaceStatus::Active => proto::NamespaceState::Active,
        NamespaceStatus::Destroying => proto::NamespaceState::Destroying,
    }
}

pub open spec fn backend_need(need: Option<BackendNeed>) -> proto::BackendNeed {
    match need {
        Some(BackendNeed::Nothing) => proto::BackendNeed::Nothing,
        Some(BackendNeed::Traffic) => proto::BackendNeed::Traffic,
        Some(BackendNeed::Active) => proto::BackendNeed::Active,
        None => proto::BackendNeed::Unspecified,
    }
}

/// How much a service needs its backend, as clients see it.
pub fn convert_backend_need(need: &Option<BackendNeed>) -> (r: proto::BackendNeed)
    ensures
        r == backend_need(*need),
{
    match need {
        Some(BackendNeed::Nothing) => proto::BackendNeed::Nothing,
        Some(BackendNeed::Traffic) => proto::BackendNeed::Traffic,
        Some(BackendNeed::Active) => proto::BackendNeed::Active,
        None => proto::BackendNeed::Unspecified,
    }
}

/// The name of a pod, empty where there is none.
pub open spec fn pod_name(pod: Option<PodId>) -> Seq<char> {
    match pod {
        Some(p) => p.0@,
        None => Seq::empty(),
    }
}

/// The name of a worker, empty where there is none.
pub open spec fn worker_name(worker: Option<WorkerId>) -> Seq<char> {
    match worker {
        Some(w) => w.0@,
        None => Seq::empty(),
    }
}

fn pod_text(pod: &Option<PodId>) -> (r: String)
    ensures
        r@ == pod_name(*pod),
{
    match pod {
        Some(p) => p.0.clone(),
        None => {
            let r: String = String::new();
            proof {
                assert(r@ =~= Seq::empty());
            }
            r
        },
    }
}

fn worker_text(worker: &Option<WorkerId>) -> (r: String)
    ensures
        r@ == worker_name(*worker),
{
    match worker {
        Some(w) => w.0.clone(),
        None => {
            let r: String = String::new();
            proof {
                assert(r@ =~= Seq::empty());
            }
            r
        },
    }
}

fn reads(s: &str, word: &str) -> (r: bool)
    ensures
        r == (s@ == word@),
{
    let (a, b) = (s.to_owned(), word.to_owned());
    a == b
}

/// The state of a workload with its texts as characters.
#[verifier::ext_equal]
pub enum WorkloadStateView {
    Launching { pod_id: Seq<char>, worker_id: Seq<char> },
    Running { pod_id: Seq<char>, worker_id: Seq<char> },
    WaitingForCapacity,
    Dormant,
}

pub open spec fn workload_state_view(s: proto::WorkloadState) -> WorkloadStateView {
    match s {
        proto::WorkloadState::Launching { pod_id, worker_id } => WorkloadStateView::Launching {
            pod_id: pod_id@,
            worker_id: worker_id@,
        },
        proto::WorkloadState::Running { pod_id, worker_id } => WorkloadStateView::Running {
            pod_id: pod_id@,
            worker_id: worker_id@,
        },
        proto::WorkloadState::WaitingForCapacity => WorkloadStateView::WaitingForCapacity,
        proto::WorkloadState::Dormant => WorkloadStateView::Dormant,
    }
}

/// What the words for a workload's state mean; any other word means that it sleeps.
pub open spec fn workload_state(
    word: Seq<char>,
    pod: Option<PodId>,
    worker: Option<WorkerId>,
) -> WorkloadStateView {
    if word == "launching"@ {
        WorkloadStateView::Launching { pod_id: pod_name(pod), worker_id: worker_name(worker) }
    } else if word == "running"@ {
        WorkloadStateView::Running { pod_id: pod_name(pod), worker_id: worker_name(worker) }
    } else if word == "waiting_for_capacity"@ {
        WorkloadStateView::WaitingForCapacity
    } else {
        WorkloadStateView::Dormant
    }
}

/// The state of a workload from its word.
pub fn convert_workload_state_from_strings(
    state: &str,
    pod_id: &Option<PodId>,
    worker_id: &Option<WorkerId>,
) -> (r: proto::WorkloadState)
    ensures
        workload_state_view(r) == workload_state(state@, *pod_id, *worker_id),
{
    if reads(state, "launching") {
        proto::WorkloadState::Launching {
            pod_id: pod_text(pod_id),
            worker_id: worker_text(worker_id),
        }
    } else if reads(state, "running") {
        proto::WorkloadState::Running {
            pod_id: pod_text(pod_id),
            worker_id: worker_text(worker_id),
        }
    } else if reads(state, "waiting_for_capacity") {
        proto::WorkloadState::WaitingForCapacity
    } else {
        proto::WorkloadState::Dormant
    }
}

/// The state of a service with its texts as characters.
#[verifier::ext_equal]
pub enum ServiceStateView {
    Idle,
    NeedBackend,
    Active { pod_id: Seq<char>, worker_id: Seq<char>, backend_need: proto::BackendNeed },
    Pending,
}

pub open spec fn service_state_view(s: proto::ServiceState) -> ServiceStateView {
    match s {
        proto::ServiceState::Idle => ServiceStateView::Idle,
        proto::ServiceState::NeedBackend => ServiceStateView::NeedBackend,
        proto::ServiceState::Active { pod_id, worker_id, backend_need } => {
            ServiceStateView::Active { pod_id: pod_id@, worker_id: worker_id@, backend_need }
        },
        proto::ServiceState::Pending => ServiceStateView::Pending,
    }
}

/// What the words for a service's state mean; any other word means that it is pending.
pub open spec fn service_state(
    word: Seq<char>,
    pod: Option<PodId>,
    worker: Option<WorkerId>,
    need: Option<BackendNeed>,
) -> ServiceStateView {
    if word == "idle"@ {
        ServiceStateView::Idle
    } else if word == "need_backend"@ {
        ServiceStateView::NeedBackend
    } else if word == "active"@ {
        ServiceStateView::Active {
            pod_id: pod_name(pod),
            worker_id: worker_name(worker),
            backend_need: backend_need(need),
        }
    } else {
        ServiceStateView::Pending
    }
}

/// The state of a service from its word.
pub fn convert_service_state_from_strings(
    state: &str,
    pod_id: &Option<PodId>,
    worker_id: &Option<WorkerId>,
    need: &Option<BackendNeed>,
) -> (r: proto::ServiceState)
    ensures
        service_state_view(r) == service_state(state@, *pod_id, *worker_id, *need),
{
    if reads(state, "idle") {
        proto::ServiceState::Idle
    } else if reads(state, "need_backend") {
        proto::ServiceState::NeedBackend
    } else if reads(state, "active") {
        proto::ServiceState::Active {
            pod_id: pod_text(pod_id),
            worker_id: worker_text(worker_id),
            backend_need: convert_backend_need(need),
        }
    } else {
        proto::ServiceState::Pending
    }
}

/// A workload's report with its texts as characters.
#[verifier::ext_equal]
pub struct WorkloadEntry {
    pub state: WorkloadStateView,
    pub spliced: bool,
}

/// A service's report with its texts as characters.
#[verifier::ext_equal]
pub struct ServiceEntry {
    pub workload_id: Seq<char>,
    pub state: ServiceStateView,
    pub activation_enabled: bool,
    pub spliced: bool,
    pub ip: Seq<char>,
    pub mac: Seq<char>,
}

/// A namespace's report with its texts as characters.
#[verifier::ext_equal]
pub struct Report {
    pub namespace_id: Seq<char>,
    pub state: proto::NamespaceState,
    pub workloads: Map<Seq<char>, WorkloadEntry>,
    pub services: Map<Seq<char>, ServiceEntry>,
}

pub open spec fn workload_entry_view(w: proto::WorkloadStatusReport) -> WorkloadEntry {
    WorkloadEntry { state: workload_state_view(w.state), spliced: w.spliced }
}

pub open spec fn service_entry_view(s: proto::ServiceStatusReport) -> ServiceEntry {
    ServiceEntry {
        workload_id: s.workload_id@,
        state: service_state_view(s.state),
        activation_enabled: s.activation_enabled,
        spliced: s.spliced,
        ip: s.ip@,
        mac: s.mac@,
    }
}

pub open spec fn workload_entry_views(m: Map<Seq<char>, proto::WorkloadStatusReport>) -> Map<
    Seq<char>,
    WorkloadEntry,
> {
    m.map_values(|w: proto::WorkloadStatusReport| workload_entry_view(w))
}

pub open spec fn service_entry_views(m: Map<Seq<char>, proto::ServiceStatusReport>) -> Map<
    Seq<char>,
    ServiceEntry,
> {
    m.map_values(|s: proto::ServiceStatusReport| service_entry_view(s))
}

pub open spec fn report_view(r: proto::NamespaceStatusReport) -> Report {
    Report {
        namespace_id: r.namespace_id@,
        state: r.state,
        workloads: workload_entry_views(r.workloads@),
        services: service_entry_views(r.services@),
    }
}

/// What a service says of its workload.
pub open spec fn workload_entry(s: ServiceReportView) -> WorkloadEntry {
    WorkloadEntry {
        state: workload_state(s.workload_state, s.pod_id, s.worker_id),
        spliced: false,
    }
}

pub open spec fn service_entry(s: ServiceReportView) -> ServiceEntry {
    ServiceEntry {
        workload_id: s.workload_id.0@,
        state: service_state(s.service_state, s.pod_id, s.worker_id, s.backend_need),
        activation_enabled: s.activation_enabled,
        spliced: false,
        ip: s.ip,
        mac: Seq::empty(),
    }
}

/// The workloads that the services name, each as the first service that names it says.
pub open spec fn workload_entries(s: Seq<(ServiceId, ServiceReportView)>) -> Map<
    Seq<char>,
    WorkloadEntry,
>
    decreases s.len(),
{
    if s.len() == 0 {
        Map::empty()
    } else {
        let before = workload_entries(s.drop_last());
        let name = s.last().1.workload_id.0@;
        if before.contains_key(name) {
            before
        } else {
            before.insert(name, workload_entry(s.last().1))
        }
    }
}

pub open spec fn service_entries(s: Seq<(ServiceId, ServiceReportView)>) -> Map<
    Seq<char>,
    ServiceEntry,
>
    decreases s.len(),
{
    if s.len() == 0 {
        Map::empty()
    } else {
        service_entries(s.drop_last()).insert(s.last().0.0@, service_entry(s.last().1))
    }
}

/// The report on a namespace as clients see it.
pub open spec fn report_of(report: ReportView) -> Report {
    Report {
        namespace_id: report.namespace_id.0@,
        state: namespace_state(report.status),
        workloads: workload_entries(report.services),
        services: service_entries(report.services),
    }
}

/// Makes the report on a namespace that clients see.
pub fn convert_status_report(report: &NamespaceStatusReport) -> (r: proto::NamespaceStatusReport)
    ensures
        report_view(r) == report_of(report@),
{
    let mut workloads: SortedMap<String, proto::WorkloadStatusReport> = SortedMap::new();
    let mut services: SortedMap<String, proto::ServiceStatusReport> = SortedMap::new();
    let ghost all = report@.services;
    let mut i: usize = 0;
    proof {
        assert(workload_entry_views(workloads@) =~= Map::empty());
        assert(service_entry_views(services@) =~= Map::empty());
    }
    while i < report.services.len()
        invariant
            i <= report.services.len(),
            all == report@.services,
            workload_entry_views(workloads@) == workload_entries(all.take(i as int)),
            service_entry_views(services@) == service_entries(all.take(i as int)),
        decreases report.services.len() - i,
    {
        let id: &ServiceId = &report.services[i].0;
        let svc: &ServiceStatusReport = &report.services[i].1;
        let ghost (w0, s0) = (workloads@, services@);
        proof {
            assert(all.take(i + 1).drop_last() =~= all.take(i as int));
            assert(all.take(i + 1).last() == (*id, svc@));
        }
        if !workloads.contains_key(&svc.workload_id.0) {
            let entry: proto::WorkloadStatusReport = proto::WorkloadStatusReport {
                state: convert_workload_state_from_strings(
                    svc.workload_state.as_str(),
                    &svc.pod_id,
                    &svc.worker_id,
                ),
                spliced: false,
            };
            workloads.insert(svc.workload_id.0.clone(), entry);
            proof {
                assert(workload_entry_views(workloads@) =~= workload_entry_views(w0).insert(
                    svc.workload_id.0@,
                    workload_entry(svc@),
                ));
            }
        }
        let mac: String = String::new();
        proof {
            assert(mac@ =~= Seq::empty());
            assert(workload_entry_views(w0).contains_key(svc.workload_id.0@) == w0.contains_key(
                svc.workload_id.0@,
            ));
        }
        let entry: proto::ServiceStatusReport = proto::ServiceStatusReport {
            workload_id: svc.workload_id.0.clone(),
            state: convert_service_state_from_strings(
                svc.service_state.as_str(),
                &svc.pod_id,
                &svc.worker_id,
                &svc.backend_need,
            ),
            activation_enabled: svc.activation_enabled,
            spliced: false,
            ip: svc.ip.clone(),
            mac,
        };
        services.insert(id.0.clone(), entry);
        proof {
            assert(service_entry_view(entry) =~= service_entry(svc@));
            assert(service_entry_views(services@) =~= service_entry_views(s0).insert(
                id.0@,
                service_entry(svc@),
            ));
        }
        i = i + 1;
    }
    proof {
        assert(all.take(i as int) =~= all);
    }
    proto::NamespaceStatusReport {
        namespace_id: report.namespace_id.0.clone(),
        state: convert_namespace_state(&report.status),
        workloads,
        services,
    }
}

/// A worker's report as clients see it.
pub open spec fn worker_info(w: WorkerStatusReport) -> proto::WorkerInfo {
    proto::WorkerInfo {
        worker_id: w.worker_id.0,
        max_pods: w.max_pods,
        available_memory_mb: w.available_memory_mb,
        active_pods: w.active_pods,
    }
}

pub fn convert_worker_report(w: &WorkerStatusReport) -> (r: proto::WorkerInfo)
    ensures
        r == worker_info(*w),
{
    proto::WorkerInfo {
        worker_id: w.worker_id.0.clone(),
        max_pods: w.max_pods,
        available_memory_mb: w.available_memory_mb,
        active_pods: w.active_pods,
    }
}

/// A pod's report as clients see it.
pub open spec fn pod_info(p: PodStatusReport) -> proto::PodInfo {
    proto::PodInfo {
        pod_id: p.pod_id.0,
        workload_id: p.workload_id.0,
        worker_id: p.worker_id.0,
        ip: p.ip,
        state: match p.state {
            PodStatus::Launching => proto::PodState::Launching,
            PodStatus::Running => proto::PodState::Running,
        },
    }
}

pub fn convert_pod_report(p: &PodStatusReport) -> (r: proto::PodInfo)
    ensures
        r == pod_info(*p),
{
    proto::PodInfo {
        pod_id: p.pod_id.0.clone(),
        workload_id: p.workload_id.0.clone(),
        worker_id: p.worker_id.0.clone(),
        ip: p.ip.clone(),
        state: match p.state {
            PodStatus::Launching => proto::PodState::Launching,
            PodStatus::Running => proto::PodState::Running,
        },
    }
}

// ---- observed events --------------------------------------------------------------------------

/// What happened to a workload, as clients see it.
pub open spec fn workload_event(event: SmWorkloadEvent) -> proto::WorkloadEvent {
    match event {
        SmWorkloadEvent::DemandChanged { demanding_services } => {
            proto::WorkloadEvent::DemandChanged { demanding_services }
        },
        SmWorkloadEvent::PodLaunching { pod_id, worker_id } => proto::WorkloadEvent::PodLaunching {
            pod_id: pod_id.0,
            worker_id: worker_id.0,
        },
        SmWorkloadEvent::PodRunning { pod_id, worker_id } => proto::WorkloadEvent::PodRunning {
            pod_id: pod_id.0,
            worker_id: worker_id.0,
        },
        SmWorkloadEvent::PodStopped { exit_code } => proto::WorkloadEvent::PodStopped { exit_code },
        SmWorkloadEvent::PodFailed { reason } => proto::WorkloadEvent::PodFailed { reason },
        SmWorkloadEvent::PodSuspending { pod_id, worker_id } => {
            proto::WorkloadEvent::PodSuspending { pod_id: pod_id.0, worker_id: worker_id.0 }
        },
        SmWorkloadEvent::PodSuspended { worker_id, artifact_id } => {
            proto::WorkloadEvent::PodSuspended {
                worker_id: worker_id.0,
                snapshot_id: artifact_id.0,
            }
        },
        SmWorkloadEvent::PodSuspendFailed { reason } => proto::WorkloadEvent::PodSuspendFailed {
            reason,
        },
        SmWorkloadEvent::PodResuming { pod_id, worker_id } => proto::WorkloadEvent::PodResuming {
            pod_id: pod_id.0,
            worker_id: worker_id.0,
        },
    }
}

/// What happened to a service, as clients see it.
pub open spec fn service_event(event: SmServiceEvent) -> proto::ServiceEvent {
    match event {
        SmServiceEvent::Activated { trigger } => proto::ServiceEvent::Activated {
            trigger: match trigger {
                ServiceActivationTrigger::Traffic => proto::ServiceActivationTrigger::Traffic,
            },
        },
        SmServiceEvent::BackendReady => proto::ServiceEvent::BackendReady,
        SmServiceEvent::IdleTimerStarted { timeout_ms } => proto::ServiceEvent::IdleTimerStarted {
            timeout_ms,
        },
        SmServiceEvent::IdleTimerCancelled { reason } => proto::ServiceEvent::IdleTimerCancelled {
            reason: match reason {
                IdleTimerCancelReason::NewTraffic => proto::IdleTimerCancelReason::NewTraffic,
            },
        },
        SmServiceEvent::IdleTimeoutFired => proto::ServiceEvent::IdleTimeoutFired,
        SmServiceEvent::Deactivated { reason } => proto::ServiceEvent::Deactivated {
            reason: match reason {
                ServiceDeactivationReason::IdleTimeout => {
                    proto::ServiceDeactivationReason::IdleTimeout
                },
                ServiceDeactivationReason::ForceDeactivate => {
                    proto::ServiceDeactivationReason::ForceDeactivate
                },
            },
        },
    }
}

/// What happened in a namespace, as clients see it.
pub open spec fn happening(event: SmNamespaceEvent) -> proto::Happening {
    match event {
        SmNamespaceEvent::Workload { workload_id, event } => proto::Happening::Workload {
            workload_id: workload_id.0,
            event: workload_event(event),
        },
        SmNamespaceEvent::Service { service_id, workload_id, event } => {
            proto::Happening::Service {
                service_id: service_id.0,
                workload_id: workload_id.0,
                event: service_event(event),
            }
        },
    }
}

fn convert_workload_event(event: SmWorkloadEvent) -> (r: proto::WorkloadEvent)
    ensures
        r == workload_event(event),
{
    match event {
        SmWorkloadEvent::DemandChanged { demanding_services } => {
            proto::WorkloadEvent::DemandChanged { demanding_services }
        },
        SmWorkloadEvent::PodLaunching { pod_id, worker_id } => proto::WorkloadEvent::PodLaunching {
            pod_id: pod_id.0,
            worker_id: worker_id.0,
        },
        SmWorkloadEvent::PodRunning { pod_id, worker_id } => proto::WorkloadEvent::PodRunning {
            pod_id: pod_id.0,
            worker_id: worker_id.0,
        },
        SmWorkloadEvent::PodStopped { exit_code } => proto::WorkloadEvent::PodStopped { exit_code },
        SmWorkloadEvent::PodFailed { reason } => proto::WorkloadEvent::PodFailed { reason },
        SmWorkloadEvent::PodSuspending { pod_id, worker_id } => {
            proto::WorkloadEvent::PodSuspending { pod_id: pod_id.0, worker_id: worker_id.0 }
        },
        SmWorkloadEvent::PodSuspended { worker_id, artifact_id } => {
            proto::WorkloadEvent::PodSuspended {
                worker_id: worker_id.0,
                snapshot_id: artifact_id.0,
            }
        },
        SmWorkloadEvent::PodSuspendFailed { reason } => proto::WorkloadEvent::PodSuspendFailed {
            reason,
        },
        SmWorkloadEvent::PodResuming { pod_id, worker_id } => proto::WorkloadEvent::PodResuming {
            pod_id: pod_id.0,
            worker_id: worker_id.0,
        },
    }
}

fn convert_service_event(event: SmServiceEvent) -> (r: proto::ServiceEvent)
    ensures
        r == service_event(event),
{
    match event {
        SmServiceEvent::Activated { trigger } => proto::ServiceEvent::Activated {
            trigger: match trigger {
                ServiceActivationTrigger::Traffic => proto::ServiceActivationTrigger::Traffic,
            },
        },
        SmServiceEvent::BackendReady => proto::ServiceEvent::BackendReady,
        SmServiceEvent::IdleTimerStarted { timeout_ms } => proto::ServiceEvent::IdleTimerStarted {
            timeout_ms,
        },
        SmServiceEvent::IdleTimerCancelled { reason } => proto::ServiceEvent::IdleTimerCancelled {
            reason: match reason {
                IdleTimerCancelReason::NewTraffic => proto::IdleTimerCancelReason::NewTraffic,
            },
        },
        SmServiceEvent::IdleTimeoutFired => proto::ServiceEvent::IdleTimeoutFired,
        SmServiceEvent::Deactivated { reason } => proto::ServiceEvent::Deactivated {
            reason: match reason {
                ServiceDeactivationReason::IdleTimeout => {
                    proto::ServiceDeactivationReason::IdleTimeout
                },
                ServiceDeactivationReason::ForceDeactivate => {
                    proto::ServiceDeactivationReason::ForceDeactivate
                },
            },
        },
    }
}

/// What happened in a namespace at the given time, as clients see it.
pub fn convert_sm_event_to_proto(event: SmNamespaceEvent, now_ms: i64) -> (r: proto::NamespaceEvent)
    ensures
        r == (proto::NamespaceEvent { timestamp_unix_ms: now_ms, event: happening(event) }),
{
    let event: proto::Happening = match event {
        SmNamespaceEvent::Workload { workload_id, event } => proto::Happening::Workload {
            workload_id: workload_id.0,
            event: convert_workload_event(event),
        },
        SmNamespaceEvent::Service { service_id, workload_id, event } => {
            proto::Happening::Service {
                service_id: service_id.0,
                workload_id: workload_id.0,
                event: convert_service_event(event),
            }
        },
    };
    proto::NamespaceEvent { timestamp_unix_ms: now_ms, event }
}

// ---- laws ---------------------------------------------------------------------------------------

/// Of the services that name a workload, the first decides how the workload is reported.
pub proof fn law_first_service_decides(s: Seq<(ServiceId, ServiceReportView)>, i: int)
    requires
        0 <= i < s.len(),
        forall|j: int| 0 <= j < i ==> (#[trigger] s[j]).1.workload_id.0@ != s[i].1.workload_id.0@,
    ensures
        workload_entries(s).contains_key(s[i].1.workload_id.0@),
        workload_entries(s)[s[i].1.workload_id.0@] == workload_entry(s[i].1),
    decreases s.len(),
{
    let t = s.drop_last();
    if i < t.len() {
        assert(t[i] == s[i]);
        law_first_service_decides(t, i);
    } else {
        let name = s[i].1.workload_id.0@;
        assert forall|j: int| 0 <= j < t.len() implies (#[trigger] t[j]).1.workload_id.0@ != name by {
            assert(t[j] == s[j]);
        }
        lemma_unnamed(t, name);
    }
}

proof fn lemma_unnamed(s: Seq<(ServiceId, ServiceReportView)>, name: Seq<char>)
    requires
        forall|j: int| 0 <= j < s.len() ==> (#[trigger] s[j]).1.workload_id.0@ != name,
    ensures
        !workload_entries(s).contains_key(name),
    decreases s.len(),
{
    if s.len() > 0 {
        let t = s.drop_last();
        assert forall|j: int| 0 <= j < t.len() implies (#[trigger] t[j]).1.workload_id.0@ != name by {
            assert(t[j] == s[j]);
        }
        assert(s[s.len() - 1] == s.last());
        lemma_unnamed(t, name);
    }
}

} // verus!
