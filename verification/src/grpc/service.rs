//! The client service: which command a request stands for, and how it is answered.
use vstd::prelude::*;

use crate::grpc::conversions::{convert_proto_spec, spec_has_gateway, spec_of, spec_view, SpecView};
use crate::grpc::proto;
use crate::grpc::reports::{
    convert_pod_report, convert_status_report, convert_worker_report, pod_info, report_of,
    report_view, worker_info, Report,
};
use crate::grpc::status::{
    code_of_message, event_to_error_status, invalid, Code, Status, StatusView,
};
use crate::ids::{NamespaceId, WorkerId, WorkloadId};
use crate::orchestrator::client::{exists_message, missing_message, ClientCommand};
use crate::output::{ClientEvent, NamespaceStatusReport, PodStatusReport, WorkerStatusReport};
use crate::scan::occurs;
use crate::text::{chars_of, number, parse_number};
use crate::types::NamespaceSpec;

verus! {

/// The client service over a handle to the orchestrator.
pub struct DistvirtClientService<H> {
    handle: H,
}

impl<H> DistvirtClientService<H> {
    /// The handle to the orchestrator.
    pub closed spec fn shell(&self) -> H {
        self.handle
    }

    pub fn new(handle: H) -> (r: Self)
        ensures
            r.shell() == handle,
    {
        DistvirtClientService { handle }
    }

    pub fn handle(&self) -> (r: &H)
        ensures
            *r == self.shell(),
    {
        &self.handle
    }
}

/// What a client asks.
pub enum Request {
    CreateNamespace { namespace_id: String, spec: Option<proto::NamespaceSpec> },
    UpdateNamespace { namespace_id: String, spec: Option<proto::NamespaceSpec> },
    DeleteNamespace { namespace_id: String },
    GetNamespaceStatus { namespace_id: String },
    ListNamespaces,
    Splice { namespace_id: String, workload_id: String, local_worker_id: String },
    Unsplice { namespace_id: String, workload_id: String },
    DeactivateWorkload { namespace_id: String, workload_id: String },
    CloneNamespace { source_namespace_id: String, target_namespace_id: String },
    ListWorkers,
    GetWorker { worker_id: String },
    ListPods { namespace_id: String },
    ConnectNetwork { namespace_id: String, client_public_key: Vec<u8> },
    DisconnectNetwork { namespace_id: String, client_public_key: Vec<u8> },
    WatchNamespaceStatus,
    StreamLogs { namespace_id: String, workload_id: Option<String> },
    StreamEvents,
}

/// What the service does for a request.
pub enum Errand {
    /// A command for the cluster.
    Command(ClientCommand),
    /// The client is to hear the output of a workload, or of all workloads of a namespace.
    Logs { namespace_id: NamespaceId, workload_id: Option<WorkloadId> },
}

/// The namespace of a request that has to carry one.
pub open spec fn requested(spec: Option<proto::NamespaceSpec>) -> Result<SpecView, StatusView> {
    match spec {
        None => Err(invalid("missing spec"@)),
        Some(s) => spec_of(s),
    }
}

/// The subnet that a request carries leaves an address for its gateway.
pub open spec fn answerable(request: Request) -> bool {
    match request {
        Request::CreateNamespace { spec, .. } => spec matches Some(s) ==> spec_has_gateway(s),
        Request::UpdateNamespace { spec, .. } => spec matches Some(s) ==> spec_has_gateway(s),
        _ => true,
    }
}

/// The namespace of a request that has to carry one.
pub fn read_spec(spec: &Option<proto::NamespaceSpec>) -> (r: Result<NamespaceSpec, Status>)
    requires
        *spec matches Some(s) ==> spec_has_gateway(s),
    ensures
        match r {
            Ok(v) => requested(*spec) == Ok::<SpecView, StatusView>(spec_view(v)),
            Err(e) => requested(*spec) == Err::<SpecView, StatusView>(e@),
        },
{
    match spec {
        None => Err(Status::new(Code::InvalidArgument, "missing spec")),
        Some(s) => convert_proto_spec(s),
    }
}

/// Takes a public key of 32 bytes.
pub fn read_public_key(bytes: &Vec<u8>) -> (r: Result<[u8; 32], Status>)
    ensures
        match r {
            Ok(key) => bytes@.len() == 32 && key@ == bytes@,
            Err(e) => bytes@.len() != 32 && e@ == invalid("client_public_key must be 32 bytes"@),
        },
{
    if bytes.len() != 32 {
        return Err(Status::new(Code::InvalidArgument, "client_public_key must be 32 bytes"));
    }
    let mut key: [u8; 32] = [0u8; 32];
    let mut i: usize = 0;
    while i < 32
        invariant
            i <= 32,
            bytes.len() == 32,
            forall|j: int| 0 <= j < i ==> key@[j] == bytes@[j],
        decreases 32 - i,
    {
        key[i] = bytes[i];
        i = i + 1;
    }
    proof {
        assert(key@ =~= bytes@);
    }
    Ok(key)
}

/// Reads the number of a worker.
pub fn read_worker_id(text: &str) -> (r: Result<u64, Status>)
    ensures
        match r {
            Ok(n) => number(text@, 10, u64::MAX as nat) == Some(n as nat),
            Err(e) => number(text@, 10, u64::MAX as nat) is None && e@ == invalid(
                "invalid worker_id"@,
            ),
        },
{
    let chars: Vec<char> = chars_of(text);
    proof {
        assert(chars@.subrange(0, chars.len() as int) =~= text@);
    }
    match parse_number(&chars, 0, chars.len(), 10, u64::MAX) {
        Some(n) => Ok(n),
        None => Err(Status::new(Code::InvalidArgument, "invalid worker_id")),
    }
}

/// The workload whose output a client asks for.
pub open spec fn workload_of(name: Option<String>) -> Option<WorkloadId> {
    match name {
        Some(n) => Some(WorkloadId(n)),
        None => None,
    }
}

/// `r` is the errand for the request, or the refusal of it.
pub open spec fn errands(request: Request, r: Result<Errand, Status>) -> bool {
    match request {
        Request::CreateNamespace { namespace_id, spec } => match requested(spec) {
            Ok(v) => r matches Ok(
                Errand::Command(ClientCommand::CreateNamespace { namespace_id: n, spec: s }),
            ) && n.0 == namespace_id && spec_view(s) == v,
            Err(e) => r matches Err(f) && f@ == e,
        },
        Request::UpdateNamespace { namespace_id, spec } => match requested(spec) {
            Ok(v) => r matches Ok(
                Errand::Command(ClientCommand::UpdateNamespace { namespace_id: n, spec: s }),
            ) && n.0 == namespace_id && spec_view(s) == v,
            Err(e) => r matches Err(f) && f@ == e,
        },
        Request::DeleteNamespace { namespace_id } => r matches Ok(
            Errand::Command(ClientCommand::DeleteNamespace { namespace_id: n }),
        ) && n.0 == namespace_id,
        Request::GetNamespaceStatus { namespace_id } => r matches Ok(
            Errand::Command(ClientCommand::GetNamespaceStatus { namespace_id: n }),
        ) && n.0 == namespace_id,
        Request::ListNamespaces => r matches Ok(Errand::Command(ClientCommand::ListNamespaces)),
        Request::Splice { namespace_id, workload_id, local_worker_id } => r matches Ok(
            Errand::Command(
                ClientCommand::Splice { namespace_id: n, workload_id: w, worker_id: k },
            ),
        ) && n.0 == namespace_id && w.0 == workload_id && k.0 == local_worker_id,
        Request::Unsplice { namespace_id, workload_id } => r matches Ok(
            Errand::Command(ClientCommand::Unsplice { namespace_id: n, workload_id: w }),
        ) && n.0 == namespace_id && w.0 == workload_id,
        Request::DeactivateWorkload { namespace_id, workload_id } => r matches Ok(
            Errand::Command(ClientCommand::DeactivateWorkload { namespace_id: n, workload_id: w }),
        ) && n.0 == namespace_id && w.0 == workload_id,
        Request::CloneNamespace { source_namespace_id, target_namespace_id } => r matches Ok(
            Errand::Command(
                ClientCommand::CloneNamespace { source_namespace_id: s, target_namespace_id: t },
            ),
        ) && s.0 == source_namespace_id && t.0 == target_namespace_id,
        Request::ListWorkers => r matches Ok(Errand::Command(ClientCommand::ListWorkers)),
        Request::GetWorker { worker_id } => r matches Ok(
            Errand::Command(ClientCommand::GetWorker { worker_id: w }),
        ) && w.0 == worker_id,
        Request::ListPods { namespace_id } => r matches Ok(
            Errand::Command(ClientCommand::ListPods { namespace_id: n }),
        ) && n.0 == namespace_id,
        Request::ConnectNetwork { namespace_id, client_public_key } => if client_public_key@.len()
            == 32 {
            r matches Ok(
                Errand::Command(ClientCommand::Connect { namespace_id: n, client_public_key: k }),
            ) && n.0
                == namespace_id && k@ == client_public_key@
        } else {
            r matches Err(f) && f@ == invalid("client_public_key must be 32 bytes"@)
        },
        Request::DisconnectNetwork { namespace_id, client_public_key } => {
            if client_public_key@.len() == 32 {
                r matches Ok(
                    Errand::Command(ClientCommand::Disconnect { namespace_id: n, client_public_key: k }),
                )
                    && n.0 == namespace_id && k@ == client_public_key@
            } else {
                r matches Err(f) && f@ == invalid("client_public_key must be 32 bytes"@)
            }
        },
        Request::WatchNamespaceStatus => r matches Err(f) && f@ == (StatusView {
            code: Code::Unimplemented,
            message: "WatchNamespaceStatus not yet implemented"@,
        }),
        Request::StreamLogs { namespace_id, workload_id } => r matches Ok(
            Errand::Logs { namespace_id: n, workload_id: w },
        ) && n.0 == namespace_id && w == workload_of(workload_id),
        Request::StreamEvents => r matches Err(f) && f@ == (StatusView {
            code: Code::Unimplemented,
            message: "StreamEvents not yet implemented"@,
        }),
    }
}

/// What the service does for a request.
pub fn errand_of(request: Request) -> (r: Result<Errand, Status>)
    requires
        answerable(request),
    ensures
        errands(request, r),
{
    match request {
        Request::CreateNamespace { namespace_id, spec } => match read_spec(&spec) {
            Err(e) => Err(e),
            Ok(spec) => Ok(
                Errand::Command(
                    ClientCommand::CreateNamespace { namespace_id: NamespaceId(namespace_id), spec },
                ),
            ),
        },
        Request::UpdateNamespace { namespace_id, spec } => match read_spec(&spec) {
            Err(e) => Err(e),
            Ok(spec) => Ok(
                Errand::Command(
                    ClientCommand::UpdateNamespace { namespace_id: NamespaceId(namespace_id), spec },
                ),
            ),
        },
        Request::DeleteNamespace { namespace_id } => Ok(
            Errand::Command(
                ClientCommand::DeleteNamespace { namespace_id: NamespaceId(namespace_id) },
            ),
        ),
        Request::GetNamespaceStatus { namespace_id } => Ok(
            Errand::Command(
                ClientCommand::GetNamespaceStatus { namespace_id: NamespaceId(namespace_id) },
            ),
        ),
        Request::ListNamespaces => Ok(Errand::Command(ClientCommand::ListNamespaces)),
        Request::Splice { namespace_id, workload_id, local_worker_id } => Ok(
            Errand::Command(
                ClientCommand::Splice {
                    namespace_id: NamespaceId(namespace_id),
                    workload_id: WorkloadId(workload_id),
                    worker_id: WorkerId(local_worker_id),
                },
            ),
        ),
        Request::Unsplice { namespace_id, workload_id } => Ok(
            Errand::Command(
                ClientCommand::Unsplice {
                    namespace_id: NamespaceId(namespace_id),
                    workload_id: WorkloadId(workload_id),
                },
            ),
        ),
        Request::DeactivateWorkload { namespace_id, workload_id } => Ok(
            Errand::Command(
                ClientCommand::DeactivateWorkload {
                    namespace_id: NamespaceId(namespace_id),
                    workload_id: WorkloadId(workload_id),
                },
            ),
        ),
        Request::CloneNamespace { source_namespace_id, target_namespace_id } => Ok(
            Errand::Command(
                ClientCommand::CloneNamespace {
                    source_namespace_id: NamespaceId(source_namespace_id),
                    target_namespace_id: NamespaceId(target_namespace_id),
                },
            ),
        ),
        Request::ListWorkers => Ok(Errand::Command(ClientCommand::ListWorkers)),
        Request::GetWorker { worker_id } => Ok(
            Errand::Command(ClientCommand::GetWorker { worker_id: WorkerId(worker_id) }),
        ),
        Request::ListPods { namespace_id } => Ok(
            Errand::Command(ClientCommand::ListPods { namespace_id: NamespaceId(namespace_id) }),
        ),
        Request::ConnectNetwork { namespace_id, client_public_key } => match read_public_key(
            &client_public_key,
        ) {
            Err(e) => Err(e),
            Ok(key) => Ok(
                Errand::Command(
                    ClientCommand::Connect {
                        namespace_id: NamespaceId(namespace_id),
                        client_public_key: key,
                    },
                ),
            ),
        },
        Request::DisconnectNetwork { namespace_id, client_public_key } => match read_public_key(
            &client_public_key,
        ) {
            Err(e) => Err(e),
            Ok(key) => Ok(
                Errand::Command(
                    ClientCommand::Disconnect {
                        namespace_id: NamespaceId(namespace_id),
                        client_public_key: key,
                    },
                ),
            ),
        },
        Request::WatchNamespaceStatus => Err(
            Status::new(Code::Unimplemented, "WatchNamespaceStatus not yet implemented"),
        ),
        Request::StreamLogs { namespace_id, workload_id } => Ok(
            Errand::Logs {
                namespace_id: NamespaceId(namespace_id),
                workload_id: match workload_id {
                    Some(name) => Some(WorkloadId(name)),
                    None => None,
                },
            },
        ),
        Request::StreamEvents => Err(
            Status::new(Code::Unimplemented, "StreamEvents not yet implemented"),
        ),
    }
}

/// What kind of answer a request waits for.
#[derive(Debug, Clone, Copy, PartialEq, Eq, Structural)]
pub enum Expected {
    Done,
    NamespaceStatus,
    Namespaces,
    Workers,
    Worker,
    Pods,
    Connection,
    Deactivation,
    /// Messages as they come, and no single answer.
    Stream,
}

/// What kind of answer a request waits for.
pub open spec fn awaited(request: Request) -> Expected {
    match request {
        Request::CreateNamespace { .. } => Expected::Done,
        Request::UpdateNamespace { .. } => Expected::Done,
        Request::DeleteNamespace { .. } => Expected::Done,
        Request::GetNamespaceStatus { .. } => Expected::NamespaceStatus,
        Request::ListNamespaces => Expected::Namespaces,
        Request::Splice { .. } => Expected::Done,
        Request::Unsplice { .. } => Expected::Done,
        Request::DeactivateWorkload { .. } => Expected::Deactivation,
        Request::CloneNamespace { .. } => Expected::Done,
        Request::ListWorkers => Expected::Workers,
        Request::GetWorker { .. } => Expected::Worker,
        Request::ListPods { .. } => Expected::Pods,
        Request::ConnectNetwork { .. } => Expected::Connection,
        Request::DisconnectNetwork { .. } => Expected::Done,
        Request::WatchNamespaceStatus => Expected::Stream,
        Request::StreamLogs { .. } => Expected::Stream,
        Request::StreamEvents => Expected::Stream,
    }
}

/// What kind of answer a request waits for.
pub fn expected_of(request: &Request) -> (r: Expected)
    ensures
        r == awaited(*request),
{
    match request {
        Request::CreateNamespace { .. } => Expected::Done,
        Request::UpdateNamespace { .. } => Expected::Done,
        Request::DeleteNamespace { .. } => Expected::Done,
        Request::GetNamespaceStatus { .. } => Expected::NamespaceStatus,
        Request::ListNamespaces => Expected::Namespaces,
        Request::Splice { .. } => Expected::Done,
        Request::Unsplice { .. } => Expected::Done,
        Request::DeactivateWorkload { .. } => Expected::Deactivation,
        Request::CloneNamespace { .. } => Expected::Done,
        Request::ListWorkers => Expected::Workers,
        Request::GetWorker { .. } => Expected::Worker,
        Request::ListPods { .. } => Expected::Pods,
        Request::ConnectNetwork { .. } => Expected::Connection,
        Request::DisconnectNetwork { .. } => Expected::Done,
        Request::WatchNamespaceStatus => Expected::Stream,
        Request::StreamLogs { .. } => Expected::Stream,
        Request::StreamEvents => Expected::Stream,
    }
}

/// A piece of a workload's output as clients see it, with the time at which it is passed on.
pub fn convert_log_chunk(workload_id: WorkloadId, data: Vec<u8>, now_ms: i64) -> (r:
    proto::LogChunk)
    ensures
        r == (proto::LogChunk { workload_id: workload_id.0, data, timestamp_unix_ms: now_ms }),
{
    proto::LogChunk { workload_id: workload_id.0, data, timestamp_unix_ms: now_ms }
}

/// What a client is answered.
pub enum Reply {
    Done,
    NamespaceStatus(proto::NamespaceStatusReport),
    Namespaces(Vec<proto::NamespaceStatusReport>),
    Workers(Vec<proto::WorkerInfo>),
    Worker(proto::WorkerInfo),
    Pods(Vec<proto::PodInfo>),
    Connection(proto::ConnectNetworkResponse),
    Deactivation(proto::DeactivateWorkloadResponse),
}

/// An answer with its lists and composed texts as sequences.
#[verifier::ext_equal]
pub enum ReplyView {
    Done,
    NamespaceStatus(Report),
    Namespaces(Seq<Report>),
    Workers(Seq<proto::WorkerInfo>),
    Worker(proto::WorkerInfo),
    Pods(Seq<proto::PodInfo>),
    Connection { server_public_key: Seq<u8>, endpoint: String, client_ip: String, subnet: String },
    Deactivation(proto::DeactivateWorkloadResponse),
}

pub open spec fn reply_view(r: Reply) -> ReplyView {
    match r {
        Reply::Done => ReplyView::Done,
        Reply::NamespaceStatus(s) => ReplyView::NamespaceStatus(report_view(s)),
        Reply::Namespaces(v) => ReplyView::Namespaces(
            v@.map_values(|s: proto::NamespaceStatusReport| report_view(s)),
        ),
        Reply::Workers(v) => ReplyView::Workers(v@),
        Reply::Worker(w) => ReplyView::Worker(w),
        Reply::Pods(v) => ReplyView::Pods(v@),
        Reply::Connection(c) => ReplyView::Connection {
            server_public_key: c.server_public_key@,
            endpoint: c.endpoint,
            client_ip: c.client_ip,
            subnet: c.subnet,
        },
        Reply::Deactivation(d) => ReplyView::Deactivation(d),
    }
}

/// What a client that waits for `expected` is answered when the orchestrator says `event`.
pub open spec fn reply_for(expected: Expected, event: ClientEvent) -> Result<ReplyView, StatusView> {
    match (expected, event) {
        (Expected::Done, ClientEvent::Done) => Ok(ReplyView::Done),
        (Expected::NamespaceStatus, ClientEvent::NamespaceStatus { namespace_id, status }) => Ok(
            ReplyView::NamespaceStatus(report_of(status@)),
        ),
        (Expected::Namespaces, ClientEvent::NamespaceList { namespaces }) => Ok(
            ReplyView::Namespaces(
                namespaces@.map_values(|n: NamespaceStatusReport| report_of(n@)),
            ),
        ),
        (Expected::Workers, ClientEvent::WorkerList { workers }) => Ok(
            ReplyView::Workers(workers@.map_values(|w: WorkerStatusReport| worker_info(w))),
        ),
        (Expected::Worker, ClientEvent::WorkerStatus { worker }) => Ok(
            ReplyView::Worker(worker_info(worker)),
        ),
        (Expected::Pods, ClientEvent::PodList { pods }) => Ok(
            ReplyView::Pods(pods@.map_values(|p: PodStatusReport| pod_info(p))),
        ),
        (
            Expected::Connection,
            ClientEvent::ConnectResult { server_public_key, endpoint, client_ip, subnet },
        ) => Ok(
            ReplyView::Connection {
                server_public_key: server_public_key@,
                endpoint,
                client_ip,
                subnet,
            },
        ),
        (
            Expected::Deactivation,
            ClientEvent::DeactivateWorkloadResult { deactivated, reason },
        ) => Ok(
            ReplyView::Deactivation(proto::DeactivateWorkloadResponse { deactivated, reason }),
        ),
        (_, ClientEvent::Error { message }) => Err(
            StatusView { code: code_of_message(message@), message: message@ },
        ),
        _ => Err(
            StatusView {
                code: Code::Internal,
                message: "unexpected response from orchestrator"@,
            },
        ),
    }
}

fn convert_reports(list: &Vec<NamespaceStatusReport>) -> (r: Vec<proto::NamespaceStatusReport>)
    ensures
        r@.map_values(|s: proto::NamespaceStatusReport| report_view(s)) == list@.map_values(
            |n: NamespaceStatusReport| report_of(n@),
        ),
{
    let mut r: Vec<proto::NamespaceStatusReport> = Vec::new();
    let mut i: usize = 0;
    while i < list.len()
        invariant
            i <= list.len(),
            r.len() == i,
            forall|j: int| 0 <= j < i ==> report_view(#[trigger] r@[j]) == report_of(list@[j]@),
        decreases list.len() - i,
    {
        r.push(convert_status_report(&list[i]));
        i = i + 1;
    }
    proof {
        assert(r@.map_values(|s: proto::NamespaceStatusReport| report_view(s)) =~= list@.map_values(
            |n: NamespaceStatusReport| report_of(n@),
        ));
    }
    r
}

fn convert_workers(list: &Vec<WorkerStatusReport>) -> (r: Vec<proto::WorkerInfo>)
    ensures
        r@ == list@.map_values(|w: WorkerStatusReport| worker_info(w)),
{
    let mut r: Vec<proto::WorkerInfo> = Vec::new();
    let mut i: usize = 0;
    while i < list.len()
        invariant
            i <= list.len(),
            r.len() == i,
            forall|j: int| 0 <= j < i ==> #[trigger] r@[j] == worker_info(list@[j]),
        decreases list.len() - i,
    {
        r.push(convert_worker_report(&list[i]));
        i = i + 1;
    }
    r
}

fn convert_pods(list: &Vec<PodStatusReport>) -> (r: Vec<proto::PodInfo>)
    ensures
        r@ == list@.map_values(|p: PodStatusReport| pod_info(p)),
{
    let mut r: Vec<proto::PodInfo> = Vec::new();
    let mut i: usize = 0;
    while i < list.len()
        invariant
            i <= list.len(),
            r.len() == i,
            forall|j: int| 0 <= j < i ==> #[trigger] r@[j] == pod_info(list@[j]),
        decreases list.len() - i,
    {
        r.push(convert_pod_report(&list[i]));
        i = i + 1;
    }
    r
}

fn key_bytes(key: &[u8; 32]) -> (r: Vec<u8>)
    ensures
        r@ == key@,
{
    let mut r: Vec<u8> = Vec::new();
    let mut i: usize = 0;
    while i < 32
        invariant
            i <= 32,
            r@ == key@.take(i as int),
        decreases 32 - i,
    {
        r.push(key[i]);
        proof {
            assert(key@.take(i + 1) =~= key@.take(i as int).push(key@[i as int]));
        }
        i = i + 1;
    }
    proof {
        assert(key@.take(32) =~= key@);
    }
    r
}

/// Answers a client that waits for `expected` when the orchestrator says `event`.
pub fn reply_to(expected: Expected, event: ClientEvent) -> (r: Result<Reply, Status>)
    ensures
        match r {
            Ok(v) => reply_for(expected, event) == Ok::<ReplyView, StatusView>(reply_view(v)),
            Err(e) => reply_for(expected, event) == Err::<ReplyView, StatusView>(e@),
        },
{
    match (expected, event) {
        (Expected::Done, ClientEvent::Done) => Ok(Reply::Done),
        (Expected::NamespaceStatus, ClientEvent::NamespaceStatus { namespace_id: _, status }) => Ok(
            Reply::NamespaceStatus(convert_status_report(&status)),
        ),
        (Expected::Namespaces, ClientEvent::NamespaceList { namespaces }) => Ok(
            Reply::Namespaces(convert_reports(&namespaces)),
        ),
        (Expected::Workers, ClientEvent::WorkerList { workers }) => Ok(
            Reply::Workers(convert_workers(&workers)),
        ),
        (Expected::Worker, ClientEvent::WorkerStatus { worker }) => Ok(
            Reply::Worker(convert_worker_report(&worker)),
        ),
        (Expected::Pods, ClientEvent::PodList { pods }) => Ok(Reply::Pods(convert_pods(&pods))),
        (
            Expected::Connection,
            ClientEvent::ConnectResult { server_public_key, endpoint, client_ip, subnet },
        ) => Ok(
            Reply::Connection(
                proto::ConnectNetworkResponse {
                    server_public_key: key_bytes(&server_public_key),
                    endpoint,
                    client_ip,
                    subnet,
                },
            ),
        ),
        (
            Expected::Deactivation,
            ClientEvent::DeactivateWorkloadResult { deactivated, reason },
        ) => Ok(
            Reply::Deactivation(proto::DeactivateWorkloadResponse { deactivated, reason }),
        ),
        (_, ClientEvent::Error { message }) => Err(event_to_error_status(message)),
        _ => Err(Status::new(Code::Internal, "unexpected response from orchestrator")),
    }
}

/// A refusal by the orchestrator reaches the client in its own words, whatever it waits for.
pub proof fn law_refusals_reach_the_client(expected: Expected, message: String)
    ensures
        reply_for(expected, ClientEvent::Error { message }) == Err::<ReplyView, StatusView>(
            StatusView { code: code_of_message(message@), message: message@ },
        ),
{
}

/// What the orchestrator does not find is refused as not found.
pub proof fn law_missing_is_not_found(kind: Seq<char>, name: Seq<char>)
    ensures
        code_of_message(missing_message(kind, name)) == Code::NotFound,
{
    reveal_strlit("not found");
    reveal_strlit("' not found");
    let m = missing_message(kind, name);
    let at = m.len() - 9;
    assert(m.subrange(at, at + "not found"@.len()) =~= "not found"@);
}

/// A namespace that exists already is refused as such, unless its name speaks of things not found.
pub proof fn law_existing_is_refused(name: Seq<char>)
    requires
        !occurs("not found"@, exists_message(name)),
    ensures
        code_of_message(exists_message(name)) == Code::AlreadyExists,
{
    reveal_strlit("already exists");
    reveal_strlit(" already exists");
    let m = exists_message(name);
    let at = m.len() - 14;
    assert(m.subrange(at, at + "already exists"@.len()) =~= "already exists"@);
}

} // verus!
