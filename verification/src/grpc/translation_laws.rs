//! What clients write is what the orchestrator gets, and what it says is what clients read.
use vstd::prelude::*;

use crate::engine::types::ClientError;
use crate::grpc::calls::{calls, Call};
use crate::grpc::conversions::{
    container_of, each_of, mac_byte, mac_of_ip, mac_of_text, named_of, network_of, service_of,
    spec_of, spec_view, user_of, workload_of, ActivatorView, ContainerView, ServiceView, SpecView,
    WorkloadView,
};
use crate::grpc::proto;
use crate::grpc::reports::{
    happening, report_of, service_entries, service_entry, workload_entry, ServiceStateView,
    WorkloadStateView,
};
use crate::grpc::service::{awaited, errands, reply_for, Errand, Expected, ReplyView, Request};
use crate::grpc::status::{code_of_error, code_of_message, Code, Status, StatusView};
use crate::ids::{ServiceId, WorkloadId};
use crate::orchestrator::client::ClientCommand;
use crate::output::{
    ClientEvent, PodStatus, ReportView, ServiceReportView, SmNamespaceEvent, SmServiceEvent,
    SmWorkloadEvent,
};
use crate::scan::{
    address, law_address_reads_back, law_number_reads_back, lemma_decimal_reads_back,
    lemma_split_joined, lemma_split_plain, occurs, split,
};
use crate::service::ServiceDeactivationReason;
use crate::sorted_map::lemma_contains_either;
use crate::text::{decimal, digit_value, dotted, number};
use crate::types::{BackendNeed, NamespaceStatus, NetworkConfig};

verus! {

// ---- specs --------------------------------------------------------------------------------------

proof fn lemma_no_slash(n: nat)
    ensures
        !decimal(n).contains('/'),
{
    lemma_decimal_reads_back(n);
    let s = decimal(n);
    if s.contains('/') {
        let i = s.index_of('/');
        assert(digit_value(s[i], 10) is Some);
    }
}

proof fn lemma_dotted_no_slash(ip: u32)
    ensures
        !dotted(ip).contains('/'),
{
    let n = ip as nat;
    let (a, b, c, d) = (
        decimal(n / 0x100_0000),
        decimal(n / 0x1_0000 % 0x100),
        decimal(n / 0x100 % 0x100),
        decimal(n % 0x100),
    );
    lemma_no_slash(n / 0x100_0000);
    lemma_no_slash(n / 0x1_0000 % 0x100);
    lemma_no_slash(n / 0x100 % 0x100);
    lemma_no_slash(n % 0x100);
    reveal_strlit(".");
    let dot = "."@;
    assert(!dot.contains('/')) by {
        assert(dot.len() == 1 && dot[0] == '.');
    }
    lemma_contains_either(a, dot, '/');
    lemma_contains_either(a + dot, b, '/');
    lemma_contains_either(a + dot + b, dot, '/');
    lemma_contains_either(a + dot + b + dot, c, '/');
    lemma_contains_either(a + dot + b + dot + c, dot, '/');
    lemma_contains_either(a + dot + b + dot + c + dot, d, '/');
}

/// A subnet that is written as an address, a slash and a number of bits is read as that network: its
/// gateway is the first address after that of the subnet.
pub proof fn law_subnet_is_read(ip: u32, bits: u8)
    requires
        ip < u32::MAX,
    ensures
        network_of(dotted(ip) + "/"@ + decimal(bits as nat)) == Ok::<NetworkConfig, StatusView>(
            NetworkConfig {
                subnet: ip,
                gateway: (ip + 1) as u32,
                prefix_len: bits,
                segment_id: None,
            },
        ),
{
    let (a, b) = (dotted(ip), decimal(bits as nat));
    let s = a + "/"@ + b;
    lemma_dotted_no_slash(ip);
    lemma_no_slash(bits as nat);
    lemma_split_plain(a, '/');
    lemma_split_plain(b, '/');
    lemma_split_joined(a, b, '/');
    reveal_strlit("/");
    assert("/"@ =~= seq!['/']);
    assert(s =~= a.push('/') + b);
    let parts = split(s, '/');
    assert(parts =~= seq![a, b]);
    assert(parts[0] == a && parts[1] == b);
    law_address_reads_back(ip);
    law_number_reads_back(bits as nat, 255);
}

/// What a container is made into: its name, its image, its commands and its surroundings are those
/// that the client wrote. A text that is empty counts as not written.
pub proof fn law_container_is_taken_over(c: proto::ContainerSpec, r: ContainerView, i: int)
    requires
        container_of(c) == Ok::<ContainerView, StatusView>(r),
    ensures
        r.container_id == c.name,
        r.image_ref == c.image,
        r.capture_output,
        !r.stdin,
        c.config is None ==> r.entrypoint.len() == 0 && r.args.len() == 0 && r.env.len() == 0
            && r.uid is None && r.gid is None && r.working_dir is None && r.hostname is None,
        c.config matches Some(config) ==> {
            &&& r.entrypoint == config.entrypoint@
            &&& r.args == config.args@
            &&& r.env.len() == config.env@.len()
            &&& 0 <= i < config.env@.len() ==> r.env[i] == config.env@[i].0@ + "="@
                + config.env@[i].1@
            &&& config.working_dir@.len() > 0 ==> r.working_dir == Some(config.working_dir)
            &&& config.working_dir@.len() == 0 ==> r.working_dir is None
            &&& config.hostname@.len() > 0 ==> r.hostname == Some(config.hostname)
            &&& config.hostname@.len() == 0 ==> r.hostname is None
            &&& config.user@.len() == 0 ==> r.uid is None && r.gid is None
            &&& config.user@.len() > 0 ==> user_of(config.user@) == Ok::<
                (Option<u32>, Option<u32>),
                StatusView,
            >((r.uid, r.gid))
        },
{
}

/// A user that is written as a number is that user. One that is written as two numbers with a colon
/// between them is that user and that group.
pub proof fn law_user_is_read(uid: u32, gid: u32)
    ensures
        user_of(decimal(uid as nat)) == Ok::<(Option<u32>, Option<u32>), StatusView>(
            (Some(uid), None),
        ),
        user_of(decimal(uid as nat) + ":"@ + decimal(gid as nat)) == Ok::<
            (Option<u32>, Option<u32>),
            StatusView,
        >((Some(uid), Some(gid))),
{
    let (a, b) = (decimal(uid as nat), decimal(gid as nat));
    lemma_decimal_reads_back(uid as nat);
    lemma_decimal_reads_back(gid as nat);
    law_number_reads_back(uid as nat, 0xffff_ffff);
    law_number_reads_back(gid as nat, 0xffff_ffff);
    assert(!a.contains(':')) by {
        if a.contains(':') {
            let i = a.index_of(':');
            assert(digit_value(a[i], 10) is Some);
        }
    }
    a.index_of_first_ensures(':');
    reveal_strlit(":");
    let s = a + ":"@ + b;
    s.index_of_first_ensures(':');
    assert(s[a.len() as int] == ':');
    assert(s.contains(':'));
    let i = s.index_of_first(':')->0;
    if i < a.len() {
        assert(s[i] == a[i]);
        assert(a.contains(':'));
    }
    assert(i == a.len());
    assert(s.take(i) =~= a);
    assert(s.skip(i + 1) =~= b);
}

/// Each of a list is made into something, in order, or there is a refusal.
pub proof fn law_each_is_made<T, U>(
    s: Seq<T>,
    make: spec_fn(T) -> Result<U, StatusView>,
    r: Seq<U>,
    i: int,
)
    requires
        each_of(s, make) == Ok::<Seq<U>, StatusView>(r),
    ensures
        r.len() == s.len(),
        0 <= i < s.len() ==> make(s[i]) == Ok::<U, StatusView>(r[i]),
    decreases s.len(),
{
    if s.len() > 0 {
        let front = s.drop_last();
        match each_of(front, make) {
            Ok(head) => {
                law_each_is_made(front, make, head, i);
                if 0 <= i < front.len() {
                    assert(front[i] == s[i]);
                }
            },
            Err(_) => {},
        }
    }
}

/// Each of a list of named things is made into something under its name, unless the name comes
/// again later. There is nothing under any other name.
pub proof fn law_each_name_is_made<T, U>(
    s: Seq<(String, T)>,
    make: spec_fn(T) -> Result<U, StatusView>,
    r: Map<Seq<char>, U>,
    i: int,
    name: Seq<char>,
)
    requires
        named_of(s, make) == Ok::<Map<Seq<char>, U>, StatusView>(r),
    ensures
        r.contains_key(name) <==> exists|k: int| 0 <= k < s.len() && (#[trigger] s[k]).0@ == name,
        0 <= i < s.len() && s[i].0@ == name && (forall|k: int|
            i < k < s.len() ==> (#[trigger] s[k]).0@ != name) ==> make(s[i].1) == Ok::<
            U,
            StatusView,
        >(r[name]),
    decreases s.len(),
{
    if s.len() > 0 {
        let front = s.drop_last();
        let last = s.len() - 1;
        assert(s[last] == s.last());
        match named_of(front, make) {
            Ok(m) => {
                law_each_name_is_made(front, make, m, i, name);
                if m.contains_key(name) {
                    let k = choose|k: int| 0 <= k < front.len() && (#[trigger] front[k]).0@ == name;
                    assert(s[k] == front[k]);
                }
                if exists|k: int| 0 <= k < s.len() && (#[trigger] s[k]).0@ == name {
                    let k = choose|k: int| 0 <= k < s.len() && (#[trigger] s[k]).0@ == name;
                    if k < last {
                        assert(front[k] == s[k]);
                    }
                }
                if 0 <= i < last && s[i].0@ == name && (forall|k: int|
                    i < k < s.len() ==> (#[trigger] s[k]).0@ != name) {
                    assert(front[i] == s[i]);
                    assert(s[last].0@ != name);
                    assert forall|k: int| i < k < front.len() implies (#[trigger] front[k]).0@
                        != name by {
                        assert(s[k].0@ != name);
                    }
                }
            },
            Err(_) => {},
        }
    }
}

/// A hardware address is locally administered and holds the address that it is made from.
pub proof fn law_hardware_address_holds_address(ip: u32)
    ensures
        mac_of_ip(ip).len() == 6,
        mac_of_ip(ip)[0] == 2,
        mac_of_ip(ip)[1] == 0,
        mac_of_ip(ip)[2] * 0x100_0000 + mac_of_ip(ip)[3] * 0x1_0000 + mac_of_ip(ip)[4] * 0x100
            + mac_of_ip(ip)[5] == ip,
{
    let m = mac_of_ip(ip);
    assert(m[2] == ip / 0x100_0000);
    assert(m[3] == ip / 0x1_0000 % 0x100);
    assert(m[4] == ip / 0x100 % 0x100);
    assert(m[5] == ip % 0x100);
}

/// What a workload is made into: it has the address that the client wrote, a hardware address that
/// holds this address, the containers in their order, and the rest as it was written. Without an
/// address there is no workload.
pub proof fn law_workload_is_taken_over(w: proto::WorkloadSpec, i: int)
    ensures
        w.network is None ==> workload_of(w) is Err,
        w.network matches Some(n) && address(n.ip@) is None ==> workload_of(w) is Err,
        workload_of(w) matches Ok(r) ==> {
            &&& w.network matches Some(n) && address(n.ip@) == Some(r.ip)
            &&& r.mac == mac_of_ip(r.ip)
            &&& r.suspend_on_idle == w.suspend_on_idle
            &&& r.resources == w.resources
            &&& r.containers.len() == w.containers@.len()
            &&& 0 <= i < w.containers@.len() ==> container_of(w.containers@[i]) == Ok::<
                ContainerView,
                StatusView,
            >(r.containers[i])
        },
{
    if let Ok(r) = workload_of(w) {
        law_each_is_made(
            w.containers@,
            |c: proto::ContainerSpec| container_of(c),
            r.containers,
            i,
        );
    }
}

/// What a service is made into: it serves the workload and has the address that the client wrote. It
/// can be woken exactly if the client wrote how, and then it sleeps after the time that the client
/// wrote and holds traffic back while it wakes.
pub proof fn law_service_is_taken_over(s: proto::ServiceSpec, i: int)
    ensures
        s.network is None ==> service_of(s) is Err,
        s.network matches Some(n) ==> (service_of(s) is Ok <==> address(n.ip@) is Some),
        service_of(s) matches Ok(r) ==> {
            &&& s.network matches Some(n) && address(n.ip@) == Some(r.ip)
            &&& r.workload_id == s.workload_id@
            &&& s.activation matches Some(act) ==> {
                &&& r.activation matches Some(a) && a.idle_timeout_ms == act.idle_timeout_ms
                &&& r.buffer_frames == 64
                &&& r.timeout_ms == 5000
                &&& act.activator matches Some(c) ==> (c.activator matches Some(
                    proto::Activator::Tcp { ports },
                ) ==> (r.activator matches Some(
                    ActivatorView::Tcp { ports: p, tcp_only, max_flows },
                ) && !tcp_only && max_flows == 1024 && (ports@.len() == 0 ==> p is None) && (
                ports@.len() > 0 ==> p is Some && p.unwrap().len() == ports@.len() && (0 <= i
                    < ports@.len() && ports@[i] < 0x1_0000 ==> p.unwrap()[i] == ports@[i]))))
                &&& act.activator matches Some(c) ==> (c.activator == Some(proto::Activator::Http2)
                    ==> r.activator == Some(ActivatorView::Http2))
                &&& act.activator is None ==> r.activator is None
            }
            &&& s.activation is None ==> r.activation is None && r.activator is None
                && r.buffer_frames == 0 && r.timeout_ms == 0
        },
{
}

/// What a namespace is made into: the network of its subnet, and each workload and each service
/// under its name. What is wrong in one of them is refused for the whole.
pub proof fn law_spec_is_taken_over(
    spec: proto::NamespaceSpec,
    r: SpecView,
    i: int,
    k: int,
)
    requires
        spec_of(spec) == Ok::<SpecView, StatusView>(r),
        0 <= i < spec.workloads@.len() ==> forall|j: int|
            i < j < spec.workloads@.len() ==> (#[trigger] spec.workloads@[j]).0@
                != spec.workloads@[i].0@,
        0 <= k < spec.services@.len() ==> forall|j: int|
            k < j < spec.services@.len() ==> (#[trigger] spec.services@[j]).0@
                != spec.services@[k].0@,
    ensures
        spec.network matches Some(n) && network_of(n.subnet@) == Ok::<NetworkConfig, StatusView>(
            r.network,
        ),
        0 <= i < spec.workloads@.len() ==> r.workloads.contains_key(spec.workloads@[i].0@)
            && workload_of(spec.workloads@[i].1) == Ok::<WorkloadView, StatusView>(
            r.workloads[spec.workloads@[i].0@],
        ),
        0 <= k < spec.services@.len() ==> r.services.contains_key(spec.services@[k].0@)
            && service_of(spec.services@[k].1) == Ok::<ServiceView, StatusView>(
            r.services[spec.services@[k].0@],
        ),
{
    if 0 <= i < spec.workloads@.len() {
        law_each_name_is_made(
            spec.workloads@,
            |w: proto::WorkloadSpec| workload_of(w),
            r.workloads,
            i,
            spec.workloads@[i].0@,
        );
    }
    if 0 <= k < spec.services@.len() {
        law_each_name_is_made(
            spec.services@,
            |w: proto::ServiceSpec| service_of(w),
            r.services,
            k,
            spec.services@[k].0@,
        );
    }
}

// ---- requests -----------------------------------------------------------------------------------

/// A request on a namespace becomes the command of its kind on that namespace, and waits for the
/// answer of its kind.
pub proof fn law_requests_become_commands(request: Request, r: Result<Errand, Status>)
    requires
        errands(request, r),
    ensures
        request matches Request::DeleteNamespace { namespace_id } ==> (r matches Ok(
            Errand::Command(ClientCommand::DeleteNamespace { namespace_id: n }),
        ) && n.0 == namespace_id) && awaited(request) == Expected::Done,
        request matches Request::GetNamespaceStatus { namespace_id } ==> (r matches Ok(
            Errand::Command(ClientCommand::GetNamespaceStatus { namespace_id: n }),
        ) && n.0 == namespace_id) && awaited(request) == Expected::NamespaceStatus,
        request is ListNamespaces ==> (r matches Ok(
            Errand::Command(ClientCommand::ListNamespaces),
        )) && awaited(request) == Expected::Namespaces,
        request matches Request::DeactivateWorkload { namespace_id, workload_id } ==> (r matches Ok(
            Errand::Command(ClientCommand::DeactivateWorkload { namespace_id: n, workload_id: w }),
        ) && n.0 == namespace_id && w.0 == workload_id) && awaited(request)
            == Expected::Deactivation,
        request is ListWorkers ==> (r matches Ok(Errand::Command(ClientCommand::ListWorkers)))
            && awaited(request) == Expected::Workers,
        request matches Request::GetWorker { worker_id } ==> (r matches Ok(
            Errand::Command(ClientCommand::GetWorker { worker_id: w }),
        ) && w.0 == worker_id) && awaited(request) == Expected::Worker,
        request matches Request::ListPods { namespace_id } ==> (r matches Ok(
            Errand::Command(ClientCommand::ListPods { namespace_id: n }),
        ) && n.0 == namespace_id) && awaited(request) == Expected::Pods,
        request matches Request::ConnectNetwork { namespace_id, client_public_key } ==> {
            &&& client_public_key@.len() == 32 <==> r is Ok
            &&& r matches Ok(errand) ==> (errand matches Errand::Command(
                ClientCommand::Connect { namespace_id: n, client_public_key: k },
            ) && n.0 == namespace_id && k@ == client_public_key@)
            &&& r matches Err(e) ==> e@.code == Code::InvalidArgument
            &&& awaited(request) == Expected::Connection
        },
        request matches Request::DisconnectNetwork { namespace_id, client_public_key } ==> {
            &&& client_public_key@.len() == 32 <==> r is Ok
            &&& r matches Ok(errand) ==> (errand matches Errand::Command(
                ClientCommand::Disconnect { namespace_id: n, client_public_key: k },
            ) && n.0 == namespace_id && k@ == client_public_key@)
            &&& awaited(request) == Expected::Done
        },
        request matches Request::CreateNamespace { namespace_id, spec } ==> {
            &&& spec is None ==> (r matches Err(e) && e@.code == Code::InvalidArgument)
            &&& spec matches Some(s) ==> (spec_of(s) is Ok <==> r is Ok)
            &&& r matches Ok(errand) ==> (errand matches Errand::Command(
                ClientCommand::CreateNamespace { namespace_id: n, spec: made },
            ) && n.0 == namespace_id && spec is Some && spec_of(spec.unwrap()) == Ok::<
                SpecView,
                StatusView,
            >(spec_view(made)))
            &&& awaited(request) == Expected::Done
        },
        request matches Request::UpdateNamespace { namespace_id, spec } ==> {
            &&& spec is None ==> (r matches Err(e) && e@.code == Code::InvalidArgument)
            &&& r matches Ok(errand) ==> (errand matches Errand::Command(
                ClientCommand::UpdateNamespace { namespace_id: n, spec: made },
            ) && n.0 == namespace_id && spec is Some && spec_of(spec.unwrap()) == Ok::<
                SpecView,
                StatusView,
            >(spec_view(made)))
            &&& awaited(request) == Expected::Done
        },
        request matches Request::StreamLogs { namespace_id, workload_id } ==> (r matches Ok(
            Errand::Logs { namespace_id: n, workload_id: w },
        ) && n.0 == namespace_id && (w is Some <==> workload_id is Some) && (workload_id matches
            Some(name) ==> w == Some(WorkloadId(name)))),
{
}

/// A request becomes the call of its kind with what it carries. What the engine does not do is
/// refused as such.
pub proof fn law_requests_become_calls(request: Request, r: Result<Call, Status>)
    requires
        calls(request, r),
    ensures
        request matches Request::DeleteNamespace { namespace_id } ==> (r matches Ok(
            Call::DestroyNamespace { namespace_id: n },
        ) && n.0 == namespace_id),
        request matches Request::GetNamespaceStatus { namespace_id } ==> (r matches Ok(
            Call::GetNamespaceStatus { namespace_id: n },
        ) && n.0 == namespace_id),
        request is ListNamespaces ==> (r matches Ok(Call::ListNamespaces)),
        request is ListWorkers ==> (r matches Ok(Call::ListWorkers)),
        request matches Request::GetWorker { worker_id } ==> match number(
            worker_id@,
            10,
            u64::MAX as nat,
        ) {
            Some(n) => r matches Ok(Call::GetWorker { worker_id: w }) && w.0 == n,
            None => r matches Err(e) && e@.code == Code::InvalidArgument,
        },
        request matches Request::ListPods { namespace_id } ==> (r matches Ok(
            Call::ListPods { namespace_id: n },
        ) && n.0 == namespace_id),
        request matches Request::ConnectNetwork { namespace_id, client_public_key } ==> {
            &&& client_public_key@.len() == 32 <==> r is Ok
            &&& r matches Ok(call) ==> (call matches Call::ConnectNetwork {
                namespace_id: n,
                client_public_key: k,
            } && n.0 == namespace_id && k@ == client_public_key@)
        },
        request matches Request::DisconnectNetwork { namespace_id, client_public_key } ==> {
            &&& client_public_key@.len() == 32 <==> r is Ok
            &&& r matches Ok(call) ==> (call matches Call::DisconnectNetwork {
                namespace_id: n,
                client_public_key: k,
            } && n.0 == namespace_id && k@ == client_public_key@)
        },
        request matches Request::CreateNamespace { namespace_id, spec } ==> {
            &&& spec is None ==> (r matches Err(e) && e@.code == Code::InvalidArgument)
            &&& r matches Ok(call) ==> (call matches Call::CreateNamespace {
                namespace_id: n,
                network,
            } && n.0 == namespace_id && spec is Some && (spec_of(spec.unwrap()) matches Ok(v)
                && network.subnet == v.network.subnet && network.gateway == v.network.gateway
                && network.prefix_len == v.network.prefix_len))
        },
        request matches Request::UpdateNamespace { namespace_id, spec } ==> (r matches Ok(call)
            ==> (call matches Call::UpdateNamespace { namespace_id: n, spec: made } && n.0
            == namespace_id && spec is Some && spec_of(spec.unwrap()) == Ok::<SpecView, StatusView>(
            spec_view(made),
        ))),
        request is Splice || request is Unsplice || request is DeactivateWorkload
            || request is CloneNamespace || request is StreamLogs || request is StreamEvents
            || request is WatchNamespaceStatus ==> (r matches Err(e) && e@.code
            == Code::Unimplemented),
{
}

// ---- answers ------------------------------------------------------------------------------------

/// An answer of the kind that a client waits for is passed on with all that it holds. An answer of
/// another kind is an internal error.
pub proof fn law_answers_are_passed_on(expected: Expected, event: ClientEvent, i: int)
    ensures
        expected == Expected::Done ==> (event is Done <==> reply_for(expected, event) is Ok),
        expected == Expected::Connection && event is ConnectResult ==> (reply_for(
            expected,
            event,
        ) matches Ok(ReplyView::Connection { server_public_key, endpoint, client_ip, subnet })
            && server_public_key == event->server_public_key@ && endpoint == event->endpoint
            && client_ip == event->client_ip && subnet == event->subnet),
        expected == Expected::Deactivation && event is DeactivateWorkloadResult ==> (reply_for(
            expected,
            event,
        ) matches Ok(ReplyView::Deactivation(d)) && d.deactivated == event->deactivated && d.reason
            == event->reason),
        expected == Expected::Workers && event is WorkerList ==> (reply_for(expected, event)
            matches Ok(ReplyView::Workers(list)) && list.len() == event->workers@.len() && (0 <= i
            < list.len() ==> list[i].worker_id == event->workers@[i].worker_id.0
            && list[i].max_pods == event->workers@[i].max_pods && list[i].available_memory_mb
            == event->workers@[i].available_memory_mb && list[i].active_pods
            == event->workers@[i].active_pods)),
        expected == Expected::Pods && event is PodList ==> (reply_for(expected, event) matches Ok(
            ReplyView::Pods(list),
        ) && list.len() == event->PodList_pods@.len() && (0 <= i < list.len() ==> list[i].pod_id
            == event->PodList_pods@[i].pod_id.0 && list[i].workload_id
            == event->PodList_pods@[i].workload_id.0 && list[i].worker_id
            == event->PodList_pods@[i].worker_id.0 && list[i].ip == event->PodList_pods@[i].ip && (
        list[i].state == proto::PodState::Running <==> event->PodList_pods@[i].state
            == PodStatus::Running))),
        event is Error ==> reply_for(expected, event) is Err,
        (expected == Expected::NamespaceStatus && !(event is NamespaceStatus)) || (expected
            == Expected::Namespaces && !(event is NamespaceList)) || (expected == Expected::Workers
            && !(event is WorkerList)) || (expected == Expected::Worker && !(
        event is WorkerStatus)) || (expected == Expected::Pods && !(event is PodList)) || (expected
            == Expected::Connection && !(event is ConnectResult)) || (expected
            == Expected::Deactivation && !(event is DeactivateWorkloadResult)) ==> reply_for(
            expected,
            event,
        ) is Err,
{
}

/// How a refusal is classed: by the words that it holds.
pub proof fn law_refusals_are_classed(message: Seq<char>, err: ClientError)
    ensures
        code_of_message(message) == Code::NotFound <==> occurs("not found"@, message),
        code_of_message(message) == Code::AlreadyExists <==> occurs("already exists"@, message)
            && !occurs("not found"@, message),
        code_of_message(message) == Code::FailedPrecondition <==> (occurs("not spliced"@, message)
            || occurs("already spliced"@, message)) && !occurs("not found"@, message) && !occurs(
            "already exists"@,
            message,
        ),
        code_of_message(message) == Code::Internal <==> !occurs("not found"@, message) && !occurs(
            "already exists"@,
            message,
        ) && !occurs("not spliced"@, message) && !occurs("already spliced"@, message),
        code_of_error(err) == Code::NotFound <==> err == ClientError::WorkerNotFound || err
            == ClientError::NamespaceNotFound,
        code_of_error(err) == Code::AlreadyExists <==> err == ClientError::NamespaceAlreadyExists,
        code_of_error(err) == Code::FailedPrecondition <==> err == ClientError::NoTunnelWorker,
        code_of_error(err) == Code::ResourceExhausted <==> err == ClientError::IpExhausted,
        code_of_error(err) == Code::Unavailable <==> err == ClientError::ShellGone,
{
}

/// A report names the namespace and its state as they are, and holds an entry for each service under
/// its name.
pub proof fn law_report_is_passed_on(report: ReportView, i: int)
    requires
        0 <= i < report.services.len(),
        forall|k: int|
            i < k < report.services.len() ==> (#[trigger] report.services[k]).0.0@
                != report.services[i].0.0@,
    ensures
        report_of(report).namespace_id == report.namespace_id.0@,
        report.status == NamespaceStatus::Creating <==> report_of(report).state
            == proto::NamespaceState::Creating,
        report.status == NamespaceStatus::Active <==> report_of(report).state
            == proto::NamespaceState::Active,
        report.status == NamespaceStatus::Destroying <==> report_of(report).state
            == proto::NamespaceState::Destroying,
        report_of(report).services.contains_key(report.services[i].0.0@),
        report_of(report).services[report.services[i].0.0@] == service_entry(report.services[i].1),
{
    lemma_service_entries(report.services, i);
}

proof fn lemma_service_entries(s: Seq<(ServiceId, ServiceReportView)>, i: int)
    requires
        0 <= i < s.len(),
        forall|k: int| i < k < s.len() ==> (#[trigger] s[k]).0.0@ != s[i].0.0@,
    ensures
        service_entries(s).contains_key(s[i].0.0@),
        service_entries(s)[s[i].0.0@] == service_entry(s[i].1),
    decreases s.len(),
{
    let front = s.drop_last();
    let last = s.len() - 1;
    assert(s[last] == s.last());
    if i < last {
        assert(front[i] == s[i]);
        assert(s[last].0.0@ != s[i].0.0@);
        assert forall|k: int| i < k < front.len() implies (#[trigger] front[k]).0.0@
            != front[i].0.0@ by {
            assert(s[k].0.0@ != s[i].0.0@);
        }
        lemma_service_entries(front, i);
    }
}

/// The entry of a service: an active one is shown with its pod, its worker and its need, one that
/// sleeps as idle, one that waits as waiting, and any other as pending. So is the entry of the
/// workload behind it.
pub proof fn law_entries_show_states(s: ServiceReportView)
    ensures
        service_entry(s).workload_id == s.workload_id.0@,
        service_entry(s).ip == s.ip,
        service_entry(s).activation_enabled == s.activation_enabled,
        s.service_state == "idle"@ ==> service_entry(s).state == ServiceStateView::Idle,
        s.service_state == "need_backend"@ ==> service_entry(s).state
            == ServiceStateView::NeedBackend,
        s.service_state == "pending"@ ==> service_entry(s).state == ServiceStateView::Pending,
        s.service_state == "active"@ ==> (service_entry(s).state matches ServiceStateView::Active {
            pod_id,
            worker_id,
            backend_need,
        } && (s.pod_id matches Some(p) ==> pod_id == p.0@) && (s.worker_id matches Some(w)
            ==> worker_id == w.0@) && (s.pod_id is None ==> pod_id.len() == 0) && (
        s.worker_id is None ==> worker_id.len() == 0) && backend_need == (match s.backend_need {
            None => proto::BackendNeed::Unspecified,
            Some(BackendNeed::Nothing) => proto::BackendNeed::Nothing,
            Some(BackendNeed::Traffic) => proto::BackendNeed::Traffic,
            Some(BackendNeed::Active) => proto::BackendNeed::Active,
        })),
        s.workload_state == "waiting_for_capacity"@ ==> workload_entry(s).state
            == WorkloadStateView::WaitingForCapacity,
        s.workload_state == "dormant"@ ==> workload_entry(s).state == WorkloadStateView::Dormant,
        s.workload_state == "running"@ ==> (workload_entry(s).state matches
            WorkloadStateView::Running { pod_id, worker_id } && (s.pod_id matches Some(p) ==> pod_id
            == p.0@) && (s.worker_id matches Some(w) ==> worker_id == w.0@)),
        s.workload_state == "launching"@ ==> (workload_entry(s).state matches
            WorkloadStateView::Launching { pod_id, worker_id } && (s.pod_id matches Some(p)
            ==> pod_id == p.0@) && (s.worker_id matches Some(w) ==> worker_id == w.0@)),
{
    reveal_strlit("idle");
    reveal_strlit("need_backend");
    reveal_strlit("pending");
    reveal_strlit("active");
    reveal_strlit("waiting_for_capacity");
    reveal_strlit("dormant");
    reveal_strlit("running");
    reveal_strlit("launching");
    assert("idle"@.len() == 4 && "pending"@.len() == 7 && "active"@.len() == 6
        && "need_backend"@.len() == 12);
    assert("dormant"@.len() == 7 && "running"@.len() == 7 && "launching"@.len() == 9
        && "waiting_for_capacity"@.len() == 20);
    assert("dormant"@[0] == 'd' && "running"@[0] == 'r');
}

// ---- events -------------------------------------------------------------------------------------

/// What happened to a workload is told under the workload's name, with the pod, the worker and the
/// reason that belong to it.
pub proof fn law_workload_events_are_told(workload: WorkloadId, event: SmWorkloadEvent)
    ensures
        happening(SmNamespaceEvent::Workload { workload_id: workload, event }) matches
            proto::Happening::Workload { workload_id, event: told } && workload_id == workload.0
            && match event {
            SmWorkloadEvent::DemandChanged { demanding_services } => told == (
            proto::WorkloadEvent::DemandChanged { demanding_services }),
            SmWorkloadEvent::PodLaunching { pod_id, worker_id } => told == (
            proto::WorkloadEvent::PodLaunching { pod_id: pod_id.0, worker_id: worker_id.0 }),
            SmWorkloadEvent::PodRunning { pod_id, worker_id } => told == (
            proto::WorkloadEvent::PodRunning { pod_id: pod_id.0, worker_id: worker_id.0 }),
            SmWorkloadEvent::PodStopped { exit_code } => told == (
            proto::WorkloadEvent::PodStopped { exit_code }),
            SmWorkloadEvent::PodFailed { reason } => told == (proto::WorkloadEvent::PodFailed {
                reason,
            }),
            SmWorkloadEvent::PodSuspending { pod_id, worker_id } => told == (
            proto::WorkloadEvent::PodSuspending { pod_id: pod_id.0, worker_id: worker_id.0 }),
            SmWorkloadEvent::PodSuspended { worker_id, artifact_id } => told == (
            proto::WorkloadEvent::PodSuspended {
                worker_id: worker_id.0,
                snapshot_id: artifact_id.0,
            }),
            SmWorkloadEvent::PodSuspendFailed { reason } => told == (
            proto::WorkloadEvent::PodSuspendFailed { reason }),
            SmWorkloadEvent::PodResuming { pod_id, worker_id } => told == (
            proto::WorkloadEvent::PodResuming { pod_id: pod_id.0, worker_id: worker_id.0 }),
        },
{
}

/// What happened to a service is told under the names of the service and of its workload.
pub proof fn law_service_events_are_told(
    service: ServiceId,
    workload: WorkloadId,
    event: SmServiceEvent,
)
    ensures
        happening(
            SmNamespaceEvent::Service { service_id: service, workload_id: workload, event },
        ) matches proto::Happening::Service { service_id, workload_id, event: told } && service_id
            == service.0 && workload_id == workload.0 && match event {
            SmServiceEvent::Activated { .. } => told == (proto::ServiceEvent::Activated {
                trigger: proto::ServiceActivationTrigger::Traffic,
            }),
            SmServiceEvent::BackendReady => told == proto::ServiceEvent::BackendReady,
            SmServiceEvent::IdleTimerStarted { timeout_ms } => told == (
            proto::ServiceEvent::IdleTimerStarted { timeout_ms }),
            SmServiceEvent::IdleTimerCancelled { .. } => told == (
            proto::ServiceEvent::IdleTimerCancelled {
                reason: proto::IdleTimerCancelReason::NewTraffic,
            }),
            SmServiceEvent::IdleTimeoutFired => told == proto::ServiceEvent::IdleTimeoutFired,
            SmServiceEvent::Deactivated { reason: ServiceDeactivationReason::IdleTimeout } => told
                == (proto::ServiceEvent::Deactivated {
                reason: proto::ServiceDeactivationReason::IdleTimeout,
            }),
            SmServiceEvent::Deactivated { reason: ServiceDeactivationReason::ForceDeactivate } => {
                told == (proto::ServiceEvent::Deactivated {
                    reason: proto::ServiceDeactivationReason::ForceDeactivate,
                })
            },
        },
{
}

/// A hardware address is read as six bytes: the hexadecimal numbers between its colons. A text with
/// more or fewer parts is refused.
pub proof fn law_hardware_address_is_read(s: Seq<char>, i: int)
    ensures
        split(s, ':').len() != 6 ==> mac_of_text(s) is Err,
        mac_of_text(s) matches Ok(bytes) ==> {
            &&& split(s, ':').len() == 6
            &&& bytes.len() == 6
            &&& 0 <= i < 6 ==> number(split(s, ':')[i], 16, 255) == Some(bytes[i] as nat)
        },
{
    if let Ok(bytes) = mac_of_text(s) {
        law_each_is_made(split(s, ':'), |part: Seq<char>| mac_byte(part), bytes, i);
    }
}

} // verus!
