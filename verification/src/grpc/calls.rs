//! The client service over the engine: which call a request stands for.
use vstd::prelude::*;

use crate::grpc::conversions::spec_view;
use crate::grpc::service::{
    answerable, read_public_key, read_spec, read_worker_id, requested, Request,
};
use crate::grpc::status::{invalid, Code, Status, StatusView};
use crate::ids::NamespaceId;
use crate::sm::WorkerId;
use crate::text::number;
use crate::types::{NamespaceSpec, NetworkConfig};

verus! {

/// What the service asks of the engine.
pub enum Call {
    CreateNamespace { namespace_id: NamespaceId, network: NetworkConfig },
    UpdateNamespace { namespace_id: NamespaceId, spec: NamespaceSpec },
    DestroyNamespace { namespace_id: NamespaceId },
    GetNamespaceStatus { namespace_id: NamespaceId },
    ListNamespaces,
    ListWorkers,
    GetWorker { worker_id: WorkerId },
    ListPods { namespace_id: NamespaceId },
    ConnectNetwork { namespace_id: NamespaceId, client_public_key: [u8; 32] },
    DisconnectNetwork { namespace_id: NamespaceId, client_public_key: [u8; 32] },
}

/// The refusal of what the engine does not do yet.
pub open spec fn unimplemented(message: Seq<char>) -> StatusView {
    StatusView { code: Code::Unimplemented, message }
}

/// `r` is the call for the request, or the refusal of it.
pub open spec fn calls(request: Request, r: Result<Call, Status>) -> bool {
    match request {
        Request::CreateNamespace { namespace_id, spec } => match requested(spec) {
            Ok(v) => r matches Ok(Call::CreateNamespace { namespace_id: n, network }) && n.0
                == namespace_id && network == (NetworkConfig { segment_id: None, ..v.network }),
            Err(e) => r matches Err(f) && f@ == e,
        },
        Request::UpdateNamespace { namespace_id, spec } => match requested(spec) {
            Ok(v) => r matches Ok(Call::UpdateNamespace { namespace_id: n, spec: s }) && n.0
                == namespace_id && spec_view(s) == v,
            Err(e) => r matches Err(f) && f@ == e,
        },
        Request::DeleteNamespace { namespace_id } => r matches Ok(
            Call::DestroyNamespace { namespace_id: n },
        ) && n.0 == namespace_id,
        Request::GetNamespaceStatus { namespace_id } => r matches Ok(
            Call::GetNamespaceStatus { namespace_id: n },
        ) && n.0 == namespace_id,
        Request::ListNamespaces => r matches Ok(Call::ListNamespaces),
        Request::Splice { .. } => r matches Err(f) && f@ == unimplemented(
            "Splice not yet implemented in new core"@,
        ),
        Request::Unsplice { .. } => r matches Err(f) && f@ == unimplemented(
            "Unsplice not yet implemented in new core"@,
        ),
        Request::DeactivateWorkload { .. } => r matches Err(f) && f@ == unimplemented(
            "DeactivateWorkload not yet implemented in new core"@,
        ),
        Request::CloneNamespace { .. } => r matches Err(f) && f@ == unimplemented(
            "CloneNamespace not yet implemented in new core"@,
        ),
        Request::ListWorkers => r matches Ok(Call::ListWorkers),
        Request::GetWorker { worker_id } => match number(worker_id@, 10, u64::MAX as nat) {
            Some(n) => r matches Ok(Call::GetWorker { worker_id: w }) && w.0 == n,
            None => r matches Err(f) && f@ == invalid("invalid worker_id"@),
        },
        Request::ListPods { namespace_id } => r matches Ok(Call::ListPods { namespace_id: n })
            && n.0 == namespace_id,
        Request::ConnectNetwork { namespace_id, client_public_key } => {
            if client_public_key@.len() == 32 {
                r matches Ok(Call::ConnectNetwork { namespace_id: n, client_public_key: k }) && n.0
                    == namespace_id && k@ == client_public_key@
            } else {
                r matches Err(f) && f@ == invalid("client_public_key must be 32 bytes"@)
            }
        },
        Request::DisconnectNetwork { namespace_id, client_public_key } => {
            if client_public_key@.len() == 32 {
                r matches Ok(Call::DisconnectNetwork { namespace_id: n, client_public_key: k })
                    && n.0 == namespace_id && k@ == client_public_key@
            } else {
                r matches Err(f) && f@ == invalid("client_public_key must be 32 bytes"@)
            }
        },
        Request::WatchNamespaceStatus => r matches Err(f) && f@ == unimplemented(
            "WatchNamespaceStatus not yet implemented"@,
        ),
        Request::StreamLogs { .. } => r matches Err(f) && f@ == unimplemented(
            "StreamLogs not yet implemented in new core"@,
        ),
        Request::StreamEvents => r matches Err(f) && f@ == unimplemented(
            "StreamEvents not yet implemented in new core"@,
        ),
    }
}

fn refused(message: &str) -> (r: Result<Call, Status>)
    ensures
        r matches Err(f) && f@ == unimplemented(message@),
{
    Err(Status::new(Code::Unimplemented, message))
}

/// The call that a request stands for.
pub fn call_of(request: Request) -> (r: Result<Call, Status>)
    requires
        answerable(request),
    ensures
        calls(request, r),
{
    match request {
        Request::CreateNamespace { namespace_id, spec } => match read_spec(&spec) {
            Err(e) => Err(e),
            Ok(spec) => {
                let network = NetworkConfig {
                    segment_id: None,
                    subnet: spec.network.subnet,
                    gateway: spec.network.gateway,
                    prefix_len: spec.network.prefix_len,
                };
                Ok(Call::CreateNamespace { namespace_id: NamespaceId(namespace_id), network })
            },
        },
        Request::UpdateNamespace { namespace_id, spec } => match read_spec(&spec) {
            Err(e) => Err(e),
            Ok(spec) => Ok(
                Call::UpdateNamespace { namespace_id: NamespaceId(namespace_id), spec },
            ),
        },
        Request::DeleteNamespace { namespace_id } => Ok(
            Call::DestroyNamespace { namespace_id: NamespaceId(namespace_id) },
        ),
        Request::GetNamespaceStatus { namespace_id } => Ok(
            Call::GetNamespaceStatus { namespace_id: NamespaceId(namespace_id) },
        ),
        Request::ListNamespaces => Ok(Call::ListNamespaces),
        Request::Splice { .. } => refused("Splice not yet implemented in new core"),
        Request::Unsplice { .. } => refused("Unsplice not yet implemented in new core"),
        Request::DeactivateWorkload { .. } => refused(
            "DeactivateWorkload not yet implemented in new core",
        ),
        Request::CloneNamespace { .. } => refused("CloneNamespace not yet implemented in new core"),
        Request::ListWorkers => Ok(Call::ListWorkers),
        Request::GetWorker { worker_id } => match read_worker_id(worker_id.as_str()) {
            Err(e) => Err(e),
            Ok(n) => Ok(Call::GetWorker { worker_id: WorkerId(n) }),
        },
        Request::ListPods { namespace_id } => Ok(
            Call::ListPods { namespace_id: NamespaceId(namespace_id) },
        ),
        Request::ConnectNetwork { namespace_id, client_public_key } => match read_public_key(
            &client_public_key,
        ) {
            Err(e) => Err(e),
            Ok(key) => Ok(
                Call::ConnectNetwork {
                    namespace_id: NamespaceId(namespace_id),
                    client_public_key: key,
                },
            ),
        },
        Request::DisconnectNetwork { namespace_id, client_public_key } => match read_public_key(
            &client_public_key,
        ) {
            Err(e) => Err(e),
            Ok(key) => Ok(
                Call::DisconnectNetwork {
                    namespace_id: NamespaceId(namespace_id),
                    client_public_key: key,
                },
            ),
        },
        Request::WatchNamespaceStatus => refused("WatchNamespaceStatus not yet implemented"),
        Request::StreamLogs { .. } => refused("StreamLogs not yet implemented in new core"),
        Request::StreamEvents => refused("StreamEvents not yet implemented in new core"),
    }
}

} // verus!
