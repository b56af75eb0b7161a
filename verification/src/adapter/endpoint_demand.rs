//! Passes on the demand that workers see for endpoints.
use vstd::prelude::*;

use crate::adapter::ports::{apart, off_worker, ports_of, PortTable};
use crate::sm::{EndpointDemandId, EndpointId, WorkerId};
use crate::sorted_map::{as_map, increasing};

verus! {

/// A demand that a worker sees.
#[derive(Debug, Clone, Copy, PartialEq, Eq, Structural)]
pub enum EndpointDemandSignal {
    Active { active: bool },
    Traffic,
}

/// A change to the ports that carry the demand for endpoints.
#[derive(Debug, Clone, Copy, PartialEq, Eq, Structural)]
pub enum EndpointDemandOp {
    /// A new port that speaks to one endpoint.
    Create { port: EndpointDemandId, endpoint_id: EndpointId },
    SetActive { port: EndpointDemandId, active: bool },
    SendTraffic { port: EndpointDemandId, endpoint_id: EndpointId },
    Destroy { port: EndpointDemandId },
}

/// What passes a demand on through a port.
pub open spec fn signalled(
    port: u64,
    endpoint_id: EndpointId,
    signal: EndpointDemandSignal,
) -> EndpointDemandOp {
    match signal {
        EndpointDemandSignal::Active { active } => EndpointDemandOp::SetActive {
            port: EndpointDemandId(port),
            active,
        },
        EndpointDemandSignal::Traffic => EndpointDemandOp::SendTraffic {
            port: EndpointDemandId(port),
            endpoint_id,
        },
    }
}

/// What passes a demand on, given the port if there is one. A new port takes the number `next`.
pub open spec fn demanded(
    ports: Map<(WorkerId, EndpointId), u64>,
    worker_id: WorkerId,
    endpoint_id: EndpointId,
    signal: EndpointDemandSignal,
    next: u64,
) -> Seq<EndpointDemandOp> {
    if ports.contains_key((worker_id, endpoint_id)) {
        seq![signalled(ports[(worker_id, endpoint_id)], endpoint_id, signal)]
    } else {
        seq![
            EndpointDemandOp::Create { port: EndpointDemandId(next), endpoint_id },
            signalled(next, endpoint_id, signal),
        ]
    }
}

/// The ports once a worker and an endpoint have one.
pub open spec fn with_demand(
    ports: Map<(WorkerId, EndpointId), u64>,
    worker_id: WorkerId,
    endpoint_id: EndpointId,
    next: u64,
) -> Map<(WorkerId, EndpointId), u64> {
    if ports.contains_key((worker_id, endpoint_id)) {
        ports
    } else {
        ports.insert((worker_id, endpoint_id), next)
    }
}

/// The first free number once a worker and an endpoint have a port.
pub open spec fn next_after(
    ports: Map<(WorkerId, EndpointId), u64>,
    worker_id: WorkerId,
    endpoint_id: EndpointId,
    next: u64,
) -> int {
    if ports.contains_key((worker_id, endpoint_id)) {
        next as int
    } else {
        next + 1
    }
}

/// One destruction per port.
pub open spec fn demands_destroyed(ports: Seq<u64>) -> Seq<EndpointDemandOp> {
    ports.map_values(|p: u64| EndpointDemandOp::Destroy { port: EndpointDemandId(p) })
}

/// Holds one port per worker and endpoint.
pub struct EndpointDemandAdapter {
    ports: PortTable<EndpointId>,
}

impl EndpointDemandAdapter {
    /// The ports in the order of workers and targets.
    pub closed spec fn seq(&self) -> Seq<((WorkerId, EndpointId), u64)> {
        self.ports.seq()
    }

    /// The port of each worker and target.
    pub open spec fn view(&self) -> Map<(WorkerId, EndpointId), u64> {
        as_map(self.seq())
    }

    pub fn new() -> (r: Self)
        ensures
            r.seq() == Seq::<((WorkerId, EndpointId), u64)>::empty(),
            r@ == Map::<(WorkerId, EndpointId), u64>::empty(),
    {
        EndpointDemandAdapter { ports: PortTable::new() }
    }

    /// How many ports there are.
    pub fn port_count(&self) -> (r: usize)
        ensures
            r == self@.dom().len(),
    {
        self.ports.len()
    }

    /// The port of a worker and an endpoint.
    pub fn port(&self, worker_id: WorkerId, endpoint_id: EndpointId) -> (r: Option<
        EndpointDemandId,
    >)
        ensures
            r == (if self@.contains_key((worker_id, endpoint_id)) {
                Some(EndpointDemandId(self@[(worker_id, endpoint_id)]))
            } else {
                None
            }),
    {
        match self.ports.get(worker_id, endpoint_id) {
            Some(p) => Some(EndpointDemandId(p)),
            None => None,
        }
    }

    /// Takes in a demand that a worker sees for an endpoint.
    pub fn push_demand(
        &mut self,
        worker_id: WorkerId,
        endpoint_id: EndpointId,
        signal: EndpointDemandSignal,
        next: &mut u64,
    ) -> (r: Vec<EndpointDemandOp>)
        requires
            *old(next) < u64::MAX,
            apart(old(self)@, *old(next)),
        ensures
            apart(final(self)@, *final(next)),
            increasing(final(self).seq()),
            final(self)@ == with_demand(old(self)@, worker_id, endpoint_id, *old(next)),
            *final(next) == next_after(old(self)@, worker_id, endpoint_id, *old(next)),
            r@ == demanded(old(self)@, worker_id, endpoint_id, signal, *old(next)),
    {
        let (p, fresh) = self.ports.obtain(worker_id, endpoint_id, next);
        let port: EndpointDemandId = EndpointDemandId(p);
        let mut out: Vec<EndpointDemandOp> = Vec::new();
        if fresh {
            out.push(EndpointDemandOp::Create { port, endpoint_id });
        }
        match signal {
            EndpointDemandSignal::Active { active } => {
                out.push(EndpointDemandOp::SetActive { port, active });
            },
            EndpointDemandSignal::Traffic => {
                out.push(EndpointDemandOp::SendTraffic { port, endpoint_id });
            },
        }
        assert(out@ =~= demanded(old(self)@, worker_id, endpoint_id, signal, *old(next)));
        out
    }

    /// Drops the ports of a worker that is gone.
    pub fn remove_worker(&mut self, worker_id: WorkerId) -> (r: Vec<EndpointDemandOp>)
        ensures
            final(self)@ == off_worker(old(self)@, worker_id),
            r@ == demands_destroyed(ports_of(old(self).seq(), worker_id)),
            increasing(old(self).seq()),
            increasing(final(self).seq()),
    {
        let gone: Vec<u64> = self.ports.remove_worker(worker_id);
        let mut out: Vec<EndpointDemandOp> = Vec::new();
        let mut i: usize = 0;
        while i < gone.len()
            invariant
                i <= gone@.len(),
                out@ == demands_destroyed(gone@.take(i as int)),
            decreases gone@.len() - i,
        {
            out.push(EndpointDemandOp::Destroy { port: EndpointDemandId(gone[i]) });
            i = i + 1;
            assert(out@ =~= demands_destroyed(gone@.take(i as int)));
        }
        assert(gone@.take(i as int) =~= gone@);
        out
    }
}

/// A worker that is gone keeps no port, every other worker keeps its own, and no two entries come to
/// share one.
pub proof fn law_removal_keeps_ports_apart<I>(
    ports: Map<(WorkerId, I), u64>,
    worker_id: WorkerId,
    next: u64,
)
    requires
        apart(ports, next),
    ensures
        apart(off_worker(ports, worker_id), next),
        forall|k: (WorkerId, I)| #[trigger]
            off_worker(ports, worker_id).contains_key(k) <==> ports.contains_key(k) && k.0
                != worker_id,
        forall|k: (WorkerId, I)| #[trigger]
            off_worker(ports, worker_id).contains_key(k) ==> off_worker(ports, worker_id)[k]
                == ports[k],
{
}

} // verus!
