//! Passes on how much each worker needs the backend of each service.
use vstd::prelude::*;

use crate::adapter::ports::{apart, off_worker, ports_of, PortTable};
use crate::sm::{BackendNeedId, ServiceId, WorkerId};
use crate::sorted_map::{as_map, increasing};
use crate::types::BackendNeed;

verus! {

/// A change to the ports that carry the need for a backend.
#[derive(Debug, Clone, Copy, PartialEq, Eq, Structural)]
pub enum BackendNeedOp {
    /// A new port that speaks to one service.
    Create { port: BackendNeedId, service_id: ServiceId },
    SetLevel { port: BackendNeedId, need: BackendNeed },
    Destroy { port: BackendNeedId },
}

/// One destruction per port.
pub open spec fn destroyed(ports: Seq<u64>) -> Seq<BackendNeedOp> {
    ports.map_values(|p: u64| BackendNeedOp::Destroy { port: BackendNeedId(p) })
}

/// What sets the need of a worker for a service, given its port if it has one. A new port takes the
/// number `next`.
pub open spec fn raised(
    port: Option<u64>,
    service_id: ServiceId,
    need: BackendNeed,
    next: u64,
) -> Seq<BackendNeedOp> {
    match port {
        Some(p) => seq![BackendNeedOp::SetLevel { port: BackendNeedId(p), need }],
        None => seq![
            BackendNeedOp::Create { port: BackendNeedId(next), service_id },
            BackendNeedOp::SetLevel { port: BackendNeedId(next), need },
        ],
    }
}

/// The port of a worker and a service.
pub open spec fn port_in(
    ports: Map<(WorkerId, ServiceId), u64>,
    worker_id: WorkerId,
    service_id: ServiceId,
) -> Option<u64> {
    if ports.contains_key((worker_id, service_id)) {
        Some(ports[(worker_id, service_id)])
    } else {
        None
    }
}

/// The ports once a worker and a service have one.
pub open spec fn with_port(
    ports: Map<(WorkerId, ServiceId), u64>,
    worker_id: WorkerId,
    service_id: ServiceId,
    next: u64,
) -> Map<(WorkerId, ServiceId), u64> {
    if ports.contains_key((worker_id, service_id)) {
        ports
    } else {
        ports.insert((worker_id, service_id), next)
    }
}

/// One destruction per port.
fn destroy_all(ports: &Vec<u64>) -> (r: Vec<BackendNeedOp>)
    ensures
        r@ == destroyed(ports@),
{
    let mut out: Vec<BackendNeedOp> = Vec::new();
    let mut i: usize = 0;
    while i < ports.len()
        invariant
            i <= ports@.len(),
            out@ == destroyed(ports@.take(i as int)),
        decreases ports@.len() - i,
    {
        out.push(BackendNeedOp::Destroy { port: BackendNeedId(ports[i]) });
        i = i + 1;
        assert(out@ =~= destroyed(ports@.take(i as int)));
    }
    assert(ports@.take(i as int) =~= ports@);
    out
}

/// Sets the need of a worker for a service, through a new port if it has none.
fn raise(
    table: &mut PortTable<ServiceId>,
    worker_id: WorkerId,
    service_id: ServiceId,
    need: BackendNeed,
    next: &mut u64,
) -> (r: Vec<BackendNeedOp>)
    requires
        *old(next) < u64::MAX,
        apart(old(table)@, *old(next)),
    ensures
        apart(final(table)@, *final(next)),
        increasing(final(table).seq()),
        final(table)@ == with_port(old(table)@, worker_id, service_id, *old(next)),
        *final(next) == *old(next) + (if old(table)@.contains_key((worker_id, service_id)) {
            0int
        } else {
            1
        }),
        r@ == raised(port_in(old(table)@, worker_id, service_id), service_id, need, *old(next)),
{
    let (p, fresh) = table.obtain(worker_id, service_id, next);
    let port: BackendNeedId = BackendNeedId(p);
    let mut out: Vec<BackendNeedOp> = Vec::new();
    if fresh {
        out.push(BackendNeedOp::Create { port, service_id });
    }
    out.push(BackendNeedOp::SetLevel { port, need });
    assert(out@ =~= raised(
        port_in(old(table)@, worker_id, service_id),
        service_id,
        need,
        *old(next),
    ));
    out
}

/// Holds one port per worker and service.
pub struct BackendNeedAdapter {
    ports: PortTable<ServiceId>,
}

impl BackendNeedAdapter {
    /// The ports in the order of workers and targets.
    pub closed spec fn seq(&self) -> Seq<((WorkerId, ServiceId), u64)> {
        self.ports.seq()
    }

    /// The port of each worker and target.
    pub open spec fn view(&self) -> Map<(WorkerId, ServiceId), u64> {
        as_map(self.seq())
    }

    pub fn new() -> (r: Self)
        ensures
            r.seq() == Seq::<((WorkerId, ServiceId), u64)>::empty(),
            r@ == Map::<(WorkerId, ServiceId), u64>::empty(),
    {
        BackendNeedAdapter { ports: PortTable::new() }
    }

    /// Takes in how much a worker needs the backend of a service.
    pub fn push_need(
        &mut self,
        worker_id: WorkerId,
        service_id: ServiceId,
        need: BackendNeed,
        next: &mut u64,
    ) -> (r: Vec<BackendNeedOp>)
        requires
            *old(next) < u64::MAX,
            apart(old(self)@, *old(next)),
        ensures
            apart(final(self)@, *final(next)),
            increasing(final(self).seq()),
            final(self)@ == with_port(old(self)@, worker_id, service_id, *old(next)),
            *final(next) == *old(next) + (if old(self)@.contains_key((worker_id, service_id)) {
                0int
            } else {
                1
            }),
            r@ == raised(port_in(old(self)@, worker_id, service_id), service_id, need, *old(next)),
    {
        raise(&mut self.ports, worker_id, service_id, need, next)
    }

    /// Drops the ports of a worker that is gone.
    pub fn remove_worker(&mut self, worker_id: WorkerId) -> (r: Vec<BackendNeedOp>)
        ensures
            final(self)@ == off_worker(old(self)@, worker_id),
            r@ == destroyed(ports_of(old(self).seq(), worker_id)),
            increasing(old(self).seq()),
            increasing(final(self).seq()),
    {
        let gone: Vec<u64> = self.ports.remove_worker(worker_id);
        destroy_all(&gone)
    }
}

/// Keeps services alive while flows to them are open: holds one port per worker and service.
pub struct FlowDemandAdapter {
    ports: PortTable<ServiceId>,
}

impl FlowDemandAdapter {
    /// The ports in the order of workers and targets.
    pub closed spec fn seq(&self) -> Seq<((WorkerId, ServiceId), u64)> {
        self.ports.seq()
    }

    /// The port of each worker and target.
    pub open spec fn view(&self) -> Map<(WorkerId, ServiceId), u64> {
        as_map(self.seq())
    }

    pub fn new() -> (r: Self)
        ensures
            r.seq() == Seq::<((WorkerId, ServiceId), u64)>::empty(),
            r@ == Map::<(WorkerId, ServiceId), u64>::empty(),
    {
        FlowDemandAdapter { ports: PortTable::new() }
    }

    /// How many ports there are.
    pub fn port_count(&self) -> (r: usize)
        ensures
            r == self@.dom().len(),
    {
        self.ports.len()
    }

    /// The port of a worker and a service.
    pub fn port(&self, worker_id: WorkerId, service_id: ServiceId) -> (r: Option<BackendNeedId>)
        ensures
            r == (match port_in(self@, worker_id, service_id) {
                Some(p) => Some(BackendNeedId(p)),
                None => None,
            }),
    {
        match self.ports.get(worker_id, service_id) {
            Some(p) => Some(BackendNeedId(p)),
            None => None,
        }
    }

    /// A worker has open flows to a service.
    pub fn set_active(&mut self, worker_id: WorkerId, service_id: ServiceId, next: &mut u64) -> (r:
        Vec<BackendNeedOp>)
        requires
            *old(next) < u64::MAX,
            apart(old(self)@, *old(next)),
        ensures
            apart(final(self)@, *final(next)),
            increasing(final(self).seq()),
            final(self)@ == with_port(old(self)@, worker_id, service_id, *old(next)),
            *final(next) == *old(next) + (if old(self)@.contains_key((worker_id, service_id)) {
                0int
            } else {
                1
            }),
            r@ == raised(
                port_in(old(self)@, worker_id, service_id),
                service_id,
                BackendNeed::Traffic,
                *old(next),
            ),
    {
        raise(&mut self.ports, worker_id, service_id, BackendNeed::Traffic, next)
    }

    /// A worker has no open flows to a service. The port stays until the worker is gone.
    pub fn set_inactive(&self, worker_id: WorkerId, service_id: ServiceId) -> (r: Vec<
        BackendNeedOp,
    >)
        ensures
            r@ == (match port_in(self@, worker_id, service_id) {
                Some(p) => seq![
                    BackendNeedOp::SetLevel {
                        port: BackendNeedId(p),
                        need: BackendNeed::Nothing,
                    },
                ],
                None => seq![],
            }),
    {
        let mut out: Vec<BackendNeedOp> = Vec::new();
        if let Some(p) = self.ports.get(worker_id, service_id) {
            out.push(
                BackendNeedOp::SetLevel { port: BackendNeedId(p), need: BackendNeed::Nothing },
            );
        }
        out
    }

    /// Drops the ports of a worker that is gone.
    pub fn remove_worker(&mut self, worker_id: WorkerId) -> (r: Vec<BackendNeedOp>)
        ensures
            final(self)@ == off_worker(old(self)@, worker_id),
            r@ == destroyed(ports_of(old(self).seq(), worker_id)),
            increasing(old(self).seq()),
            increasing(final(self).seq()),
    {
        let gone: Vec<u64> = self.ports.remove_worker(worker_id);
        destroy_all(&gone)
    }
}

} // verus!
