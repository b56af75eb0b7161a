//! Keeps the endpoints of a namespace.
use vstd::prelude::*;

use crate::adapter::dns_registry::listed;
use crate::sm::{
    EndpointId, EndpointInfo, FabricEndpointId, WireGuardPeerEndpointInfo, WireGuardPeerId,
};
use crate::sorted_map::{as_map, increasing, SortedMap};

verus! {

/// A change to the endpoints. A removal carries what was last known.
#[derive(Debug)]
pub enum EndpointAction {
    Update { endpoint_id: EndpointId, info: EndpointInfo },
    Remove { endpoint_id: EndpointId, old_info: EndpointInfo },
    WireGuardPeerUpdate { peer_id: WireGuardPeerId, info: WireGuardPeerEndpointInfo },
    WireGuardPeerRemove { peer_id: WireGuardPeerId, old_info: WireGuardPeerEndpointInfo },
}

impl Clone for EndpointAction {
    fn clone(&self) -> (r: Self)
        ensures
            r == *self,
    {
        match self {
            EndpointAction::Update { endpoint_id, info } => EndpointAction::Update {
                endpoint_id: *endpoint_id,
                info: info.clone(),
            },
            EndpointAction::Remove { endpoint_id, old_info } => EndpointAction::Remove {
                endpoint_id: *endpoint_id,
                old_info: old_info.clone(),
            },
            EndpointAction::WireGuardPeerUpdate { peer_id, info } => {
                EndpointAction::WireGuardPeerUpdate { peer_id: *peer_id, info: *info }
            },
            EndpointAction::WireGuardPeerRemove { peer_id, old_info } => {
                EndpointAction::WireGuardPeerRemove { peer_id: *peer_id, old_info: *old_info }
            },
        }
    }
}

/// What the port of the endpoints delivers.
#[derive(Debug)]
pub enum FabricEndpointPortInput {
    EndpointsInput(Vec<EndpointAction>),
}

/// All the changes for a port, in order.
pub open spec fn delivered(
    id: FabricEndpointId,
    inputs: Seq<(FabricEndpointId, FabricEndpointPortInput)>,
) -> Seq<EndpointAction>
    decreases inputs.len(),
{
    if inputs.len() == 0 {
        seq![]
    } else if inputs.last().0 == id {
        match inputs.last().1 {
            FabricEndpointPortInput::EndpointsInput(list) => delivered(id, inputs.drop_last())
                + list@,
        }
    } else {
        delivered(id, inputs.drop_last())
    }
}

/// The endpoints that are known.
#[verifier::ext_equal]
pub struct Known {
    pub endpoints: Map<EndpointId, EndpointInfo>,
    pub peers: Map<WireGuardPeerId, WireGuardPeerEndpointInfo>,
}

/// What is known after a change.
pub open spec fn learned(known: Known, action: EndpointAction) -> Known {
    match action {
        EndpointAction::Update { endpoint_id, info } => Known {
            endpoints: known.endpoints.insert(endpoint_id, info),
            ..known
        },
        EndpointAction::Remove { endpoint_id, .. } => Known {
            endpoints: known.endpoints.remove(endpoint_id),
            ..known
        },
        EndpointAction::WireGuardPeerUpdate { peer_id, info } => Known {
            peers: known.peers.insert(peer_id, info),
            ..known
        },
        EndpointAction::WireGuardPeerRemove { peer_id, .. } => Known {
            peers: known.peers.remove(peer_id),
            ..known
        },
    }
}

/// What is known after some changes.
pub open spec fn all_learned(known: Known, actions: Seq<EndpointAction>) -> Known
    decreases actions.len(),
{
    if actions.len() == 0 {
        known
    } else {
        learned(all_learned(known, actions.drop_last()), actions.last())
    }
}

/// Holds the endpoints as they are now, for workers that arrive later.
pub struct EndpointAdapter {
    fabric_endpoint_id: FabricEndpointId,
    endpoint_cache: SortedMap<EndpointId, EndpointInfo>,
    wg_peer_cache: SortedMap<WireGuardPeerId, WireGuardPeerEndpointInfo>,
}

impl EndpointAdapter {
    pub closed spec fn port(&self) -> FabricEndpointId {
        self.fabric_endpoint_id
    }

    /// The endpoints in order.
    pub closed spec fn endpoints(&self) -> Seq<(EndpointId, EndpointInfo)> {
        self.endpoint_cache.seq()
    }

    /// The clients' endpoints in order.
    pub closed spec fn peers(&self) -> Seq<(WireGuardPeerId, WireGuardPeerEndpointInfo)> {
        self.wg_peer_cache.seq()
    }

    /// What is known of each endpoint.
    pub open spec fn view(&self) -> Known {
        Known { endpoints: as_map(self.endpoints()), peers: as_map(self.peers()) }
    }

    /// The port that endpoints are announced on.
    pub fn fabric_endpoint_id(&self) -> (r: FabricEndpointId)
        ensures
            r == self.port(),
    {
        self.fabric_endpoint_id
    }

    pub fn new(fabric_endpoint_id: FabricEndpointId) -> (r: Self)
        ensures
            r.port() == fabric_endpoint_id,
            r@ == (Known { endpoints: Map::empty(), peers: Map::empty() }),
            r.endpoints() == Seq::<(EndpointId, EndpointInfo)>::empty(),
            r.peers() == Seq::<(WireGuardPeerId, WireGuardPeerEndpointInfo)>::empty(),
    {
        EndpointAdapter {
            fabric_endpoint_id,
            endpoint_cache: SortedMap::new(),
            wg_peer_cache: SortedMap::new(),
        }
    }

    fn apply(&mut self, action: &EndpointAction)
        ensures
            final(self).port() == old(self).port(),
            final(self)@ == learned(old(self)@, *action),
    {
        match action {
            EndpointAction::Update { endpoint_id, info } => {
                self.endpoint_cache.insert(*endpoint_id, info.clone());
            },
            EndpointAction::Remove { endpoint_id, .. } => {
                let _ = self.endpoint_cache.remove(endpoint_id);
            },
            EndpointAction::WireGuardPeerUpdate { peer_id, info } => {
                self.wg_peer_cache.insert(*peer_id, *info);
            },
            EndpointAction::WireGuardPeerRemove { peer_id, .. } => {
                let _ = self.wg_peer_cache.remove(peer_id);
            },
        }
    }

    /// Takes in what the port delivers, and says what has changed. The flag says whether the router
    /// has been changed in turn: it never is.
    pub fn reconcile(&mut self, inputs: &Vec<(FabricEndpointId, FabricEndpointPortInput)>) -> (r: (
        Vec<EndpointAction>,
        bool,
    ))
        ensures
            final(self).port() == old(self).port(),
            r.0@ == delivered(old(self).port(), inputs@),
            final(self)@ == all_learned(old(self)@, r.0@),
            !r.1,
    {
        let mut out: Vec<EndpointAction> = Vec::new();
        let mut i: usize = 0;
        assert(inputs@.take(0) =~= Seq::<(FabricEndpointId, FabricEndpointPortInput)>::empty());
        while i < inputs.len()
            invariant
                i <= inputs@.len(),
                self.port() == old(self).port(),
                out@ == delivered(self.port(), inputs@.take(i as int)),
                self@ == all_learned(old(self)@, out@),
            decreases inputs@.len() - i,
        {
            assert(inputs@.take(i + 1).drop_last() =~= inputs@.take(i as int));
            assert(inputs@.take(i + 1).last() == inputs@[i as int]);
            if inputs[i].0 == self.fabric_endpoint_id {
                let list: &Vec<EndpointAction> = match &inputs[i].1 {
                    FabricEndpointPortInput::EndpointsInput(list) => list,
                };
                let ghost start = out@;
                let mut j: usize = 0;
                assert(out@ =~= start + list@.take(0));
                while j < list.len()
                    invariant
                        j <= list@.len(),
                        self.port() == old(self).port(),
                        out@ == start + list@.take(j as int),
                        self@ == all_learned(old(self)@, out@),
                    decreases list@.len() - j,
                {
                    self.apply(&list[j]);
                    out.push(list[j].clone());
                    assert(out@.drop_last() =~= start + list@.take(j as int));
                    j = j + 1;
                    assert(out@ =~= start + list@.take(j as int));
                }
                assert(list@.take(j as int) =~= list@);
            }
            i = i + 1;
        }
        assert(inputs@.take(i as int) =~= inputs@);
        (out, false)
    }

    /// All the endpoints, for a new worker.
    pub fn build_endpoint_sync(&self) -> (r: Vec<(EndpointId, EndpointInfo)>)
        ensures
            r@ == self.endpoints(),
            as_map(r@) == self@.endpoints,
            increasing(r@),
    {
        let n: usize = self.endpoint_cache.len();
        let mut out: Vec<(EndpointId, EndpointInfo)> = Vec::new();
        let mut i: usize = 0;
        while i < n
            invariant
                i <= n,
                n == self.endpoint_cache.seq().len(),
                out@ == self.endpoint_cache.seq().take(i as int),
            decreases n - i,
        {
            out.push((*self.endpoint_cache.key_at(i), self.endpoint_cache.value_at(i).clone()));
            i = i + 1;
            assert(out@ =~= self.endpoint_cache.seq().take(i as int));
        }
        assert(self.endpoint_cache.seq().take(i as int) =~= self.endpoint_cache.seq());
        out
    }

    /// All the clients' endpoints, for a new worker.
    pub fn build_wg_peer_sync(&self) -> (r: Vec<(WireGuardPeerId, WireGuardPeerEndpointInfo)>)
        ensures
            r@ == self.peers(),
            as_map(r@) == self@.peers,
            increasing(r@),
    {
        let n: usize = self.wg_peer_cache.len();
        let mut out: Vec<(WireGuardPeerId, WireGuardPeerEndpointInfo)> = Vec::new();
        let mut i: usize = 0;
        while i < n
            invariant
                i <= n,
                n == self.wg_peer_cache.seq().len(),
                out@ == self.wg_peer_cache.seq().take(i as int),
            decreases n - i,
        {
            out.push((*self.wg_peer_cache.key_at(i), *self.wg_peer_cache.value_at(i)));
            i = i + 1;
            assert(out@ =~= self.wg_peer_cache.seq().take(i as int));
        }
        assert(self.wg_peer_cache.seq().take(i as int) =~= self.wg_peer_cache.seq());
        out
    }
}

/// A source of endpoints and what it offers.
#[derive(Debug)]
pub enum EndpointsInputSource {
    EndpointEndpointInfo(EndpointId, Option<EndpointInfo>),
    WireGuardPeerEndpointInfo(WireGuardPeerId, Option<WireGuardPeerEndpointInfo>),
}

/// What makes the offer of a source known.
pub open spec fn offered(source: EndpointsInputSource) -> Option<Seq<EndpointAction>> {
    match source {
        EndpointsInputSource::EndpointEndpointInfo(endpoint_id, Some(info)) => Some(
            seq![EndpointAction::Update { endpoint_id, info }],
        ),
        EndpointsInputSource::WireGuardPeerEndpointInfo(peer_id, Some(info)) => Some(
            seq![EndpointAction::WireGuardPeerUpdate { peer_id, info }],
        ),
        _ => None,
    }
}

/// What withdraws the offer of a source.
pub open spec fn withdrawn(source: EndpointsInputSource) -> Option<Seq<EndpointAction>> {
    match source {
        EndpointsInputSource::EndpointEndpointInfo(endpoint_id, Some(old_info)) => Some(
            seq![EndpointAction::Remove { endpoint_id, old_info }],
        ),
        EndpointsInputSource::WireGuardPeerEndpointInfo(peer_id, Some(old_info)) => Some(
            seq![EndpointAction::WireGuardPeerRemove { peer_id, old_info }],
        ),
        _ => None,
    }
}

/// What leads from the old offer of a source to its new one. Sources of two kinds have nothing to do
/// with each other.
pub open spec fn source_changes(old_source: EndpointsInputSource, source: EndpointsInputSource) -> Option<
    Seq<EndpointAction>,
> {
    match (old_source, source) {
        (
            EndpointsInputSource::EndpointEndpointInfo(_, old_info),
            EndpointsInputSource::EndpointEndpointInfo(endpoint_id, new_info),
        ) => if new_info is Some {
            offered(source)
        } else {
            withdrawn(EndpointsInputSource::EndpointEndpointInfo(endpoint_id, old_info))
        },
        (
            EndpointsInputSource::WireGuardPeerEndpointInfo(_, old_info),
            EndpointsInputSource::WireGuardPeerEndpointInfo(peer_id, new_info),
        ) => if new_info is Some {
            offered(source)
        } else {
            withdrawn(EndpointsInputSource::WireGuardPeerEndpointInfo(peer_id, old_info))
        },
        _ => None,
    }
}

/// Turns what the sources of endpoints offer into changes, one source at a time.
#[derive(Debug, Clone, Copy)]
pub struct EndpointIncrementalAggregator;

impl EndpointIncrementalAggregator {
    /// A source has come.
    pub fn added(&self, source: &EndpointsInputSource) -> (r: Option<Vec<EndpointAction>>)
        ensures
            listed(r) == offered(*source),
    {
        let action: EndpointAction = match source {
            EndpointsInputSource::EndpointEndpointInfo(endpoint_id, Some(info)) => {
                EndpointAction::Update { endpoint_id: *endpoint_id, info: info.clone() }
            },
            EndpointsInputSource::WireGuardPeerEndpointInfo(peer_id, Some(info)) => {
                EndpointAction::WireGuardPeerUpdate { peer_id: *peer_id, info: *info }
            },
            _ => {
                return None;
            },
        };
        let mut out: Vec<EndpointAction> = Vec::new();
        out.push(action);
        assert(out@ =~= offered(*source)->0);
        Some(out)
    }

    /// A source has gone.
    pub fn removed(&self, source: &EndpointsInputSource) -> (r: Option<Vec<EndpointAction>>)
        ensures
            listed(r) == withdrawn(*source),
    {
        let action: EndpointAction = match source {
            EndpointsInputSource::EndpointEndpointInfo(endpoint_id, Some(info)) => {
                EndpointAction::Remove { endpoint_id: *endpoint_id, old_info: info.clone() }
            },
            EndpointsInputSource::WireGuardPeerEndpointInfo(peer_id, Some(info)) => {
                EndpointAction::WireGuardPeerRemove { peer_id: *peer_id, old_info: *info }
            },
            _ => {
                return None;
            },
        };
        let mut out: Vec<EndpointAction> = Vec::new();
        out.push(action);
        assert(out@ =~= withdrawn(*source)->0);
        Some(out)
    }

    /// A source offers something else.
    pub fn changed(&self, old_source: &EndpointsInputSource, source: &EndpointsInputSource) -> (r:
        Option<Vec<EndpointAction>>)
        ensures
            listed(r) == source_changes(*old_source, *source),
    {
        match (old_source, source) {
            (
                EndpointsInputSource::EndpointEndpointInfo(_, old_info),
                EndpointsInputSource::EndpointEndpointInfo(endpoint_id, new_info),
            ) => {
                if new_info.is_some() {
                    return self.added(source);
                }
                match old_info {
                    Some(info) => self.removed(
                        &EndpointsInputSource::EndpointEndpointInfo(
                            *endpoint_id,
                            Some(info.clone()),
                        ),
                    ),
                    None => None,
                }
            },
            (
                EndpointsInputSource::WireGuardPeerEndpointInfo(_, old_info),
                EndpointsInputSource::WireGuardPeerEndpointInfo(peer_id, new_info),
            ) => {
                if new_info.is_some() {
                    return self.added(source);
                }
                self.removed(&EndpointsInputSource::WireGuardPeerEndpointInfo(*peer_id, *old_info))
            },
            _ => None,
        }
    }
}

/// What is known when a source offers what it does, given what the others offer.
pub open spec fn with_source(others: Known, source: EndpointsInputSource) -> Known {
    match source {
        EndpointsInputSource::EndpointEndpointInfo(id, info) => Known {
            endpoints: match info {
                Some(i) => others.endpoints.insert(id, i),
                None => others.endpoints.remove(id),
            },
            ..others
        },
        EndpointsInputSource::WireGuardPeerEndpointInfo(id, info) => Known {
            peers: match info {
                Some(i) => others.peers.insert(id, i),
                None => others.peers.remove(id),
            },
            ..others
        },
    }
}

/// Two offers of one source.
pub open spec fn same_source(a: EndpointsInputSource, b: EndpointsInputSource) -> bool {
    match (a, b) {
        (
            EndpointsInputSource::EndpointEndpointInfo(i, _),
            EndpointsInputSource::EndpointEndpointInfo(j, _),
        ) => i == j,
        (
            EndpointsInputSource::WireGuardPeerEndpointInfo(i, _),
            EndpointsInputSource::WireGuardPeerEndpointInfo(j, _),
        ) => i == j,
        _ => false,
    }
}

/// What is known follows a source from its old offer to its new one, and nothing else changes.
pub proof fn law_endpoints_follow_source(
    others: Known,
    old_source: EndpointsInputSource,
    source: EndpointsInputSource,
)
    requires
        same_source(old_source, source),
    ensures
        match source_changes(old_source, source) {
            Some(actions) => all_learned(with_source(others, old_source), actions) == with_source(
                others,
                source,
            ),
            None => with_source(others, old_source) == with_source(others, source),
        },
{
    reveal_with_fuel(all_learned, 2);
    match source_changes(old_source, source) {
        Some(actions) => {
            assert(actions.drop_last() =~= seq![]);
            assert(all_learned(with_source(others, old_source), actions) =~= with_source(
                others,
                source,
            ));
        },
        None => {},
    }
}

} // verus!
