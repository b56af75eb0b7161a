//! Names for the numbers that the router uses.
use vstd::prelude::*;

use crate::ids::NamespaceId;
use crate::sm::{EndpointId, PodId, ServiceId, WorkloadId};
use crate::sorted_map::{restricted, Key, SortedMap};

verus! {

/// The registries of all namespaces. Whoever changes a name changes it here, so that all who read
/// the registry of a namespace see it.
#[derive(Debug)]
pub struct IdRegistryMap {
    registries: SortedMap<NamespaceId, IdRegistry>,
}

/// What the registry of a namespace knows. Where there is none, nothing is known.
pub open spec fn registry_of(
    m: Map<Seq<char>, RegistryView>,
    namespace_id: Seq<char>,
) -> RegistryView {
    if m.contains_key(namespace_id) {
        m[namespace_id]
    } else {
        RegistryView::nothing()
    }
}

/// The registries after a change to that of one namespace, if there is one.
pub open spec fn changed(
    m: Map<Seq<char>, RegistryView>,
    namespace_id: Seq<char>,
    registry: RegistryView,
) -> Map<Seq<char>, RegistryView> {
    if m.contains_key(namespace_id) {
        m.insert(namespace_id, registry)
    } else {
        m
    }
}

impl Clone for IdRegistryMap {
    /// A map of its own with the same registries. What is registered in one of the two later on
    /// does not show in the other.
    fn clone(&self) -> (r: Self)
        ensures
            r@ == self@,
    {
        let copy = |_k: &NamespaceId, v: &IdRegistry| -> (r: IdRegistry)
            ensures
                r@ == v@,
            {
                v.clone()
            };
        let r = IdRegistryMap { registries: self.registries.map_to(copy) };
        assert(r@ =~= self@);
        r
    }
}

impl IdRegistryMap {
    /// What is known, by namespace.
    pub closed spec fn view(&self) -> Map<Seq<char>, RegistryView> {
        self.registries@.map_values(|r: IdRegistry| r@)
    }

    pub fn new() -> (r: Self)
        ensures
            r@ == Map::<Seq<char>, RegistryView>::empty(),
    {
        let r = IdRegistryMap { registries: SortedMap::new() };
        assert(r@ =~= Map::<Seq<char>, RegistryView>::empty());
        r
    }

    /// The registry of a namespace. It is made where there is none.
    pub fn get_or_create(&mut self, namespace_id: &NamespaceId) -> (r: &IdRegistry)
        ensures
            final(self)@ == old(self)@.insert(
                namespace_id.id(),
                registry_of(old(self)@, namespace_id.id()),
            ),
            r@ == registry_of(old(self)@, namespace_id.id()),
    {
        if !self.registries.contains_key(namespace_id) {
            self.registries.insert(namespace_id.clone(), IdRegistry::new());
        }
        assert(self@ =~= old(self)@.insert(
            namespace_id.id(),
            registry_of(old(self)@, namespace_id.id()),
        ));
        match self.registries.get(namespace_id) {
            Some(r) => r,
            None => {
                vstd::pervasive::unreached()
            },
        }
    }

    /// The registry of a namespace, if there is one.
    pub fn get(&self, namespace_id: &NamespaceId) -> (r: Option<&IdRegistry>)
        ensures
            r matches Some(x) ==> self@.contains_key(namespace_id.id()) && x@
                == self@[namespace_id.id()],
            r is None ==> !self@.contains_key(namespace_id.id()),
    {
        self.registries.get(namespace_id)
    }

    /// Forgets the registry of a namespace and returns it.
    pub fn remove(&mut self, namespace_id: &NamespaceId) -> (r: Option<IdRegistry>)
        ensures
            final(self)@ == old(self)@.remove(namespace_id.id()),
            r matches Some(x) ==> old(self)@.contains_key(namespace_id.id()) && x@ == old(
                self,
            )@[namespace_id.id()],
            r is None ==> !old(self)@.contains_key(namespace_id.id()),
    {
        let r = self.registries.remove(namespace_id);
        assert(self@ =~= old(self)@.remove(namespace_id.id()));
        r
    }

    /// Puts a registry in the place of the namespace's earlier one.
    fn put(&mut self, namespace_id: &NamespaceId, registry: IdRegistry)
        ensures
            final(self)@ == old(self)@.insert(namespace_id.id(), registry@),
    {
        self.registries.insert(namespace_id.clone(), registry);
        assert(self@ =~= old(self)@.insert(namespace_id.id(), registry@));
    }

    /// Takes the registry of a namespace out, or an empty one where there is none.
    fn take(&mut self, namespace_id: &NamespaceId) -> (r: IdRegistry)
        ensures
            final(self)@ == old(self)@.remove(namespace_id.id()),
            r@ == registry_of(old(self)@, namespace_id.id()),
    {
        match self.remove(namespace_id) {
            Some(registry) => registry,
            None => IdRegistry::new(),
        }
    }

    /// Names a workload of a namespace, whose registry is made where there is none.
    pub fn register_workload(&mut self, namespace_id: &NamespaceId, id: WorkloadId, name: String)
        ensures
            final(self)@ == old(self)@.insert(
                namespace_id.id(),
                registry_of(old(self)@, namespace_id.id()).with_workload(id, name),
            ),
    {
        let mut registry: IdRegistry = self.take(namespace_id);
        registry.register_workload(id, name);
        self.put(namespace_id, registry);
        assert(self@ =~= old(self)@.insert(namespace_id.id(), registry@));
    }

    /// Forgets a workload of a namespace and its pods.
    pub fn unregister_workload(&mut self, namespace_id: &NamespaceId, id: &WorkloadId)
        ensures
            final(self)@ == changed(
                old(self)@,
                namespace_id.id(),
                registry_of(old(self)@, namespace_id.id()).without_workload(*id),
            ),
    {
        if let Some(mut registry) = self.remove(namespace_id) {
            registry.unregister_workload(id);
            self.put(namespace_id, registry);
        }
        assert(self@ =~= changed(
            old(self)@,
            namespace_id.id(),
            registry_of(old(self)@, namespace_id.id()).without_workload(*id),
        ));
    }

    /// Names a service of a namespace, whose registry is made where there is none.
    pub fn register_service(&mut self, namespace_id: &NamespaceId, id: ServiceId, name: String)
        ensures
            final(self)@ == old(self)@.insert(
                namespace_id.id(),
                registry_of(old(self)@, namespace_id.id()).with_service(id, name),
            ),
    {
        let mut registry: IdRegistry = self.take(namespace_id);
        registry.register_service(id, name);
        self.put(namespace_id, registry);
        assert(self@ =~= old(self)@.insert(namespace_id.id(), registry@));
    }

    /// Forgets a service of a namespace and its endpoints.
    pub fn unregister_service(&mut self, namespace_id: &NamespaceId, id: &ServiceId)
        ensures
            final(self)@ == changed(
                old(self)@,
                namespace_id.id(),
                registry_of(old(self)@, namespace_id.id()).without_service(*id),
            ),
    {
        if let Some(mut registry) = self.remove(namespace_id) {
            registry.unregister_service(id);
            self.put(namespace_id, registry);
        }
        assert(self@ =~= changed(
            old(self)@,
            namespace_id.id(),
            registry_of(old(self)@, namespace_id.id()).without_service(*id),
        ));
    }

    /// Ties an endpoint of a namespace to its service. The registry is made where there is none.
    pub fn register_endpoint(
        &mut self,
        namespace_id: &NamespaceId,
        endpoint_id: EndpointId,
        service_id: ServiceId,
    )
        ensures
            final(self)@ == old(self)@.insert(
                namespace_id.id(),
                registry_of(old(self)@, namespace_id.id()).with_endpoint(endpoint_id, service_id),
            ),
    {
        let mut registry: IdRegistry = self.take(namespace_id);
        registry.register_endpoint(endpoint_id, service_id);
        self.put(namespace_id, registry);
        assert(self@ =~= old(self)@.insert(namespace_id.id(), registry@));
    }

    /// Ties a pod of a namespace to its workload. The registry is made where there is none.
    pub fn register_pod(
        &mut self,
        namespace_id: &NamespaceId,
        pod_id: PodId,
        workload_id: WorkloadId,
    )
        ensures
            final(self)@ == old(self)@.insert(
                namespace_id.id(),
                registry_of(old(self)@, namespace_id.id()).with_pod(pod_id, workload_id),
            ),
    {
        let mut registry: IdRegistry = self.take(namespace_id);
        registry.register_pod(pod_id, workload_id);
        self.put(namespace_id, registry);
        assert(self@ =~= old(self)@.insert(namespace_id.id(), registry@));
    }

    /// Forgets a pod of a namespace.
    pub fn unregister_pod(&mut self, namespace_id: &NamespaceId, pod_id: &PodId)
        ensures
            final(self)@ == changed(
                old(self)@,
                namespace_id.id(),
                registry_of(old(self)@, namespace_id.id()).without_pod(*pod_id),
            ),
    {
        if let Some(mut registry) = self.remove(namespace_id) {
            registry.unregister_pod(pod_id);
            self.put(namespace_id, registry);
        }
        assert(self@ =~= changed(
            old(self)@,
            namespace_id.id(),
            registry_of(old(self)@, namespace_id.id()).without_pod(*pod_id),
        ));
    }

    /// Forgets an endpoint of a namespace.
    pub fn unregister_endpoint(&mut self, namespace_id: &NamespaceId, endpoint_id: &EndpointId)
        ensures
            final(self)@ == changed(
                old(self)@,
                namespace_id.id(),
                registry_of(old(self)@, namespace_id.id()).without_endpoint(*endpoint_id),
            ),
    {
        if let Some(mut registry) = self.remove(namespace_id) {
            registry.unregister_endpoint(endpoint_id);
            self.put(namespace_id, registry);
        }
        assert(self@ =~= changed(
            old(self)@,
            namespace_id.id(),
            registry_of(old(self)@, namespace_id.id()).without_endpoint(*endpoint_id),
        ));
    }
}

/// The names of one namespace.
#[derive(Debug)]
pub struct IdRegistry {
    workload_names: SortedMap<WorkloadId, String>,
    service_names: SortedMap<ServiceId, String>,
    endpoint_to_service: SortedMap<EndpointId, ServiceId>,
    pod_to_workload: SortedMap<PodId, WorkloadId>,
}

/// What a registry knows.
#[verifier::ext_equal]
pub struct RegistryView {
    pub workload_names: Map<WorkloadId, String>,
    pub service_names: Map<ServiceId, String>,
    pub endpoint_to_service: Map<EndpointId, ServiceId>,
    pub pod_to_workload: Map<PodId, WorkloadId>,
}

impl RegistryView {
    pub open spec fn nothing() -> RegistryView {
        RegistryView {
            workload_names: Map::empty(),
            service_names: Map::empty(),
            endpoint_to_service: Map::empty(),
            pod_to_workload: Map::empty(),
        }
    }

    /// With a name for a workload.
    pub open spec fn with_workload(self, id: WorkloadId, name: String) -> RegistryView {
        RegistryView { workload_names: self.workload_names.insert(id, name), ..self }
    }

    /// With a name for a service.
    pub open spec fn with_service(self, id: ServiceId, name: String) -> RegistryView {
        RegistryView { service_names: self.service_names.insert(id, name), ..self }
    }

    /// With an endpoint of a service.
    pub open spec fn with_endpoint(
        self,
        endpoint_id: EndpointId,
        service_id: ServiceId,
    ) -> RegistryView {
        RegistryView {
            endpoint_to_service: self.endpoint_to_service.insert(endpoint_id, service_id),
            ..self
        }
    }

    /// With a pod of a workload.
    pub open spec fn with_pod(self, pod_id: PodId, workload_id: WorkloadId) -> RegistryView {
        RegistryView { pod_to_workload: self.pod_to_workload.insert(pod_id, workload_id), ..self }
    }

    /// Without a pod.
    pub open spec fn without_pod(self, pod_id: PodId) -> RegistryView {
        RegistryView { pod_to_workload: self.pod_to_workload.remove(pod_id), ..self }
    }

    /// Without an endpoint.
    pub open spec fn without_endpoint(self, endpoint_id: EndpointId) -> RegistryView {
        RegistryView { endpoint_to_service: self.endpoint_to_service.remove(endpoint_id), ..self }
    }

    /// Without a workload and its pods.
    pub open spec fn without_workload(self, id: WorkloadId) -> RegistryView {
        RegistryView {
            workload_names: self.workload_names.remove(id),
            pod_to_workload: restricted(
                self.pod_to_workload,
                |_p: PodId, w: WorkloadId| w != id,
            ),
            ..self
        }
    }

    /// Without a service and its endpoints.
    pub open spec fn without_service(self, id: ServiceId) -> RegistryView {
        RegistryView {
            service_names: self.service_names.remove(id),
            endpoint_to_service: restricted(
                self.endpoint_to_service,
                |_e: EndpointId, s: ServiceId| s != id,
            ),
            ..self
        }
    }

    /// The name of the workload that owns a pod.
    pub open spec fn name_of_pod(self, pod_id: PodId) -> Option<String> {
        if self.pod_to_workload.contains_key(pod_id) && self.workload_names.contains_key(
            self.pod_to_workload[pod_id],
        ) {
            Some(self.workload_names[self.pod_to_workload[pod_id]])
        } else {
            None
        }
    }

    /// The name of the service that owns an endpoint.
    pub open spec fn name_of_endpoint(self, endpoint_id: EndpointId) -> Option<String> {
        if self.endpoint_to_service.contains_key(endpoint_id) && self.service_names.contains_key(
            self.endpoint_to_service[endpoint_id],
        ) {
            Some(self.service_names[self.endpoint_to_service[endpoint_id]])
        } else {
            None
        }
    }
}

/// A table with the same entries.
fn copied<K: Key, V: Key>(table: &SortedMap<K, V>) -> (r: SortedMap<K, V>)
    ensures
        r.seq() == table.seq(),
{
    let same = |_k: &K, v: &V| -> (r: V)
        ensures
            r == *v,
        {
            v.duplicate()
        };
    let r = table.map_to(same);
    assert(r.seq() =~= table.seq());
    r
}

impl Clone for IdRegistry {
    /// A registry of its own that knows the same. What is registered in one of the two later on
    /// does not show in the other: names that others are to see are registered in the
    /// [`IdRegistryMap`].
    fn clone(&self) -> (r: Self)
        ensures
            r@ == self@,
    {
        IdRegistry {
            workload_names: copied(&self.workload_names),
            service_names: copied(&self.service_names),
            endpoint_to_service: copied(&self.endpoint_to_service),
            pod_to_workload: copied(&self.pod_to_workload),
        }
    }
}

impl IdRegistry {
    pub closed spec fn view(&self) -> RegistryView {
        RegistryView {
            workload_names: self.workload_names@,
            service_names: self.service_names@,
            endpoint_to_service: self.endpoint_to_service@,
            pod_to_workload: self.pod_to_workload@,
        }
    }

    pub fn new() -> (r: Self)
        ensures
            r@ == RegistryView::nothing(),
    {
        IdRegistry {
            workload_names: SortedMap::new(),
            service_names: SortedMap::new(),
            endpoint_to_service: SortedMap::new(),
            pod_to_workload: SortedMap::new(),
        }
    }

    /// Names a workload.
    pub fn register_workload(&mut self, id: WorkloadId, name: String)
        ensures
            final(self)@ == old(self)@.with_workload(id, name),
    {
        self.workload_names.insert(id, name);
    }

    /// Forgets a workload and its pods.
    pub fn unregister_workload(&mut self, id: &WorkloadId)
        ensures
            final(self)@ == old(self)@.without_workload(*id),
    {
        let ghost gone = *id;
        let _ = self.workload_names.remove(id);
        let test = |_p: &PodId, w: &WorkloadId| -> (r: bool)
            ensures
                r == (*w != *id),
            {
                !w.same(id)
            };
        self.pod_to_workload.retain(test, Ghost(|_p: PodId, w: WorkloadId| w != gone));
        assert(self@ =~= old(self)@.without_workload(*id));
    }

    /// Names a service.
    pub fn register_service(&mut self, id: ServiceId, name: String)
        ensures
            final(self)@ == old(self)@.with_service(id, name),
    {
        self.service_names.insert(id, name);
    }

    /// Forgets a service and its endpoints.
    pub fn unregister_service(&mut self, id: &ServiceId)
        ensures
            final(self)@ == old(self)@.without_service(*id),
    {
        let ghost gone = *id;
        let _ = self.service_names.remove(id);
        let test = |_e: &EndpointId, s: &ServiceId| -> (r: bool)
            ensures
                r == (*s != *id),
            {
                !s.same(id)
            };
        self.endpoint_to_service.retain(test, Ghost(|_e: EndpointId, s: ServiceId| s != gone));
        assert(self@ =~= old(self)@.without_service(*id));
    }

    /// Ties an endpoint to its service.
    pub fn register_endpoint(&mut self, endpoint_id: EndpointId, service_id: ServiceId)
        ensures
            final(self)@ == old(self)@.with_endpoint(endpoint_id, service_id),
    {
        self.endpoint_to_service.insert(endpoint_id, service_id);
    }

    /// Ties a pod to its workload.
    pub fn register_pod(&mut self, pod_id: PodId, workload_id: WorkloadId)
        ensures
            final(self)@ == old(self)@.with_pod(pod_id, workload_id),
    {
        self.pod_to_workload.insert(pod_id, workload_id);
    }

    /// Forgets a pod.
    pub fn unregister_pod(&mut self, pod_id: &PodId)
        ensures
            final(self)@ == old(self)@.without_pod(*pod_id),
    {
        let _ = self.pod_to_workload.remove(pod_id);
    }

    /// Forgets an endpoint.
    pub fn unregister_endpoint(&mut self, endpoint_id: &EndpointId)
        ensures
            final(self)@ == old(self)@.without_endpoint(*endpoint_id),
    {
        let _ = self.endpoint_to_service.remove(endpoint_id);
    }

    /// The name of a workload.
    pub fn workload_name(&self, id: &WorkloadId) -> (r: Option<String>)
        ensures
            r == (if self@.workload_names.contains_key(*id) {
                Some(self@.workload_names[*id])
            } else {
                None
            }),
    {
        match self.workload_names.get(id) {
            Some(name) => Some(name.clone()),
            None => None,
        }
    }

    /// The name of a service.
    pub fn service_name(&self, id: &ServiceId) -> (r: Option<String>)
        ensures
            r == (if self@.service_names.contains_key(*id) {
                Some(self@.service_names[*id])
            } else {
                None
            }),
    {
        match self.service_names.get(id) {
            Some(name) => Some(name.clone()),
            None => None,
        }
    }

    /// The name of the service that owns an endpoint.
    pub fn endpoint_service_name(&self, endpoint_id: &EndpointId) -> (r: Option<String>)
        ensures
            r == self@.name_of_endpoint(*endpoint_id),
    {
        match self.endpoint_to_service.get(endpoint_id) {
            Some(service_id) => self.service_name(service_id),
            None => None,
        }
    }

    /// The name of the workload that owns a pod.
    pub fn pod_workload_name(&self, pod_id: &PodId) -> (r: Option<String>)
        ensures
            r == self@.name_of_pod(*pod_id),
    {
        match self.pod_to_workload.get(pod_id) {
            Some(workload_id) => self.workload_name(workload_id),
            None => None,
        }
    }

    /// The workload that owns a pod.
    pub fn pod_workload_id(&self, pod_id: &PodId) -> (r: Option<WorkloadId>)
        ensures
            r == (if self@.pod_to_workload.contains_key(*pod_id) {
                Some(self@.pod_to_workload[*pod_id])
            } else {
                None
            }),
    {
        match self.pod_to_workload.get(pod_id) {
            Some(workload_id) => Some(*workload_id),
            None => None,
        }
    }

    /// The service that owns an endpoint.
    pub fn endpoint_service_id(&self, endpoint_id: &EndpointId) -> (r: Option<ServiceId>)
        ensures
            r == (if self@.endpoint_to_service.contains_key(*endpoint_id) {
                Some(self@.endpoint_to_service[*endpoint_id])
            } else {
                None
            }),
    {
        match self.endpoint_to_service.get(endpoint_id) {
            Some(service_id) => Some(*service_id),
            None => None,
        }
    }
}

/// A workload that is forgotten leaves no name and no pod behind, and takes nothing else with it.
pub proof fn law_unregister_workload(v: RegistryView, id: WorkloadId, pod_id: PodId)
    ensures
        !v.without_workload(id).workload_names.contains_key(id),
        v.without_workload(id).pod_to_workload.contains_key(pod_id) <==> (
        v.pod_to_workload.contains_key(pod_id) && v.pod_to_workload[pod_id] != id),
        v.pod_to_workload.contains_key(pod_id) && v.pod_to_workload[pod_id] != id
            ==> v.without_workload(id).name_of_pod(pod_id) == v.name_of_pod(pod_id),
        v.without_workload(id).service_names == v.service_names,
        v.without_workload(id).endpoint_to_service == v.endpoint_to_service,
{
}

/// A service that is forgotten leaves no name and no endpoint behind, and takes nothing else with it.
pub proof fn law_unregister_service(v: RegistryView, id: ServiceId, endpoint_id: EndpointId)
    ensures
        !v.without_service(id).service_names.contains_key(id),
        v.without_service(id).endpoint_to_service.contains_key(endpoint_id) <==> (
        v.endpoint_to_service.contains_key(endpoint_id) && v.endpoint_to_service[endpoint_id]
            != id),
        v.endpoint_to_service.contains_key(endpoint_id) && v.endpoint_to_service[endpoint_id] != id
            ==> v.without_service(id).name_of_endpoint(endpoint_id) == v.name_of_endpoint(
            endpoint_id,
        ),
        v.without_service(id).workload_names == v.workload_names,
        v.without_service(id).pod_to_workload == v.pod_to_workload,
{
}

/// What is registered for a namespace is read from its registry by all who ask the map for it, until
/// it is forgotten, and it leaves the registries of the other namespaces as they are.
pub proof fn law_registered_names_are_read(
    m: Map<Seq<char>, RegistryView>,
    namespace_id: Seq<char>,
    other: Seq<char>,
    id: WorkloadId,
    name: String,
    pod_id: PodId,
)
    requires
        other != namespace_id,
    ensures
        ({
            let named = m.insert(
                namespace_id,
                registry_of(m, namespace_id).with_workload(id, name),
            );
            let tied = named.insert(
                namespace_id,
                registry_of(named, namespace_id).with_pod(pod_id, id),
            );
            let gone = changed(
                tied,
                namespace_id,
                registry_of(tied, namespace_id).without_workload(id),
            );
            &&& named.contains_key(namespace_id) && named[namespace_id].workload_names[id] == name
            &&& tied[namespace_id].name_of_pod(pod_id) == Some(name)
            &&& !gone[namespace_id].workload_names.contains_key(id)
            &&& gone[namespace_id].name_of_pod(pod_id) is None
            &&& registry_of(gone, other) == registry_of(m, other)
            &&& gone.contains_key(other) <==> m.contains_key(other)
        }),
{
}

/// A pod that is tied to a workload has the workload's name, and an endpoint that is tied to a
/// service has the service's name, until they are untied. Nothing else is renamed.
pub proof fn law_ties_give_names(
    v: RegistryView,
    pod_id: PodId,
    workload_id: WorkloadId,
    endpoint_id: EndpointId,
    service_id: ServiceId,
    name: String,
)
    ensures
        v.with_workload(workload_id, name).with_pod(pod_id, workload_id).name_of_pod(pod_id)
            == Some(name),
        v.with_service(service_id, name).with_endpoint(
            endpoint_id,
            service_id,
        ).name_of_endpoint(endpoint_id) == Some(name),
        v.without_pod(pod_id).name_of_pod(pod_id) is None,
        v.without_endpoint(endpoint_id).name_of_endpoint(endpoint_id) is None,
        v.with_pod(pod_id, workload_id).service_names == v.service_names,
        v.with_pod(pod_id, workload_id).workload_names == v.workload_names,
        v.with_endpoint(endpoint_id, service_id).service_names == v.service_names,
        v.with_endpoint(endpoint_id, service_id).pod_to_workload == v.pod_to_workload,
        forall|p: PodId|
            p != pod_id ==> #[trigger] v.with_pod(pod_id, workload_id).name_of_pod(p)
                == v.name_of_pod(p),
        forall|p: PodId|
            p != pod_id ==> #[trigger] v.without_pod(pod_id).name_of_pod(p) == v.name_of_pod(p),
        forall|e: EndpointId|
            e != endpoint_id ==> #[trigger] v.with_endpoint(
                endpoint_id,
                service_id,
            ).name_of_endpoint(e) == v.name_of_endpoint(e),
        forall|e: EndpointId|
            e != endpoint_id ==> #[trigger] v.without_endpoint(endpoint_id).name_of_endpoint(e)
                == v.name_of_endpoint(e),
{
}

} // verus!
