//! Brings what a client asks for into the router.
use vstd::prelude::*;

use crate::adapter::names::{NameTable, NamesView};
use crate::ids::Named;
use crate::sm::{AdminCmd, ManagementId, ServiceId, ServiceSpec, WorkloadId, WorkloadSpec};
use crate::sorted_map::{as_map, has_key, increasing, Key, SortedMap};
use crate::types;
use crate::types::NamespaceSpec;

verus! {

/// A change to the router.
#[derive(Debug, PartialEq, Eq)]
pub enum ManagementOp {
    /// A new workload, and a port that manages it.
    CreateWorkload { port: ManagementId, workload_id: WorkloadId },
    /// A new service, and a port that manages it.
    CreateService { port: ManagementId, service_id: ServiceId, has_activation: bool },
    SetWorkloadSpec { port: ManagementId, spec: WorkloadSpec },
    SetServiceSpec { port: ManagementId, spec: ServiceSpec },
    /// The end of a port. What it manages ends with it.
    Destroy { port: ManagementId },
    SendAdminCommand { port: ManagementId, workload_id: WorkloadId, cmd: AdminCmd },
    SendActivateService { port: ManagementId, service_id: ServiceId, active: bool },
}

/// A change to the router, with its texts as characters.
#[verifier::ext_equal]
pub enum ManagementOpView {
    CreateWorkload { port: ManagementId, workload_id: WorkloadId },
    CreateService { port: ManagementId, service_id: ServiceId, has_activation: bool },
    SetWorkloadSpec { port: ManagementId, image: Seq<char> },
    SetServiceSpec { port: ManagementId, spec: ServiceSpec },
    Destroy { port: ManagementId },
    SendAdminCommand { port: ManagementId, workload_id: WorkloadId, cmd: AdminCmd },
    SendActivateService { port: ManagementId, service_id: ServiceId, active: bool },
}

impl ManagementOp {
    pub open spec fn view(&self) -> ManagementOpView {
        match *self {
            ManagementOp::CreateWorkload { port, workload_id } => {
                ManagementOpView::CreateWorkload { port, workload_id }
            },
            ManagementOp::CreateService { port, service_id, has_activation } => {
                ManagementOpView::CreateService { port, service_id, has_activation }
            },
            ManagementOp::SetWorkloadSpec { port, spec } => ManagementOpView::SetWorkloadSpec {
                port,
                image: spec.image@,
            },
            ManagementOp::SetServiceSpec { port, spec } => ManagementOpView::SetServiceSpec {
                port,
                spec,
            },
            ManagementOp::Destroy { port } => ManagementOpView::Destroy { port },
            ManagementOp::SendAdminCommand { port, workload_id, cmd } => {
                ManagementOpView::SendAdminCommand { port, workload_id, cmd }
            },
            ManagementOp::SendActivateService { port, service_id, active } => {
                ManagementOpView::SendActivateService { port, service_id, active }
            },
        }
    }
}

/// Changes to the router, with their texts as characters.
pub open spec fn op_views(ops: Seq<ManagementOp>) -> Seq<ManagementOpView> {
    ops.map_values(|op: ManagementOp| op@)
}

/// The names, the first free port, and the changes so far.
#[verifier::ext_equal]
pub struct Progress {
    pub table: NamesView,
    pub next: u64,
    pub ops: Seq<ManagementOpView>,
}

/// The image of a workload: that of its first container.
pub open spec fn image_of(spec: types::WorkloadSpec) -> Seq<char> {
    if spec.containers@.len() == 0 {
        seq![]
    } else {
        spec.containers@[0].image_ref@
    }
}

/// The image of a workload: that of its first container.
fn first_image(spec: &types::WorkloadSpec) -> (r: String)
    ensures
        r@ == image_of(*spec),
{
    if spec.containers.len() == 0 {
        let image: String = String::new();
        assert(image@ =~= seq![]);
        image
    } else {
        spec.containers[0].image_ref.clone()
    }
}

/// A service as its machine sees it. A workload that is not there has the number zero.
pub open spec fn service_spec(spec: types::ServiceSpec, workloads: Map<Seq<char>, u64>) -> ServiceSpec {
    ServiceSpec {
        workload: WorkloadId(
            if workloads.contains_key(spec.workload_id.0@) {
                workloads[spec.workload_id.0@]
            } else {
                0
            },
        ),
        has_activation: spec.activation is Some,
    }
}

/// How the router is told of things of one kind: that there is a new one behind a port, and what its
/// spec is.
#[verifier::reject_recursive_types(V)]
pub struct Kind<V> {
    pub create: spec_fn(u64, u64, V) -> ManagementOpView,
    pub tell: spec_fn(u64, V) -> ManagementOpView,
}

impl<V> Kind<V> {
    /// No port ends where something is brought in.
    pub open spec fn ends_nothing(self) -> bool {
        &&& forall|port: u64, id: u64, spec: V| !(#[trigger] (self.create)(port, id, spec) is Destroy)
        &&& forall|port: u64, spec: V| !(#[trigger] (self.tell)(port, spec) is Destroy)
    }
}

/// How the router is told of workloads.
pub open spec fn workload_kind() -> Kind<types::WorkloadSpec> {
    Kind {
        create: |port: u64, id: u64, _spec: types::WorkloadSpec|
            ManagementOpView::CreateWorkload {
                port: ManagementId(port),
                workload_id: WorkloadId(id),
            },
        tell: |port: u64, spec: types::WorkloadSpec|
            ManagementOpView::SetWorkloadSpec { port: ManagementId(port), image: image_of(spec) },
    }
}

/// How the router is told of services, given the numbers of the workloads.
pub open spec fn service_kind(workloads: Map<Seq<char>, u64>) -> Kind<types::ServiceSpec> {
    Kind {
        create: |port: u64, id: u64, spec: types::ServiceSpec|
            ManagementOpView::CreateService {
                port: ManagementId(port),
                service_id: ServiceId(id),
                has_activation: spec.activation is Some,
            },
        tell: |port: u64, spec: types::ServiceSpec|
            ManagementOpView::SetServiceSpec {
                port: ManagementId(port),
                spec: service_spec(spec, workloads),
            },
    }
}

/// A thing is brought in: created if its name is new, and told its spec.
pub open spec fn applied<V>(p: Progress, kind: Kind<V>, name: Seq<char>, spec: V) -> Progress {
    if p.table.ids.contains_key(name) {
        Progress {
            ops: p.ops.push((kind.tell)(p.table.ports[p.table.ids[name]], spec)),
            ..p
        }
    } else {
        Progress {
            table: p.table.with_name(name, p.next),
            next: (p.next + 1) as u64,
            ops: p.ops.push((kind.create)(p.next, p.table.next_id, spec)).push(
                (kind.tell)(p.next, spec),
            ),
        }
    }
}

/// Things are brought in, in order.
pub open spec fn all_applied<K: Named, V>(
    p: Progress,
    kind: Kind<V>,
    wanted: Seq<(K, V)>,
) -> Progress
    decreases wanted.len(),
{
    if wanted.len() == 0 {
        p
    } else {
        applied(
            all_applied(p, kind, wanted.drop_last()),
            kind,
            wanted.last().0.id(),
            wanted.last().1,
        )
    }
}

/// A name is given up, with its port.
pub open spec fn name_dropped(p: Progress, name: Seq<char>) -> Progress {
    if p.table.ids.contains_key(name) {
        Progress {
            table: p.table.without_name(name),
            ops: p.ops.push(
                ManagementOpView::Destroy {
                    port: ManagementId(p.table.ports[p.table.ids[name]]),
                },
            ),
            ..p
        }
    } else {
        p
    }
}

/// The names that are no longer wanted are given up, in order.
pub open spec fn names_dropped(p: Progress, before: Seq<Seq<char>>, wanted: Set<Seq<char>>) -> Progress
    decreases before.len(),
{
    if before.len() == 0 {
        p
    } else {
        let rest = names_dropped(p, before.drop_last(), wanted);
        if wanted.contains(before.last()) {
            rest
        } else {
            name_dropped(rest, before.last())
        }
    }
}

/// What there is of a namespace.
#[verifier::ext_equal]
pub struct ManagementView {
    pub workloads: NamesView,
    pub services: NamesView,
}

/// The names of the workloads that a client asked for.
pub open spec fn workload_names(spec: Option<&NamespaceSpec>) -> Seq<Seq<char>> {
    match spec {
        Some(s) => s.workloads.keys(),
        None => seq![],
    }
}

/// The names of the services that a client asked for.
pub open spec fn service_names(spec: Option<&NamespaceSpec>) -> Seq<Seq<char>> {
    match spec {
        Some(s) => s.services.keys(),
        None => seq![],
    }
}

/// How far things are once those of a kind are as wanted: first what is wanted is brought in, then
/// what no longer is is given up.
pub open spec fn settled<K: Named, V>(
    p: Progress,
    kind: Kind<V>,
    before: Seq<Seq<char>>,
    wanted: Seq<(K, V)>,
) -> Progress {
    names_dropped(all_applied(p, kind, wanted), before, as_map(wanted).dom())
}

/// How far things are once the workloads are as wanted.
pub open spec fn after_workloads(
    before: ManagementView,
    next: u64,
    old_spec: Option<&NamespaceSpec>,
    new_spec: &NamespaceSpec,
) -> Progress {
    settled(
        Progress { table: before.workloads, next, ops: seq![] },
        workload_kind(),
        workload_names(old_spec),
        new_spec.workloads.seq(),
    )
}

/// How far things are once the services are as wanted too.
pub open spec fn after_services(
    before: ManagementView,
    next: u64,
    old_spec: Option<&NamespaceSpec>,
    new_spec: &NamespaceSpec,
) -> Progress {
    let w = after_workloads(before, next, old_spec, new_spec);
    settled(
        Progress { table: before.services, next: w.next, ops: w.ops },
        service_kind(w.table.ids),
        service_names(old_spec),
        new_spec.services.seq(),
    )
}

/// Brings things of a kind in, in order.
fn apply_all<
    K: Named,
    V,
    C: Fn(u64, u64, &V) -> ManagementOp,
    T: Fn(u64, &V) -> ManagementOp,
>(
    table: &mut NameTable,
    wanted: &SortedMap<K, V>,
    create: C,
    tell: T,
    next: &mut u64,
    ops: &mut Vec<ManagementOp>,
    Ghost(kind): Ghost<Kind<V>>,
)
    requires
        old(table)@.sound(),
        old(table)@.next_id + wanted.seq().len() <= u64::MAX,
        *old(next) + wanted.seq().len() <= u64::MAX,
        forall|port: u64, id: u64, spec: &V| #[trigger] call_requires(create, (port, id, spec)),
        forall|port: u64, id: u64, spec: &V, op: ManagementOp| #[trigger]
            call_ensures(create, (port, id, spec), op) ==> op@ == (kind.create)(port, id, *spec),
        forall|port: u64, spec: &V| #[trigger] call_requires(tell, (port, spec)),
        forall|port: u64, spec: &V, op: ManagementOp| #[trigger]
            call_ensures(tell, (port, spec), op) ==> op@ == (kind.tell)(port, *spec),
    ensures
        final(table)@.sound(),
        *old(next) <= *final(next) <= *old(next) + wanted.seq().len(),
        (Progress { table: final(table)@, next: *final(next), ops: op_views(final(ops)@) })
            == all_applied(
            Progress { table: old(table)@, next: *old(next), ops: op_views(old(ops)@) },
            kind,
            wanted.seq(),
        ),
{
    let ghost s = wanted.seq();
    let ghost start = Progress { table: table@, next: *next, ops: op_views(ops@) };
    let n: usize = wanted.len();
    let mut i: usize = 0;
    assert(s.take(0) =~= Seq::<(K, V)>::empty());
    while i < n
        invariant
            i <= n,
            n == s.len(),
            s == wanted.seq(),
            table@.sound(),
            start.table.next_id + n <= u64::MAX,
            start.next + n <= u64::MAX,
            table@.next_id <= start.table.next_id + i,
            start.next <= *next <= start.next + i,
            (Progress { table: table@, next: *next, ops: op_views(ops@) }) == all_applied(
                start,
                kind,
                s.take(i as int),
            ),
            forall|port: u64, id: u64, spec: &V| #[trigger] call_requires(create, (port, id, spec)),
            forall|port: u64, id: u64, spec: &V, op: ManagementOp| #[trigger]
                call_ensures(create, (port, id, spec), op) ==> op@ == (kind.create)(
                    port,
                    id,
                    *spec,
                ),
            forall|port: u64, spec: &V| #[trigger] call_requires(tell, (port, spec)),
            forall|port: u64, spec: &V, op: ManagementOp| #[trigger]
                call_ensures(tell, (port, spec), op) ==> op@ == (kind.tell)(port, *spec),
        decreases n - i,
    {
        assert(s.take(i + 1).drop_last() =~= s.take(i as int));
        assert(s.take(i + 1).last() == s[i as int]);
        let ghost before = Progress { table: table@, next: *next, ops: op_views(ops@) };
        let name: &String = wanted.key_at(i).name();
        let spec: &V = wanted.value_at(i);
        let port: u64 = match table.id_of(name) {
            Some(id) => {
                assert(table@.names.contains_key(id));
                match table.port_of(id) {
                    Some(p) => p,
                    None => 0,
                }
            },
            None => {
                let port: u64 = *next;
                *next = *next + 1;
                let id: u64 = table.enroll(name, port);
                ops.push(create(port, id, spec));
                port
            },
        };
        ops.push(tell(port, spec));
        assert(op_views(ops@) =~= applied(before, kind, name@, *spec).ops);
        i = i + 1;
    }
    assert(s.take(i as int) =~= s);
}

/// Gives the names up that are no longer wanted, in order.
fn drop_names<K: Named, V>(
    table: &mut NameTable,
    before: &SortedMap<K, V>,
    wanted: &SortedMap<K, V>,
    Ghost(next): Ghost<u64>,
    ops: &mut Vec<ManagementOp>,
)
    requires
        old(table)@.sound(),
    ensures
        final(table)@.sound(),
        (Progress { table: final(table)@, next, ops: op_views(final(ops)@) }) == names_dropped(
            Progress { table: old(table)@, next, ops: op_views(old(ops)@) },
            before.keys(),
            wanted@.dom(),
        ),
{
    let ghost s = before.keys();
    let ghost start = Progress { table: table@, next, ops: op_views(ops@) };
    let n: usize = before.len();
    let mut i: usize = 0;
    assert(s.take(0) =~= Seq::<Seq<char>>::empty());
    while i < n
        invariant
            i <= n,
            n == s.len(),
            n == before.seq().len(),
            s == before.keys(),
            table@.sound(),
            (Progress { table: table@, next, ops: op_views(ops@) }) == names_dropped(
                start,
                s.take(i as int),
                wanted@.dom(),
            ),
        decreases n - i,
    {
        assert(s.take(i + 1).drop_last() =~= s.take(i as int));
        let name: &K = before.key_at(i);
        assert(s.take(i + 1).last() == name.id());
        if !wanted.contains_key(name) {
            let ghost mid = op_views(ops@);
            if let Some(port) = table.dismiss(name.name()) {
                ops.push(ManagementOp::Destroy { port: ManagementId(port) });
                assert(op_views(ops@) =~= mid.push(
                    ManagementOpView::Destroy { port: ManagementId(port) },
                ));
            }
        }
        i = i + 1;
    }
    assert(s.take(i as int) =~= s);
}

/// What a client asks for, and the numbers and ports that stand for it.
pub struct ManagementAdapter {
    workloads: NameTable,
    services: NameTable,
}

impl ManagementAdapter {
    pub closed spec fn view(&self) -> ManagementView {
        ManagementView { workloads: self.workloads@, services: self.services@ }
    }

    pub open spec fn sound(&self) -> bool {
        self@.workloads.sound() && self@.services.sound()
    }

    /// The workloads in the order of their names.
    pub closed spec fn workload_seq(&self) -> Seq<(String, u64)> {
        self.workloads.seq()
    }

    /// The services in the order of their names.
    pub closed spec fn service_seq(&self) -> Seq<(String, u64)> {
        self.services.seq()
    }

    pub fn new() -> (r: Self)
        ensures
            r.sound(),
            r@.workloads.next_id == 1,
            r@.services.next_id == 1,
            r@.workloads.ids == Map::<Seq<char>, u64>::empty(),
            r@.services.ids == Map::<Seq<char>, u64>::empty(),
            r.workload_seq() == Seq::<(String, u64)>::empty(),
            r.service_seq() == Seq::<(String, u64)>::empty(),
    {
        ManagementAdapter { workloads: NameTable::new(), services: NameTable::new() }
    }

    /// Brings in a new spec: workloads first, then services, and in each kind first what is wanted,
    /// then what no longer is. New ports take numbers from `next` on.
    pub fn apply_namespace_spec(
        &mut self,
        old_spec: Option<&NamespaceSpec>,
        new_spec: &NamespaceSpec,
        next: &mut u64,
    ) -> (r: Vec<ManagementOp>)
        requires
            old(self).sound(),
            old(self)@.workloads.next_id + new_spec.workloads.seq().len() <= u64::MAX,
            old(self)@.services.next_id + new_spec.services.seq().len() <= u64::MAX,
            *old(next) + new_spec.workloads.seq().len() + new_spec.services.seq().len()
                <= u64::MAX,
        ensures
            final(self).sound(),
            final(self)@.workloads == after_workloads(
                old(self)@,
                *old(next),
                old_spec,
                new_spec,
            ).table,
            final(self)@.services == after_services(
                old(self)@,
                *old(next),
                old_spec,
                new_spec,
            ).table,
            *final(next) == after_services(old(self)@, *old(next), old_spec, new_spec).next,
            *final(next) >= *old(next),
            op_views(r@) == after_services(old(self)@, *old(next), old_spec, new_spec).ops,
    {
        let mut ops: Vec<ManagementOp> = Vec::new();
        assert(op_views(ops@) =~= seq![]);
        let create = |port: u64, id: u64, _spec: &types::WorkloadSpec| -> (r: ManagementOp)
            ensures
                r@ == (workload_kind().create)(port, id, *_spec),
            {
                ManagementOp::CreateWorkload {
                    port: ManagementId(port),
                    workload_id: WorkloadId(id),
                }
            };
        let tell = |port: u64, spec: &types::WorkloadSpec| -> (r: ManagementOp)
            ensures
                r@ == (workload_kind().tell)(port, *spec),
            {
                let image: String = first_image(spec);
                ManagementOp::SetWorkloadSpec {
                    port: ManagementId(port),
                    spec: WorkloadSpec { image },
                }
            };
        apply_all(
            &mut self.workloads,
            &new_spec.workloads,
            create,
            tell,
            next,
            &mut ops,
            Ghost(workload_kind()),
        );
        let ghost n1 = *next;
        match old_spec {
            Some(o) => {
                drop_names(
                    &mut self.workloads,
                    &o.workloads,
                    &new_spec.workloads,
                    Ghost(n1),
                    &mut ops,
                );
            },
            None => {},
        }
        proof {
            lemma_dropped_next(
                all_applied(
                    Progress { table: old(self)@.workloads, next: *old(next), ops: seq![] },
                    workload_kind(),
                    new_spec.workloads.seq(),
                ),
                workload_names(old_spec),
                new_spec.workloads@.dom(),
            );
        }
        let workloads: &NameTable = &self.workloads;
        let create = |port: u64, id: u64, spec: &types::ServiceSpec| -> (r: ManagementOp)
            ensures
                r@ == (service_kind(workloads@.ids).create)(port, id, *spec),
            {
                ManagementOp::CreateService {
                    port: ManagementId(port),
                    service_id: ServiceId(id),
                    has_activation: spec.activation.is_some(),
                }
            };
        let tell = |port: u64, spec: &types::ServiceSpec| -> (r: ManagementOp)
            ensures
                r@ == (service_kind(workloads@.ids).tell)(port, *spec),
            {
                let workload: u64 = match workloads.id_of(&spec.workload_id.0) {
                    Some(id) => id,
                    None => 0,
                };
                ManagementOp::SetServiceSpec {
                    port: ManagementId(port),
                    spec: ServiceSpec {
                        workload: WorkloadId(workload),
                        has_activation: spec.activation.is_some(),
                    },
                }
            };
        apply_all(
            &mut self.services,
            &new_spec.services,
            create,
            tell,
            next,
            &mut ops,
            Ghost(service_kind(workloads@.ids)),
        );
        let ghost n2 = *next;
        match old_spec {
            Some(o) => {
                drop_names(
                    &mut self.services,
                    &o.services,
                    &new_spec.services,
                    Ghost(n2),
                    &mut ops,
                );
            },
            None => {},
        }
        ops
    }

    /// The number of a workload.
    pub fn lookup_workload(&self, proto_name: &String) -> (r: Option<WorkloadId>)
        ensures
            r == (if self@.workloads.ids.contains_key(proto_name@) {
                Some(WorkloadId(self@.workloads.ids[proto_name@]))
            } else {
                None
            }),
    {
        match self.workloads.id_of(proto_name) {
            Some(id) => Some(WorkloadId(id)),
            None => None,
        }
    }

    /// The number of a service.
    pub fn lookup_service(&self, proto_name: &String) -> (r: Option<ServiceId>)
        ensures
            r == (if self@.services.ids.contains_key(proto_name@) {
                Some(ServiceId(self@.services.ids[proto_name@]))
            } else {
                None
            }),
    {
        match self.services.id_of(proto_name) {
            Some(id) => Some(ServiceId(id)),
            None => None,
        }
    }

    /// The name of a workload.
    pub fn workload_proto_name(&self, id: WorkloadId) -> (r: Option<&String>)
        ensures
            match r {
                Some(n) => self@.workloads.names.contains_key(id.0) && n@
                    == self@.workloads.names[id.0],
                None => !self@.workloads.names.contains_key(id.0),
            },
    {
        self.workloads.name_of(id.0)
    }

    /// The name of a service.
    pub fn service_proto_name(&self, id: ServiceId) -> (r: Option<&String>)
        ensures
            match r {
                Some(n) => self@.services.names.contains_key(id.0) && n@
                    == self@.services.names[id.0],
                None => !self@.services.names.contains_key(id.0),
            },
    {
        self.services.name_of(id.0)
    }

    /// The numbers that the next workload and the next service get.
    pub fn next_ids(&self) -> (r: (u64, u64))
        ensures
            r.0 == self@.workloads.next_id,
            r.1 == self@.services.next_id,
    {
        (self.workloads.next_id(), self.services.next_id())
    }

    /// How many workloads there are.
    pub fn workload_count(&self) -> (r: usize)
        ensures
            r == self.workload_seq().len(),
            self@.workloads.ids == as_map(self.workload_seq()),
            increasing(self.workload_seq()),
    {
        self.workloads.len()
    }

    /// A workload by its place in the order of names.
    pub fn workload_at(&self, i: usize) -> (r: (&String, WorkloadId))
        requires
            i < self.workload_seq().len(),
        ensures
            *r.0 == self.workload_seq()[i as int].0,
            r.1 == WorkloadId(self.workload_seq()[i as int].1),
            self@.workloads.ids == as_map(self.workload_seq()),
            increasing(self.workload_seq()),
    {
        let (name, id) = self.workloads.at(i);
        (name, WorkloadId(id))
    }

    /// How many services there are.
    pub fn service_count(&self) -> (r: usize)
        ensures
            r == self.service_seq().len(),
            self@.services.ids == as_map(self.service_seq()),
            increasing(self.service_seq()),
    {
        self.services.len()
    }

    /// A service by its place in the order of names.
    pub fn service_at(&self, i: usize) -> (r: (&String, ServiceId))
        requires
            i < self.service_seq().len(),
        ensures
            *r.0 == self.service_seq()[i as int].0,
            r.1 == ServiceId(self.service_seq()[i as int].1),
            self@.services.ids == as_map(self.service_seq()),
            increasing(self.service_seq()),
    {
        let (name, id) = self.services.at(i);
        (name, ServiceId(id))
    }

    /// Passes a command on to a workload. A name that is not known is ignored.
    pub fn send_admin_command(&self, workload_name: &String, cmd: AdminCmd) -> (r: Vec<
        ManagementOp,
    >)
        requires
            self.sound(),
        ensures
            op_views(r@) == commanded(self@.workloads, workload_name@, cmd),
    {
        let mut ops: Vec<ManagementOp> = Vec::new();
        if let Some(id) = self.workloads.id_of(workload_name) {
            assert(self@.workloads.names.contains_key(id));
            if let Some(port) = self.workloads.port_of(id) {
                ops.push(
                    ManagementOp::SendAdminCommand {
                        port: ManagementId(port),
                        workload_id: WorkloadId(id),
                        cmd,
                    },
                );
            }
        }
        assert(op_views(ops@) =~= commanded(self@.workloads, workload_name@, cmd));
        ops
    }

    /// Switches a service on or off. A name that is not known is ignored.
    pub fn send_activate_service(&self, service_name: &String, active: bool) -> (r: Vec<
        ManagementOp,
    >)
        requires
            self.sound(),
        ensures
            op_views(r@) == switched(self@.services, service_name@, active),
    {
        let mut ops: Vec<ManagementOp> = Vec::new();
        if let Some(id) = self.services.id_of(service_name) {
            assert(self@.services.names.contains_key(id));
            if let Some(port) = self.services.port_of(id) {
                ops.push(
                    ManagementOp::SendActivateService {
                        port: ManagementId(port),
                        service_id: ServiceId(id),
                        active,
                    },
                );
            }
        }
        assert(op_views(ops@) =~= switched(self@.services, service_name@, active));
        ops
    }
}

/// A command for a workload.
pub open spec fn commanded(table: NamesView, name: Seq<char>, cmd: AdminCmd) -> Seq<
    ManagementOpView,
> {
    if table.ids.contains_key(name) {
        seq![
            ManagementOpView::SendAdminCommand {
                port: ManagementId(table.ports[table.ids[name]]),
                workload_id: WorkloadId(table.ids[name]),
                cmd,
            },
        ]
    } else {
        seq![]
    }
}

/// A switch of a service.
pub open spec fn switched(table: NamesView, name: Seq<char>, active: bool) -> Seq<
    ManagementOpView,
> {
    if table.ids.contains_key(name) {
        seq![
            ManagementOpView::SendActivateService {
                port: ManagementId(table.ports[table.ids[name]]),
                service_id: ServiceId(table.ids[name]),
                active,
            },
        ]
    } else {
        seq![]
    }
}

proof fn lemma_dropped_next(p: Progress, before: Seq<Seq<char>>, wanted: Set<Seq<char>>)
    ensures
        names_dropped(p, before, wanted).next == p.next,
    decreases before.len(),
{
    if before.len() > 0 {
        lemma_dropped_next(p, before.drop_last(), wanted);
    }
}

proof fn lemma_last_or_rest<K: Key, V>(s: Seq<(K, V)>, n: K::Id)
    requires
        s.len() > 0,
    ensures
        has_key(s, n) <==> has_key(s.drop_last(), n) || s.last().0.id() == n,
{
    let rest = s.drop_last();
    if has_key(s, n) {
        let i = choose|i: int| 0 <= i < s.len() && (#[trigger] s[i]).0.id() == n;
        if i < rest.len() {
            assert(rest[i] == s[i]);
        }
    }
    if has_key(rest, n) {
        let i = choose|i: int| 0 <= i < rest.len() && (#[trigger] rest[i]).0.id() == n;
        assert(s[i] == rest[i]);
    }
    assert(s[s.len() - 1] == s.last());
}

proof fn lemma_applied_named<K: Named, V>(
    p: Progress,
    kind: Kind<V>,
    wanted: Seq<(K, V)>,
    n: Seq<char>,
)
    ensures
        all_applied(p, kind, wanted).table.ids.contains_key(n) <==> p.table.ids.contains_key(n)
            || has_key(wanted, n),
        p.table.ids.contains_key(n) ==> all_applied(p, kind, wanted).table.ids[n]
            == p.table.ids[n],
    decreases wanted.len(),
{
    if wanted.len() > 0 {
        lemma_applied_named(p, kind, wanted.drop_last(), n);
        lemma_last_or_rest(wanted, n);
    }
}

proof fn lemma_dropped_named(
    p: Progress,
    before: Seq<Seq<char>>,
    wanted: Set<Seq<char>>,
    n: Seq<char>,
)
    ensures
        names_dropped(p, before, wanted).table.ids.contains_key(n) <==> p.table.ids.contains_key(n)
            && (wanted.contains(n) || !before.contains(n)),
        names_dropped(p, before, wanted).table.ids.contains_key(n) ==> names_dropped(
            p,
            before,
            wanted,
        ).table.ids[n] == p.table.ids[n],
    decreases before.len(),
{
    if before.len() > 0 {
        let rest = before.drop_last();
        lemma_dropped_named(p, rest, wanted, n);
        if before.contains(n) {
            let i = before.index_of(n);
            if i < rest.len() {
                assert(rest[i] == n);
            }
        }
        if rest.contains(n) {
            let i = rest.index_of(n);
            assert(before[i] == n);
        }
        assert(before[before.len() - 1] == before.last());
    }
}

/// What the names of a kind come to, one name at a time.
proof fn lemma_settled_named<K: Named, V>(
    p: Progress,
    kind: Kind<V>,
    before: Seq<Seq<char>>,
    wanted: Seq<(K, V)>,
    n: Seq<char>,
)
    ensures
        ({
            let ids = settled(p, kind, before, wanted).table.ids;
            &&& ids.contains_key(n) <==> (p.table.ids.contains_key(n) || has_key(wanted, n)) && (
            as_map(wanted).contains_key(n) || !before.contains(n))
            &&& ids.contains_key(n) && p.table.ids.contains_key(n) ==> ids[n] == p.table.ids[n]
        }),
{
    lemma_applied_named(p, kind, wanted, n);
    lemma_dropped_named(all_applied(p, kind, wanted), before, as_map(wanted).dom(), n);
}

/// What the names come to, one name at a time.
proof fn lemma_named(
    before: ManagementView,
    next: u64,
    old_spec: Option<&NamespaceSpec>,
    new_spec: &NamespaceSpec,
    n: Seq<char>,
)
    ensures
        ({
            let w = after_workloads(before, next, old_spec, new_spec).table.ids;
            &&& w.contains_key(n) <==> (before.workloads.ids.contains_key(n) || has_key(
                new_spec.workloads.seq(),
                n,
            )) && (new_spec.workloads@.contains_key(n) || !workload_names(old_spec).contains(n))
            &&& w.contains_key(n) && before.workloads.ids.contains_key(n) ==> w[n]
                == before.workloads.ids[n]
        }),
        ({
            let s = after_services(before, next, old_spec, new_spec).table.ids;
            &&& s.contains_key(n) <==> (before.services.ids.contains_key(n) || has_key(
                new_spec.services.seq(),
                n,
            )) && (new_spec.services@.contains_key(n) || !service_names(old_spec).contains(n))
            &&& s.contains_key(n) && before.services.ids.contains_key(n) ==> s[n]
                == before.services.ids[n]
        }),
{
    let p = Progress { table: before.workloads, next, ops: seq![] };
    lemma_settled_named(p, workload_kind(), workload_names(old_spec), new_spec.workloads.seq(), n);
    let w = after_workloads(before, next, old_spec, new_spec);
    let q = Progress { table: before.services, next: w.next, ops: w.ops };
    lemma_settled_named(
        q,
        service_kind(w.table.ids),
        service_names(old_spec),
        new_spec.services.seq(),
        n,
    );
}

/// The lists of workloads and services hold the names in use, with their numbers.
pub proof fn law_lists_hold_the_names_in_use(adapter: &ManagementAdapter)
    ensures
        adapter@.workloads.ids == as_map(adapter.workload_seq()),
        adapter@.services.ids == as_map(adapter.service_seq()),
{
    adapter.workloads.lemma_listed();
    adapter.services.lemma_listed();
}

/// Where the names in use are those of the spec that was brought in last, they are those of the new
/// spec once that is brought in.
pub proof fn law_names_match_spec(
    before: ManagementView,
    next: u64,
    old_spec: Option<&NamespaceSpec>,
    new_spec: &NamespaceSpec,
)
    requires
        forall|n: Seq<char>|
            before.workloads.ids.contains_key(n) <==> workload_names(old_spec).contains(n),
        forall|n: Seq<char>|
            before.services.ids.contains_key(n) <==> service_names(old_spec).contains(n),
    ensures
        after_workloads(before, next, old_spec, new_spec).table.ids.dom()
            == new_spec.workloads@.dom(),
        after_services(before, next, old_spec, new_spec).table.ids.dom()
            == new_spec.services@.dom(),
{
    let w = after_workloads(before, next, old_spec, new_spec).table.ids;
    let s = after_services(before, next, old_spec, new_spec).table.ids;
    assert forall|n: Seq<char>| w.contains_key(n) <==> new_spec.workloads@.contains_key(n) by {
        lemma_named(before, next, old_spec, new_spec, n);
    }
    assert forall|n: Seq<char>| s.contains_key(n) <==> new_spec.services@.contains_key(n) by {
        lemma_named(before, next, old_spec, new_spec, n);
    }
    assert(w.dom() =~= new_spec.workloads@.dom());
    assert(s.dom() =~= new_spec.services@.dom());
}

/// A name that is in use before and after a spec is brought in keeps its number.
pub proof fn law_numbers_are_kept(
    before: ManagementView,
    next: u64,
    old_spec: Option<&NamespaceSpec>,
    new_spec: &NamespaceSpec,
    name: Seq<char>,
)
    ensures
        before.workloads.ids.contains_key(name) && after_workloads(
            before,
            next,
            old_spec,
            new_spec,
        ).table.ids.contains_key(name) ==> after_workloads(
            before,
            next,
            old_spec,
            new_spec,
        ).table.ids[name] == before.workloads.ids[name],
        before.services.ids.contains_key(name) && after_services(
            before,
            next,
            old_spec,
            new_spec,
        ).table.ids.contains_key(name) ==> after_services(
            before,
            next,
            old_spec,
            new_spec,
        ).table.ids[name] == before.services.ids[name],
{
    lemma_named(before, next, old_spec, new_spec, name);
}

/// The number of a name leads back to the name, and no two names share a number.
pub proof fn law_names_and_numbers_agree(table: NamesView, name: Seq<char>, other: Seq<char>)
    requires
        table.sound(),
        table.ids.contains_key(name),
        table.ids.contains_key(other),
    ensures
        table.names.contains_key(table.ids[name]),
        table.names[table.ids[name]] == name,
        table.ids[name] == table.ids[other] ==> name == other,
{
}

/// A port is given up among some changes.
pub open spec fn gives_up(ops: Seq<ManagementOpView>, port: u64) -> bool {
    ops.contains(ManagementOpView::Destroy { port: ManagementId(port) })
}

/// The port of a name that was wanted before and no longer is.
pub open spec fn no_longer_wanted(
    table: NamesView,
    before: Seq<Seq<char>>,
    wanted: Set<Seq<char>>,
    port: u64,
) -> bool {
    exists|n: Seq<char>| #[trigger]
        before.contains(n) && !wanted.contains(n) && table.ids.contains_key(n)
            && table.ports[table.ids[n]] == port
}

/// Names that stay keep their numbers and ports.
spec fn keeps(a: NamesView, b: NamesView) -> bool {
    forall|n: Seq<char>| #[trigger]
        b.ids.contains_key(n) && a.ids.contains_key(n) ==> b.ids[n] == a.ids[n]
            && b.ports[b.ids[n]] == a.ports[a.ids[n]]
}

proof fn lemma_one_more(ops: Seq<ManagementOpView>, op: ManagementOpView, port: u64)
    ensures
        gives_up(ops.push(op), port) <==> gives_up(ops, port) || op == (ManagementOpView::Destroy {
            port: ManagementId(port),
        }),
{
    let d = ManagementOpView::Destroy { port: ManagementId(port) };
    let all = ops.push(op);
    if ops.contains(d) {
        let i = ops.index_of(d);
        assert(all[i] == d);
    }
    if op == d {
        assert(all[ops.len() as int] == d);
    }
    if all.contains(d) {
        let i = all.index_of(d);
        if i < ops.len() {
            assert(ops[i] == d);
        }
    }
}

proof fn lemma_named_once_more(t: NamesView, name: Seq<char>, port: u64)
    requires
        t.sound(),
        !t.ids.contains_key(name),
        t.next_id < u64::MAX,
    ensures
        t.with_name(name, port).sound(),
        keeps(t, t.with_name(name, port)),
{
    let u = t.with_name(name, port);
    assert forall|n: Seq<char>| #[trigger] u.ids.contains_key(n) && t.ids.contains_key(n) implies u.ids[n]
        == t.ids[n] && u.ports[u.ids[n]] == t.ports[t.ids[n]] by {
        assert(t.names.contains_key(t.ids[n]));
    }
}

proof fn lemma_name_given_up(t: NamesView, name: Seq<char>)
    requires
        t.sound(),
    ensures
        t.without_name(name).sound(),
        keeps(t, t.without_name(name)),
{
    let u = t.without_name(name);
    assert forall|n: Seq<char>| #[trigger] u.ids.contains_key(n) && t.ids.contains_key(n) implies u.ids[n]
        == t.ids[n] && u.ports[u.ids[n]] == t.ports[t.ids[n]] by {
        assert(t.names.contains_key(t.ids[n]));
    }
}

proof fn lemma_all_applied<K: Named, V>(p: Progress, kind: Kind<V>, wanted: Seq<(K, V)>)
    requires
        p.table.sound(),
        p.table.next_id + wanted.len() <= u64::MAX,
        kind.ends_nothing(),
    ensures
        all_applied(p, kind, wanted).table.sound(),
        all_applied(p, kind, wanted).table.next_id <= p.table.next_id + wanted.len(),
        keeps(p.table, all_applied(p, kind, wanted).table),
        forall|n: Seq<char>| #[trigger]
            p.table.ids.contains_key(n) ==> all_applied(p, kind, wanted).table.ids.contains_key(n),
        forall|port: u64| #[trigger]
            gives_up(all_applied(p, kind, wanted).ops, port) <==> gives_up(p.ops, port),
    decreases wanted.len(),
{
    if wanted.len() > 0 {
        let q = all_applied(p, kind, wanted.drop_last());
        let r = all_applied(p, kind, wanted);
        let spec = wanted.last().1;
        lemma_all_applied(p, kind, wanted.drop_last());
        let name = wanted.last().0.id();
        if !q.table.ids.contains_key(name) {
            lemma_named_once_more(q.table, name, q.next);
        }
        assert forall|n: Seq<char>| #[trigger] p.table.ids.contains_key(n) implies r.table.ids.contains_key(
            n,
        ) && r.table.ids[n] == p.table.ids[n] && r.table.ports[r.table.ids[n]]
            == p.table.ports[p.table.ids[n]] by {
            assert(q.table.ids.contains_key(n));
            assert(r.table.ids.contains_key(n));
        }
        assert forall|port: u64| #[trigger] gives_up(r.ops, port) <==> gives_up(p.ops, port) by {
            if q.table.ids.contains_key(name) {
                lemma_one_more(q.ops, (kind.tell)(q.table.ports[q.table.ids[name]], spec), port);
            } else {
                let made = (kind.create)(q.next, q.table.next_id, spec);
                lemma_one_more(q.ops, made, port);
                lemma_one_more(q.ops.push(made), (kind.tell)(q.next, spec), port);
            }
            assert(gives_up(q.ops, port) <==> gives_up(p.ops, port));
        }
    }
}

/// What settling things of a kind comes to: the ports that are given up are those of names that were
/// wanted before and no longer are.
proof fn lemma_settled<K: Named, V>(
    p: Progress,
    kind: Kind<V>,
    before: Seq<Seq<char>>,
    wanted: Seq<(K, V)>,
)
    requires
        p.table.sound(),
        p.table.next_id + wanted.len() <= u64::MAX,
        kind.ends_nothing(),
        forall|n: Seq<char>| p.table.ids.contains_key(n) <==> before.contains(n),
    ensures
        settled(p, kind, before, wanted).table.sound(),
        forall|port: u64| #[trigger]
            gives_up(settled(p, kind, before, wanted).ops, port) <==> gives_up(p.ops, port)
                || no_longer_wanted(p.table, before, as_map(wanted).dom(), port),
{
    let q = all_applied(p, kind, wanted);
    lemma_all_applied(p, kind, wanted);
    lemma_names_dropped(q, before, as_map(wanted).dom());
    assert forall|port: u64| #[trigger]
        gives_up(settled(p, kind, before, wanted).ops, port) <==> gives_up(p.ops, port)
            || no_longer_wanted(p.table, before, as_map(wanted).dom(), port) by {
        lemma_same_unwanted(p.table, q.table, before, as_map(wanted).dom(), port);
        assert(gives_up(q.ops, port) <==> gives_up(p.ops, port));
    }
}

proof fn lemma_names_dropped(p: Progress, before: Seq<Seq<char>>, wanted: Set<Seq<char>>)
    requires
        p.table.sound(),
    ensures
        names_dropped(p, before, wanted).table.sound(),
        keeps(p.table, names_dropped(p, before, wanted).table),
        forall|port: u64| #[trigger]
            gives_up(names_dropped(p, before, wanted).ops, port) <==> gives_up(p.ops, port)
                || no_longer_wanted(p.table, before, wanted, port),
    decreases before.len(),
{
    if before.len() > 0 {
        let rest = before.drop_last();
        let q = names_dropped(p, rest, wanted);
        let r = names_dropped(p, before, wanted);
        let name = before.last();
        lemma_names_dropped(p, rest, wanted);
        lemma_name_given_up(q.table, name);
        assert forall|n: Seq<char>| #[trigger] r.table.ids.contains_key(n) && p.table.ids.contains_key(
            n,
        ) implies r.table.ids[n] == p.table.ids[n] && r.table.ports[r.table.ids[n]]
            == p.table.ports[p.table.ids[n]] by {
            assert(q.table.ids.contains_key(n));
        }
        assert forall|port: u64| #[trigger] gives_up(r.ops, port) <==> gives_up(p.ops, port)
            || no_longer_wanted(p.table, before, wanted, port) by {
            lemma_dropped_named(p, rest, wanted, name);
            assert(gives_up(q.ops, port) <==> gives_up(p.ops, port) || no_longer_wanted(
                p.table,
                rest,
                wanted,
                port,
            ));
            if no_longer_wanted(p.table, rest, wanted, port) {
                let n = choose|n: Seq<char>| #[trigger]
                    rest.contains(n) && !wanted.contains(n) && p.table.ids.contains_key(n)
                        && p.table.ports[p.table.ids[n]] == port;
                let k = rest.index_of(n);
                assert(before[k] == n);
                assert(before.contains(n));
            }
            if no_longer_wanted(p.table, before, wanted, port) {
                let n = choose|n: Seq<char>| #[trigger]
                    before.contains(n) && !wanted.contains(n) && p.table.ids.contains_key(n)
                        && p.table.ports[p.table.ids[n]] == port;
                let k = before.index_of(n);
                if k < rest.len() {
                    assert(rest[k] == n);
                    assert(rest.contains(n));
                } else {
                    assert(n == name);
                }
            }
            assert(before[before.len() - 1] == name);
            if !wanted.contains(name) && q.table.ids.contains_key(name) {
                lemma_one_more(q.ops, r.ops[r.ops.len() - 1], port);
                assert(r.ops =~= q.ops.push(r.ops[r.ops.len() - 1]));
                assert(before.contains(name));
            }
        }
    }
}

/// A number and a name belong together one to one.
pub open spec fn one_to_one(table: NamesView) -> bool {
    forall|n: Seq<char>, i: u64|
        #![trigger table.ids.contains_key(n), table.names.contains_key(i)]
        (table.ids.contains_key(n) && table.ids[n] == i) <==> (table.names.contains_key(i)
            && table.names[i] == n)
}

/// Once a spec is brought in, exactly its names are in use, each with a number of its own. A name
/// that was wanted before and still is keeps its number. The ports that are given up are exactly
/// those of the names that were wanted before and no longer are.
pub proof fn law_spec_is_brought_in(
    before: ManagementView,
    next: u64,
    old_spec: Option<&NamespaceSpec>,
    new_spec: &NamespaceSpec,
)
    requires
        before.workloads.sound(),
        before.services.sound(),
        before.workloads.next_id + new_spec.workloads.seq().len() <= u64::MAX,
        before.services.next_id + new_spec.services.seq().len() <= u64::MAX,
        forall|n: Seq<char>|
            before.workloads.ids.contains_key(n) <==> workload_names(old_spec).contains(n),
        forall|n: Seq<char>|
            before.services.ids.contains_key(n) <==> service_names(old_spec).contains(n),
    ensures
        ({
            let w = after_workloads(before, next, old_spec, new_spec).table;
            let s = after_services(before, next, old_spec, new_spec).table;
            let ops = after_services(before, next, old_spec, new_spec).ops;
            &&& w.ids.dom() == new_spec.workloads@.dom()
            &&& s.ids.dom() == new_spec.services@.dom()
            &&& w.sound() && one_to_one(w)
            &&& s.sound() && one_to_one(s)
            &&& forall|n: Seq<char>| #[trigger]
                workload_names(old_spec).contains(n) && new_spec.workloads@.contains_key(n)
                    ==> w.ids[n] == before.workloads.ids[n]
            &&& forall|n: Seq<char>| #[trigger]
                service_names(old_spec).contains(n) && new_spec.services@.contains_key(n)
                    ==> s.ids[n] == before.services.ids[n]
            &&& forall|port: u64| #[trigger]
                gives_up(ops, port) <==> no_longer_wanted(
                    before.workloads,
                    workload_names(old_spec),
                    new_spec.workloads@.dom(),
                    port,
                ) || no_longer_wanted(
                    before.services,
                    service_names(old_spec),
                    new_spec.services@.dom(),
                    port,
                )
        }),
{
    law_names_match_spec(before, next, old_spec, new_spec);
    let w = after_workloads(before, next, old_spec, new_spec);
    let s = after_services(before, next, old_spec, new_spec);
    let p = Progress { table: before.workloads, next, ops: seq![] };
    let q = Progress { table: before.services, next: w.next, ops: w.ops };
    lemma_settled(p, workload_kind(), workload_names(old_spec), new_spec.workloads.seq());
    lemma_settled(
        q,
        service_kind(w.table.ids),
        service_names(old_spec),
        new_spec.services.seq(),
    );
    assert forall|n: Seq<char>| #[trigger] workload_names(old_spec).contains(n)
        && new_spec.workloads@.contains_key(n) implies w.table.ids[n]
        == before.workloads.ids[n] by {
        lemma_named(before, next, old_spec, new_spec, n);
    }
    assert forall|n: Seq<char>| #[trigger] service_names(old_spec).contains(n)
        && new_spec.services@.contains_key(n) implies s.table.ids[n] == before.services.ids[n] by {
        lemma_named(before, next, old_spec, new_spec, n);
    }
    assert forall|port: u64| #[trigger] gives_up(s.ops, port) <==> no_longer_wanted(
        before.workloads,
        workload_names(old_spec),
        new_spec.workloads@.dom(),
        port,
    ) || no_longer_wanted(
        before.services,
        service_names(old_spec),
        new_spec.services@.dom(),
        port,
    ) by {
        assert(!gives_up(p.ops, port));
        assert(gives_up(w.ops, port) <==> no_longer_wanted(
            before.workloads,
            workload_names(old_spec),
            new_spec.workloads@.dom(),
            port,
        ));
    }
}

/// Where names keep their ports, the ports of names that are no longer wanted are the same.
proof fn lemma_same_unwanted(
    a: NamesView,
    b: NamesView,
    before: Seq<Seq<char>>,
    wanted: Set<Seq<char>>,
    port: u64,
)
    requires
        keeps(a, b),
        forall|n: Seq<char>| a.ids.contains_key(n) <==> before.contains(n),
        forall|n: Seq<char>| #[trigger] a.ids.contains_key(n) ==> b.ids.contains_key(n),
    ensures
        no_longer_wanted(a, before, wanted, port) <==> no_longer_wanted(b, before, wanted, port),
{
    if no_longer_wanted(a, before, wanted, port) {
        let n = choose|n: Seq<char>| #[trigger]
            before.contains(n) && !wanted.contains(n) && a.ids.contains_key(n)
                && a.ports[a.ids[n]] == port;
        assert(b.ids.contains_key(n));
        assert(before.contains(n));
    }
    if no_longer_wanted(b, before, wanted, port) {
        let n = choose|n: Seq<char>| #[trigger]
            before.contains(n) && !wanted.contains(n) && b.ids.contains_key(n)
                && b.ports[b.ids[n]] == port;
        assert(a.ids.contains_key(n));
        assert(before.contains(n));
    }
}

} // verus!
