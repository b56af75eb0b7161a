//! Keeps the names of a namespace.
use vstd::prelude::*;

use crate::sm::{DnsEntryInfo, DnsRegistryId};
use crate::sorted_map::{as_map, increasing, SortedMap};

verus! {

/// A change to the names.
#[derive(Debug, PartialEq, Eq)]
pub enum DnsRegistryAction {
    Add { name: String, ip: u32 },
    Remove { name: String },
}

impl Clone for DnsRegistryAction {
    fn clone(&self) -> (r: Self)
        ensures
            r == *self,
    {
        match self {
            DnsRegistryAction::Add { name, ip } => DnsRegistryAction::Add {
                name: name.clone(),
                ip: *ip,
            },
            DnsRegistryAction::Remove { name } => DnsRegistryAction::Remove { name: name.clone() },
        }
    }
}

/// What the port of the names delivers.
#[derive(Debug)]
pub enum DnsRegistryPortInput {
    EndpointDnsInput(Vec<DnsRegistryAction>),
    WorkloadDnsInput(Vec<DnsRegistryAction>),
}

impl DnsRegistryPortInput {
    /// The changes inside.
    pub open spec fn actions(self) -> Seq<DnsRegistryAction> {
        match self {
            DnsRegistryPortInput::EndpointDnsInput(list) => list@,
            DnsRegistryPortInput::WorkloadDnsInput(list) => list@,
        }
    }
}

/// All the changes for a port, in order.
pub open spec fn delivered(
    id: DnsRegistryId,
    inputs: Seq<(DnsRegistryId, DnsRegistryPortInput)>,
) -> Seq<DnsRegistryAction>
    decreases inputs.len(),
{
    if inputs.len() == 0 {
        seq![]
    } else if inputs.last().0 == id {
        delivered(id, inputs.drop_last()) + inputs.last().1.actions()
    } else {
        delivered(id, inputs.drop_last())
    }
}

/// The names after a change.
pub open spec fn renamed(names: Map<Seq<char>, u32>, action: DnsRegistryAction) -> Map<
    Seq<char>,
    u32,
> {
    match action {
        DnsRegistryAction::Add { name, ip } => names.insert(name@, ip),
        DnsRegistryAction::Remove { name } => names.remove(name@),
    }
}

/// The names after some changes.
pub open spec fn all_renamed(
    names: Map<Seq<char>, u32>,
    actions: Seq<DnsRegistryAction>,
) -> Map<Seq<char>, u32>
    decreases actions.len(),
{
    if actions.len() == 0 {
        names
    } else {
        renamed(all_renamed(names, actions.drop_last()), actions.last())
    }
}

/// Holds the names as they are now, for workers that arrive later.
pub struct DnsRegistryAdapter {
    dns_registry_id: DnsRegistryId,
    cache: SortedMap<String, u32>,
}

impl DnsRegistryAdapter {
    pub closed spec fn port(&self) -> DnsRegistryId {
        self.dns_registry_id
    }

    /// The names in order.
    pub closed spec fn seq(&self) -> Seq<(String, u32)> {
        self.cache.seq()
    }

    /// The names.
    pub open spec fn view(&self) -> Map<Seq<char>, u32> {
        as_map(self.seq())
    }

    pub fn new(dns_registry_id: DnsRegistryId) -> (r: Self)
        ensures
            r.port() == dns_registry_id,
            r@ == Map::<Seq<char>, u32>::empty(),
            r.seq() == Seq::<(String, u32)>::empty(),
    {
        DnsRegistryAdapter { dns_registry_id, cache: SortedMap::new() }
    }

    fn apply(&mut self, action: &DnsRegistryAction)
        ensures
            final(self).port() == old(self).port(),
            final(self)@ == renamed(old(self)@, *action),
    {
        match action {
            DnsRegistryAction::Add { name, ip } => {
                self.cache.insert(name.clone(), *ip);
            },
            DnsRegistryAction::Remove { name } => {
                let _ = self.cache.remove(name);
            },
        }
    }

    /// Takes in what the port delivers, and says what has changed. The flag says whether the router
    /// has been changed in turn: it never is.
    pub fn reconcile(&mut self, inputs: &Vec<(DnsRegistryId, DnsRegistryPortInput)>) -> (r: (
        Vec<DnsRegistryAction>,
        bool,
    ))
        ensures
            final(self).port() == old(self).port(),
            r.0@ == delivered(old(self).port(), inputs@),
            final(self)@ == all_renamed(old(self)@, r.0@),
            !r.1,
    {
        let mut out: Vec<DnsRegistryAction> = Vec::new();
        let mut i: usize = 0;
        assert(inputs@.take(0) =~= Seq::<(DnsRegistryId, DnsRegistryPortInput)>::empty());
        while i < inputs.len()
            invariant
                i <= inputs@.len(),
                self.port() == old(self).port(),
                out@ == delivered(self.port(), inputs@.take(i as int)),
                self@ == all_renamed(old(self)@, out@),
            decreases inputs@.len() - i,
        {
            assert(inputs@.take(i + 1).drop_last() =~= inputs@.take(i as int));
            assert(inputs@.take(i + 1).last() == inputs@[i as int]);
            if inputs[i].0 == self.dns_registry_id {
                let list: &Vec<DnsRegistryAction> = match &inputs[i].1 {
                    DnsRegistryPortInput::EndpointDnsInput(list) => list,
                    DnsRegistryPortInput::WorkloadDnsInput(list) => list,
                };
                let ghost start = out@;
                let mut j: usize = 0;
                assert(out@ =~= start + list@.take(0));
                while j < list.len()
                    invariant
                        j <= list@.len(),
                        self.port() == old(self).port(),
                        out@ == start + list@.take(j as int),
                        self@ == all_renamed(old(self)@, out@),
                    decreases list@.len() - j,
                {
                    self.apply(&list[j]);
                    out.push(list[j].clone());
                    assert(out@.drop_last() =~= start + list@.take(j as int));
                    j = j + 1;
                    assert(out@ =~= start + list@.take(j as int));
                }
                assert(list@.take(j as int) =~= list@);
            }
            i = i + 1;
        }
        assert(inputs@.take(i as int) =~= inputs@);
        (out, false)
    }

    /// All the names, for a new worker.
    pub fn build_sync(&self) -> (r: Vec<(String, u32)>)
        ensures
            r@ == self.seq(),
            as_map(r@) == self@,
            increasing(r@),
    {
        let n: usize = self.cache.len();
        let mut out: Vec<(String, u32)> = Vec::new();
        let mut i: usize = 0;
        while i < n
            invariant
                i <= n,
                n == self.cache.seq().len(),
                out@ == self.cache.seq().take(i as int),
            decreases n - i,
        {
            out.push((self.cache.key_at(i).clone(), *self.cache.value_at(i)));
            i = i + 1;
            assert(out@ =~= self.cache.seq().take(i as int));
        }
        assert(self.cache.seq().take(i as int) =~= self.cache.seq());
        out
    }
}

/// The change that makes an entry known.
pub open spec fn announced(entry: DnsEntryInfo) -> DnsRegistryAction {
    DnsRegistryAction::Add { name: entry.name, ip: entry.ip }
}

/// The change that withdraws an entry.
pub open spec fn withdrawn(entry: DnsEntryInfo) -> DnsRegistryAction {
    DnsRegistryAction::Remove { name: entry.name }
}

/// What leads from an old entry to a new one, either of which may be missing. Nothing at all is
/// delivered where both are.
pub open spec fn entry_changes(old_info: Option<DnsEntryInfo>, new_info: Option<DnsEntryInfo>) -> Option<
    Seq<DnsRegistryAction>,
> {
    match (old_info, new_info) {
        (Some(o), Some(n)) => Some(
            if o.name@ != n.name@ {
                seq![withdrawn(o), announced(n)]
            } else {
                seq![announced(n)]
            },
        ),
        (Some(o), None) => Some(seq![withdrawn(o)]),
        (None, Some(n)) => Some(seq![announced(n)]),
        (None, None) => None,
    }
}

/// A list as a sequence, where there is one.
pub open spec fn listed<A>(list: Option<Vec<A>>) -> Option<Seq<A>> {
    match list {
        Some(v) => Some(v@),
        None => None,
    }
}

fn dns_changed(old_info: &Option<DnsEntryInfo>, new_info: &Option<DnsEntryInfo>) -> (r: Option<
    Vec<DnsRegistryAction>,
>)
    ensures
        listed(r) == entry_changes(*old_info, *new_info),
{
    if old_info.is_none() && new_info.is_none() {
        return None;
    }
    let mut actions: Vec<DnsRegistryAction> = Vec::new();
    if let Some(o) = old_info {
        let gone: bool = match new_info {
            Some(n) => o.name != n.name,
            None => true,
        };
        if gone {
            actions.push(DnsRegistryAction::Remove { name: o.name.clone() });
        }
    }
    if let Some(n) = new_info {
        actions.push(DnsRegistryAction::Add { name: n.name.clone(), ip: n.ip });
    }
    assert(actions@ =~= entry_changes(*old_info, *new_info)->0);
    Some(actions)
}

/// Turns the names that endpoints ask for into changes, one source at a time.
#[derive(Debug, Clone, Copy)]
pub struct EndpointDnsIncrementalAggregator;

/// Turns the names that workloads ask for into changes, one source at a time.
#[derive(Debug, Clone, Copy)]
pub struct WorkloadDnsIncrementalAggregator;

impl EndpointDnsIncrementalAggregator {
    /// A source has come.
    pub fn added(&self, info: &Option<DnsEntryInfo>) -> (r: Option<Vec<DnsRegistryAction>>)
        ensures
            listed(r) == entry_changes(None, *info),
    {
        dns_changed(&None, info)
    }

    /// A source has gone.
    pub fn removed(&self, info: &Option<DnsEntryInfo>) -> (r: Option<Vec<DnsRegistryAction>>)
        ensures
            listed(r) == entry_changes(*info, None),
    {
        dns_changed(info, &None)
    }

    /// A source asks for something else.
    pub fn changed(&self, old_info: &Option<DnsEntryInfo>, new_info: &Option<DnsEntryInfo>) -> (r:
        Option<Vec<DnsRegistryAction>>)
        ensures
            listed(r) == entry_changes(*old_info, *new_info),
    {
        dns_changed(old_info, new_info)
    }
}

impl WorkloadDnsIncrementalAggregator {
    /// A source has come.
    pub fn added(&self, info: &Option<DnsEntryInfo>) -> (r: Option<Vec<DnsRegistryAction>>)
        ensures
            listed(r) == entry_changes(None, *info),
    {
        dns_changed(&None, info)
    }

    /// A source has gone.
    pub fn removed(&self, info: &Option<DnsEntryInfo>) -> (r: Option<Vec<DnsRegistryAction>>)
        ensures
            listed(r) == entry_changes(*info, None),
    {
        dns_changed(info, &None)
    }

    /// A source asks for something else.
    pub fn changed(&self, old_info: &Option<DnsEntryInfo>, new_info: &Option<DnsEntryInfo>) -> (r:
        Option<Vec<DnsRegistryAction>>)
        ensures
            listed(r) == entry_changes(*old_info, *new_info),
    {
        dns_changed(old_info, new_info)
    }
}

/// The names with one entry more.
pub open spec fn with_entry(names: Map<Seq<char>, u32>, entry: Option<DnsEntryInfo>) -> Map<
    Seq<char>,
    u32,
> {
    match entry {
        Some(e) => names.insert(e.name@, e.ip),
        None => names,
    }
}

/// The changes for one source move the names from its old entry to its new one, and touch no other
/// name, as long as no other source asks for the old name.
pub proof fn law_names_follow_source(
    others: Map<Seq<char>, u32>,
    old_info: Option<DnsEntryInfo>,
    new_info: Option<DnsEntryInfo>,
)
    requires
        old_info matches Some(o) ==> !others.contains_key(o.name@),
    ensures
        match entry_changes(old_info, new_info) {
            Some(actions) => all_renamed(with_entry(others, old_info), actions) == with_entry(
                others,
                new_info,
            ),
            None => with_entry(others, old_info) == with_entry(others, new_info),
        },
{
    reveal_with_fuel(all_renamed, 3);
    match entry_changes(old_info, new_info) {
        Some(actions) => {
            assert(actions.drop_last().len() <= 1);
            if actions.len() == 2 {
                assert(actions.drop_last() =~= seq![actions[0]]);
                assert(actions.drop_last().drop_last() =~= seq![]);
            } else {
                assert(actions.drop_last() =~= seq![]);
            }
            assert(all_renamed(with_entry(others, old_info), actions) =~= with_entry(
                others,
                new_info,
            ));
        },
        None => {},
    }
}

} // verus!
