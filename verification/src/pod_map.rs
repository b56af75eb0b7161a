//! Pods by name and by worker.
use vstd::prelude::*;

use crate::ids::{PodId, WorkerId, WorkloadId};
use crate::sorted_map::{
    as_map, erase, has_key, increasing, lemma_position_unique, lemma_rank_unique,
    lemma_stays_increasing, position, splits, upsert, Key, SortedMap,
};

verus! {

/// Where a pod runs and for whom.
#[derive(Debug, PartialEq, Eq)]
pub struct PodInfo {
    pub workload_id: WorkloadId,
    pub worker_id: WorkerId,
}

impl Clone for PodInfo {
    fn clone(&self) -> (r: Self)
        ensures
            r == *self,
    {
        PodInfo { workload_id: self.workload_id.clone(), worker_id: self.worker_id.clone() }
    }
}

/// The pods of `m` that run on worker `w`.
pub open spec fn on_worker(m: Map<Seq<char>, PodInfo>, w: Seq<char>) -> Set<Seq<char>> {
    Set::new(|p: Seq<char>| m.contains_key(p) && m[p].worker_id.id() == w)
}

/// `m` without the pods of worker `w`.
pub open spec fn without_worker(m: Map<Seq<char>, PodInfo>, w: Seq<char>) -> Map<
    Seq<char>,
    PodInfo,
> {
    m.remove_keys(on_worker(m, w))
}

/// The pods of a namespace, found by name and by worker.
#[derive(Debug, PartialEq, Eq)]
pub struct PodMap {
    pods: SortedMap<PodId, PodInfo>,
    worker_pods: SortedMap<WorkerId, SortedMap<PodId, ()>>,
}

/// Each pod stands under its worker, each worker lists pods of its own only, and at least one.
pub open spec fn consistent(
    pods: Map<Seq<char>, PodInfo>,
    worker_pods: Map<Seq<char>, SortedMap<PodId, ()>>,
) -> bool {
    &&& forall|p: Seq<char>|
        #![trigger pods.contains_key(p)]
        pods.contains_key(p) ==> worker_pods.contains_key(pods[p].worker_id.id())
            && worker_pods[pods[p].worker_id.id()]@.contains_key(p)
    &&& forall|w: Seq<char>, p: Seq<char>|
        #![trigger worker_pods[w]@.contains_key(p)]
        worker_pods.contains_key(w) && worker_pods[w]@.contains_key(p) ==> pods.contains_key(p)
            && pods[p].worker_id.id() == w
    &&& forall|w: Seq<char>|
        #![trigger worker_pods.contains_key(w)]
        worker_pods.contains_key(w) ==> worker_pods[w].seq().len() > 0
}

impl PodMap {
    #[verifier::type_invariant]
    spec fn in_step(self) -> bool {
        consistent(self.pods@, self.worker_pods@)
    }

    /// The pods by name.
    pub closed spec fn view(&self) -> Map<Seq<char>, PodInfo> {
        self.pods@
    }

    /// The pods in name order.
    pub closed spec fn seq(&self) -> Seq<(PodId, PodInfo)> {
        self.pods.seq()
    }

    pub fn new() -> (r: Self)
        ensures
            r@ == Map::<Seq<char>, PodInfo>::empty(),
            r.seq() == Seq::<(PodId, PodInfo)>::empty(),
    {
        PodMap { pods: SortedMap::new(), worker_pods: SortedMap::new() }
    }

    /// Adds a pod that is not in the table yet.
    pub fn insert(&mut self, pod_id: PodId, info: PodInfo)
        requires
            !old(self)@.contains_key(pod_id.id()),
        ensures
            final(self)@ == old(self)@.insert(pod_id.id(), info),
            final(self).seq() == upsert(old(self).seq(), pod_id, info),
    {
        proof {
            use_type_invariant(&*self);
        }
        let worker_id: WorkerId = info.worker_id.clone();
        let mut taken: PodMap = PodMap::new();
        std::mem::swap(self, &mut taken);
        let PodMap { mut pods, mut worker_pods } = taken;
        let mut set: SortedMap<PodId, ()> = match worker_pods.remove(&worker_id) {
            Some(set) => set,
            None => SortedMap::new(),
        };
        set.insert(pod_id.clone(), ());
        proof {
            if set.seq().len() == 0 {
                assert(set@.contains_key(pod_id.id()));
            }
        }
        worker_pods.insert(worker_id, set);
        pods.insert(pod_id, info);
        *self = PodMap { pods, worker_pods };
    }

    /// Takes a pod out.
    pub fn remove(&mut self, pod_id: &PodId) -> (r: Option<PodInfo>)
        ensures
            final(self)@ == old(self)@.remove(pod_id.id()),
            final(self).seq() == erase(old(self).seq(), pod_id.id()),
            r matches Some(info) ==> old(self)@.contains_key(pod_id.id()) && info == old(
                self,
            )@[pod_id.id()],
            r is None ==> !old(self)@.contains_key(pod_id.id()) && *final(self) == *old(self),
    {
        proof {
            use_type_invariant(&*self);
        }
        if !self.pods.contains_key(pod_id) {
            proof {
                assert(self.pods@.remove(pod_id.id()) =~= self.pods@);
            }
            return None;
        }
        let mut taken: PodMap = PodMap::new();
        std::mem::swap(self, &mut taken);
        let PodMap { mut pods, mut worker_pods } = taken;
        let ghost pods0 = pods@;
        let ghost wp0 = worker_pods@;
        let removed = pods.remove(pod_id);
        if let Some(info) = &removed {
            if let Some(mut set) = worker_pods.remove(&info.worker_id) {
                set.remove(pod_id);
                if !set.is_empty() {
                    worker_pods.insert(info.worker_id.clone(), set);
                } else {
                    proof {
                        assert forall|p: Seq<char>|
                            pods@.contains_key(p) implies pods@[p].worker_id.id()
                            != info.worker_id.id() by {
                            if pods@[p].worker_id.id() == info.worker_id.id() {
                                assert(pods0.contains_key(p));
                                assert(wp0[info.worker_id.id()]@.contains_key(p));
                                assert(set@.contains_key(p));
                            }
                        }
                    }
                }
            }
        }
        *self = PodMap { pods, worker_pods };
        removed
    }

    /// Takes all pods of a worker out and returns their names in order.
    pub fn remove_worker_pods(&mut self, worker_id: &WorkerId) -> (r: Vec<PodId>)
        ensures
            final(self)@ == without_worker(old(self)@, worker_id.id()),
            forall|i: int, j: int|
                0 <= i < j < r@.len() ==> PodId::before((#[trigger] r@[i]).id(), (#[trigger] r@[j]).id()),
            forall|p: Seq<char>|
                on_worker(old(self)@, worker_id.id()).contains(p) <==> exists|i: int|
                    0 <= i < r@.len() && (#[trigger] r@[i]).id() == p,
    {
        proof {
            use_type_invariant(&*self);
        }
        let mut taken: PodMap = PodMap::new();
        std::mem::swap(self, &mut taken);
        let PodMap { mut pods, mut worker_pods } = taken;
        let ghost pods0 = pods@;
        let ghost wp0 = worker_pods@;
        let ghost w = worker_id.id();
        let mut removed: Vec<PodId> = Vec::new();
        match worker_pods.remove(worker_id) {
            None => {
                proof {
                    assert(without_worker(pods0, w) =~= pods0);
                }
            },
            Some(set) => {
                let n: usize = set.len();
                let mut i: usize = 0;
                proof {
                    assert(pods0.remove_keys(names_upto(set.seq(), 0)) =~= pods0);
                }
                while i < n
                    invariant
                        n == set.seq().len(),
                        i <= n,
                        removed@.len() == i,
                        forall|j: int| 0 <= j < i ==> #[trigger] removed@[j] == set.seq()[j].0,
                        pods@ == pods0.remove_keys(names_upto(set.seq(), i as int)),
                    decreases n - i,
                {
                    let p: &PodId = set.key_at(i);
                    pods.remove(p);
                    removed.push(p.clone());
                    proof {
                        assert(pods@ =~= pods0.remove_keys(names_upto(set.seq(), i + 1)));
                    }
                    i = i + 1;
                }
                proof {
                    lemma_names(set.seq());
                    assert forall|p: Seq<char>|
                        names_upto(set.seq(), n as int).contains(p) == on_worker(pods0, w).contains(
                            p,
                        ) by {
                        assert(wp0[w]@ == set@);
                        assert(names_upto(set.seq(), n as int).contains(p) == set@.contains_key(p));
                    }
                    assert(names_upto(set.seq(), n as int) =~= on_worker(pods0, w));
                    assert forall|p: Seq<char>| on_worker(pods0, w).contains(p) implies exists|i: int|
                        0 <= i < removed@.len() && (#[trigger] removed@[i]).id() == p by {
                        assert(names_upto(set.seq(), n as int).contains(p));
                        let k = choose|k: int|
                            0 <= k < n && (#[trigger] set.seq()[k]).0.id() == p;
                        assert(removed@[k].id() == p);
                    }
                    assert forall|p: Seq<char>|
                        (exists|i: int| 0 <= i < removed@.len() && (#[trigger] removed@[i]).id() == p)
                        implies on_worker(pods0, w).contains(p) by {
                        let k = choose|k: int|
                            0 <= k < removed@.len() && (#[trigger] removed@[k]).id() == p;
                        assert(set.seq()[k].0.id() == p);
                        assert(names_upto(set.seq(), n as int).contains(p));
                    }
                    assert forall|i: int, j: int| 0 <= i < j < removed@.len() implies PodId::before(
                        (#[trigger] removed@[i]).id(),
                        (#[trigger] removed@[j]).id(),
                    ) by {
                        assert(PodId::before(set.seq()[i].0.id(), set.seq()[j].0.id()));
                    }
                }
            },
        }
        *self = PodMap { pods, worker_pods };
        removed
    }

    pub fn clear(&mut self)
        ensures
            final(self)@ == Map::<Seq<char>, PodInfo>::empty(),
            final(self).seq() == Seq::<(PodId, PodInfo)>::empty(),
    {
        *self = PodMap::new();
    }

    pub fn get(&self, pod_id: &PodId) -> (r: Option<&PodInfo>)
        ensures
            r matches Some(info) ==> self@.contains_key(pod_id.id()) && *info == self@[pod_id.id()],
            r is None ==> !self@.contains_key(pod_id.id()),
    {
        self.pods.get(pod_id)
    }

    pub fn contains(&self, pod_id: &PodId) -> (r: bool)
        ensures
            r == self@.contains_key(pod_id.id()),
    {
        self.pods.contains_key(pod_id)
    }

    /// The pods in name order.
    pub fn iter(&self) -> (r: Vec<(&PodId, &PodInfo)>)
        ensures
            r@.len() == self.seq().len(),
            forall|i: int|
                0 <= i < r@.len() ==> *(#[trigger] r@[i]).0 == self.seq()[i].0 && *r@[i].1
                    == self.seq()[i].1,
            increasing(self.seq()),
            self@ == as_map(self.seq()),
    {
        let mut r: Vec<(&PodId, &PodInfo)> = Vec::new();
        let n: usize = self.pods.len();
        let mut i: usize = 0;
        while i < n
            invariant
                n == self.pods.seq().len(),
                i <= n,
                r@.len() == i,
                forall|j: int|
                    0 <= j < i ==> *(#[trigger] r@[j]).0 == self.pods.seq()[j].0 && *r@[j].1
                        == self.pods.seq()[j].1,
            decreases n - i,
        {
            r.push((self.pods.key_at(i), self.pods.value_at(i)));
            i = i + 1;
        }
        r
    }

    /// How many pods run on a worker.
    pub fn worker_pod_count(&self, worker_id: &WorkerId) -> (r: usize)
        ensures
            on_worker(self@, worker_id.id()).finite(),
            r == on_worker(self@, worker_id.id()).len(),
    {
        proof {
            use_type_invariant(self);
        }
        match self.worker_pods.get(worker_id) {
            Some(set) => {
                let n: usize = set.len();
                proof {
                    assert(set@.dom() =~= on_worker(self.pods@, worker_id.id()));
                }
                n
            },
            None => {
                proof {
                    assert(on_worker(self.pods@, worker_id.id()) =~= Set::<Seq<char>>::empty());
                }
                0
            },
        }
    }

    pub fn len(&self) -> (r: usize)
        ensures
            r == self@.dom().len(),
            r == self.seq().len(),
            self@.dom().finite(),
    {
        self.pods.len()
    }

    pub fn is_empty(&self) -> (r: bool)
        ensures
            r == (self@ == Map::<Seq<char>, PodInfo>::empty()),
            r == (self.seq().len() == 0),
    {
        self.pods.is_empty()
    }
}

impl Clone for PodMap {
    fn clone(&self) -> (r: Self)
        ensures
            r@ == self@,
            r.seq() == self.seq(),
    {
        let mut r: PodMap = PodMap::new();
        let n: usize = self.pods.len();
        let mut i: usize = 0;
        let ghost s = self.pods.seq();
        assert(s.take(0) =~= Seq::<(PodId, PodInfo)>::empty());
        while i < n
            invariant
                i <= n,
                n == s.len(),
                s == self.pods.seq(),
                increasing(s),
                r.seq() == s.take(i as int),
                r@ == as_map(r.seq()),
            decreases n - i,
        {
            proof {
                lemma_append(s, i as int);
            }
            r.insert(self.pods.key_at(i).clone(), self.pods.value_at(i).clone());
            i = i + 1;
        }
        assert(s.take(i as int) =~= s);
        r
    }
}

impl Default for PodMap {
    fn default() -> (r: Self)
        ensures
            r@ == Map::<Seq<char>, PodInfo>::empty(),
            r.seq() == Seq::<(PodId, PodInfo)>::empty(),
    {
        PodMap::new()
    }
}

/// The names of the first `n` entries.
spec fn names_upto(s: Seq<(PodId, ())>, n: int) -> Set<Seq<char>> {
    Set::new(|p: Seq<char>| exists|i: int| 0 <= i < n && (#[trigger] s[i]).0.id() == p)
}

/// The next entry of a table in order comes at the end of those before it.
proof fn lemma_append(s: Seq<(PodId, PodInfo)>, i: int)
    requires
        increasing(s),
        0 <= i < s.len(),
    ensures
        increasing(s.take(i)),
        !as_map(s.take(i)).contains_key(s[i].0.id()),
        upsert(s.take(i), s[i].0, s[i].1) == s.take(i + 1),
        as_map(s.take(i + 1)) == as_map(s.take(i)).insert(s[i].0.id(), s[i].1),
{
    let t = s.take(i);
    let k = s[i].0.id();
    assert(increasing(t));
    if has_key(t, k) {
        let p = position(t, k);
        assert(0 <= p < t.len() && t[p].0.id() == k);
        assert(s[p].0.id() == k);
        lemma_position_unique(s, p);
        lemma_position_unique(s, i);
    }
    assert(splits(t, k, i)) by {
        assert forall|j: int| 0 <= j < i implies PodId::before((#[trigger] t[j]).0.id(), k) by {
            assert(PodId::before(s[j].0.id(), s[i].0.id()));
        }
    }
    lemma_rank_unique(t, k, i);
    assert(upsert(t, s[i].0, s[i].1) =~= s.take(i + 1));
    lemma_stays_increasing(t, s[i].0, s[i].1);
}

proof fn lemma_names(s: Seq<(PodId, ())>)
    requires
        increasing(s),
    ensures
        forall|p: Seq<char>|
            names_upto(s, s.len() as int).contains(p) == as_map(s).contains_key(p),
{
}

/// Putting a pod in and taking it out again leaves the table as it was, and gives back what was put
/// in.
pub proof fn law_insert_then_remove(m: Map<Seq<char>, PodInfo>, p: Seq<char>, info: PodInfo)
    requires
        !m.contains_key(p),
    ensures
        m.insert(p, info).remove(p) == m,
        m.insert(p, info)[p] == info,
{
    assert(m.insert(p, info).remove(p) =~= m);
}

/// Dropping a worker leaves none of its pods and keeps every other pod as it was.
pub proof fn law_without_worker(m: Map<Seq<char>, PodInfo>, w: Seq<char>)
    ensures
        on_worker(without_worker(m, w), w) == Set::<Seq<char>>::empty(),
        forall|other: Seq<char>|
            other != w ==> #[trigger] on_worker(without_worker(m, w), other) == on_worker(m, other),
        forall|p: Seq<char>| #[trigger]
            without_worker(m, w).contains_key(p) ==> without_worker(m, w)[p] == m[p],
{
    assert(on_worker(without_worker(m, w), w) =~= Set::<Seq<char>>::empty());
    assert forall|other: Seq<char>| other != w implies #[trigger] on_worker(
        without_worker(m, w),
        other,
    ) == on_worker(m, other) by {
        assert(on_worker(without_worker(m, w), other) =~= on_worker(m, other));
    }
}

/// How many pods run on some workers.
pub open spec fn on_workers(m: Map<Seq<char>, PodInfo>, workers: Seq<Seq<char>>) -> nat
    decreases workers.len(),
{
    if workers.len() == 0 {
        0
    } else {
        on_workers(m, workers.drop_last()) + on_worker(m, workers.last()).len()
    }
}

/// The pods that run on one of some workers.
spec fn pods_on(m: Map<Seq<char>, PodInfo>, workers: Seq<Seq<char>>) -> Set<Seq<char>> {
    Set::new(|p: Seq<char>| m.contains_key(p) && workers.contains(m[p].worker_id.id()))
}

proof fn lemma_pods_on(m: Map<Seq<char>, PodInfo>, workers: Seq<Seq<char>>)
    requires
        m.dom().finite(),
        workers.no_duplicates(),
    ensures
        pods_on(m, workers).len() == on_workers(m, workers),
    decreases workers.len(),
{
    let all = pods_on(m, workers);
    if workers.len() == 0 {
        assert(all =~= Set::<Seq<char>>::empty());
    } else {
        let front = workers.drop_last();
        let rest = pods_on(m, front);
        let last = on_worker(m, workers.last());
        lemma_pods_on(m, front);
        assert forall|w: Seq<char>| workers.contains(w) <==> front.contains(w) || w
            == workers.last() by {
            if workers.contains(w) {
                let i = workers.index_of(w);
                if i < front.len() {
                    assert(front[i] == w);
                }
            }
            if front.contains(w) {
                let i = front.index_of(w);
                assert(workers[i] == w);
            }
            assert(workers[workers.len() - 1] == workers.last());
        }
        assert(!front.contains(workers.last())) by {
            if front.contains(workers.last()) {
                let i = front.index_of(workers.last());
                assert(workers[i] == workers[workers.len() - 1]);
            }
        }
        assert(rest.subset_of(m.dom()));
        assert(last.subset_of(m.dom()));
        vstd::set_lib::lemma_len_subset(rest, m.dom());
        vstd::set_lib::lemma_len_subset(last, m.dom());
        assert(rest.disjoint(last));
        vstd::set_lib::lemma_set_disjoint_lens(rest, last);
        assert(all =~= rest + last);
    }
}

/// The counts of all workers add up to the number of pods.
pub proof fn law_worker_counts_add_up(m: Map<Seq<char>, PodInfo>, workers: Seq<Seq<char>>)
    requires
        m.dom().finite(),
        workers.no_duplicates(),
        forall|p: Seq<char>| #[trigger]
            m.contains_key(p) ==> workers.contains(m[p].worker_id.id()),
    ensures
        on_workers(m, workers) == m.dom().len(),
{
    lemma_pods_on(m, workers);
    assert(pods_on(m, workers) =~= m.dom());
}

/// The pods of all workers together are all the pods, and no pod runs on two workers.
pub proof fn law_workers_partition_pods(m: Map<Seq<char>, PodInfo>, p: Seq<char>)
    requires
        m.contains_key(p),
    ensures
        exists|w: Seq<char>| #[trigger] on_worker(m, w).contains(p),
        forall|v: Seq<char>, w: Seq<char>| #[trigger]
            on_worker(m, v).contains(p) && #[trigger] on_worker(m, w).contains(p) ==> v == w,
{
    assert(on_worker(m, m[p].worker_id.id()).contains(p));
}

} // verus!
