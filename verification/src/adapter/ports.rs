//! One port per worker and target.
use vstd::prelude::*;

use crate::sm::WorkerId;
use crate::sorted_map::{
    as_map, has_key, increasing, lemma_position_unique, position, restricted, Key, SortedMap,
};

verus! {

/// Which port stands for which worker and target.
pub struct PortTable<T: Key> {
    ports: SortedMap<(WorkerId, T), u64>,
}

/// The ports of a worker, in the order of the list.
pub open spec fn ports_of<T: Key>(s: Seq<((WorkerId, T), u64)>, worker_id: WorkerId) -> Seq<u64>
    decreases s.len(),
{
    if s.len() == 0 {
        seq![]
    } else {
        let rest = ports_of(s.drop_last(), worker_id);
        if s.last().0.0 == worker_id {
            rest.push(s.last().1)
        } else {
            rest
        }
    }
}

/// The table without the ports of a worker.
pub open spec fn off_worker<I>(m: Map<(WorkerId, I), u64>, worker_id: WorkerId) -> Map<
    (WorkerId, I),
    u64,
> {
    restricted(m, |k: (WorkerId, I), _p: u64| k.0 != worker_id)
}

/// No two entries share a port, and every port is below `next`.
pub open spec fn apart<I>(m: Map<(WorkerId, I), u64>, next: u64) -> bool {
    &&& forall|k: (WorkerId, I)| #[trigger] m.contains_key(k) ==> m[k] < next
    &&& forall|j: (WorkerId, I), k: (WorkerId, I)|
        #![trigger m.contains_key(j), m.contains_key(k)]
        m.contains_key(j) && m.contains_key(k) && m[j] == m[k] ==> j == k
}

impl<T: Key> PortTable<T> {
    /// The ports in the order of workers and targets.
    pub closed spec fn seq(&self) -> Seq<((WorkerId, T), u64)> {
        self.ports.seq()
    }

    /// The port of each worker and target.
    pub open spec fn view(&self) -> Map<(WorkerId, T::Id), u64> {
        as_map(self.seq())
    }

    pub fn new() -> (r: Self)
        ensures
            r@ == Map::<(WorkerId, T::Id), u64>::empty(),
            r.seq() == Seq::<((WorkerId, T), u64)>::empty(),
    {
        PortTable { ports: SortedMap::new() }
    }

    pub fn len(&self) -> (r: usize)
        ensures
            r == self@.dom().len(),
            self@.dom().finite(),
    {
        self.ports.len()
    }

    /// The port of a worker and a target.
    pub fn get(&self, worker_id: WorkerId, target: T) -> (r: Option<u64>)
        ensures
            r == (if self@.contains_key((worker_id, target.id())) {
                Some(self@[(worker_id, target.id())])
            } else {
                None
            }),
    {
        match self.ports.get(&(worker_id, target)) {
            Some(p) => Some(*p),
            None => None,
        }
    }

    /// The port of a worker and a target, and whether it is a new one. A new port takes the number
    /// `next`.
    pub fn obtain(&mut self, worker_id: WorkerId, target: T, next: &mut u64) -> (r: (u64, bool))
        requires
            *old(next) < u64::MAX,
            apart(old(self)@, *old(next)),
        ensures
            apart(final(self)@, *final(next)),
            increasing(final(self).seq()),
            r.1 == !old(self)@.contains_key((worker_id, target.id())),
            r.1 ==> {
                &&& r.0 == *old(next)
                &&& *final(next) == *old(next) + 1
                &&& final(self)@ == old(self)@.insert((worker_id, target.id()), r.0)
            },
            !r.1 ==> {
                &&& r.0 == old(self)@[(worker_id, target.id())]
                &&& *final(next) == *old(next)
                &&& *final(self) == *old(self)
            },
    {
        let key: (WorkerId, T) = (worker_id, target);
        proof {
            use_type_invariant(&self.ports);
        }
        match self.ports.get(&key) {
            Some(p) => (*p, false),
            None => {
                let port: u64 = *next;
                self.ports.insert(key, port);
                *next = *next + 1;
                proof {
                    use_type_invariant(&self.ports);
                }
                (port, true)
            },
        }
    }

    /// Forgets the ports of a worker, and says which they were.
    pub fn remove_worker(&mut self, worker_id: WorkerId) -> (r: Vec<u64>)
        ensures
            final(self)@ == off_worker(old(self)@, worker_id),
            r@ == ports_of(old(self).seq(), worker_id),
            increasing(old(self).seq()),
            increasing(final(self).seq()),
    {
        let mut out: Vec<u64> = Vec::new();
        let ghost s = self.ports.seq();
        let n: usize = self.ports.len();
        let mut i: usize = 0;
        assert(s.take(0) =~= Seq::<((WorkerId, T), u64)>::empty());
        while i < n
            invariant
                i <= n,
                n == s.len(),
                s == self.ports.seq(),
                *self == *old(self),
                out@ == ports_of(s.take(i as int), worker_id),
            decreases n - i,
        {
            assert(s.take(i + 1).drop_last() =~= s.take(i as int));
            assert(s.take(i + 1).last() == s[i as int]);
            if self.ports.key_at(i).0 == worker_id {
                out.push(*self.ports.value_at(i));
            }
            i = i + 1;
        }
        assert(s.take(i as int) =~= s);
        let test = |k: &(WorkerId, T), _p: &u64| -> (r: bool)
            ensures
                r == (k.0 != worker_id),
            {
                k.0.0 != worker_id.0
            };
        self.ports.retain(test, Ghost(|k: (WorkerId, T::Id), _p: u64| k.0 != worker_id));
        assert(self@ =~= off_worker(old(self)@, worker_id));
        proof {
            use_type_invariant(&self.ports);
        }
        out
    }
}

/// The ports that are given up with a worker are those that its targets had, each one once.
pub proof fn law_worker_gives_up_its_ports<T: Key>(
    s: Seq<((WorkerId, T), u64)>,
    worker_id: WorkerId,
    next: u64,
)
    requires
        increasing(s),
        apart(as_map(s), next),
    ensures
        forall|p: u64| #[trigger]
            ports_of(s, worker_id).contains(p) <==> exists|t: T::Id|
                as_map(s).contains_key((worker_id, t)) && #[trigger] as_map(s)[(worker_id, t)] == p,
        ports_of(s, worker_id).no_duplicates(),
{
    let m = as_map(s);
    lemma_ports_of(s, worker_id);
    assert forall|p: u64| #[trigger] ports_of(s, worker_id).contains(p) <==> exists|t: T::Id|
        m.contains_key((worker_id, t)) && #[trigger] m[(worker_id, t)] == p by {
        if ports_of(s, worker_id).contains(p) {
            let k = ports_of(s, worker_id).index_of(p);
            assert(stands_for(s, worker_id, ports_of(s, worker_id)[k]));
            let j = choose|j: int|
                0 <= j < s.len() && (#[trigger] s[j]).0.0 == worker_id && s[j].1
                    == ports_of(s, worker_id)[k];
            lemma_position_unique(s, j);
            assert(m.contains_key((worker_id, s[j].0.1.id())));
            assert(m[(worker_id, s[j].0.1.id())] == p);
        }
        if exists|t: T::Id| m.contains_key((worker_id, t)) && #[trigger] m[(worker_id, t)] == p {
            let t = choose|t: T::Id|
                m.contains_key((worker_id, t)) && #[trigger] m[(worker_id, t)] == p;
            assert(has_key(s, (worker_id, t)));
            let j = position(s, (worker_id, t));
            assert(0 <= j < s.len() && s[j].0.id() == (worker_id, t));
            lemma_position_unique(s, j);
            lemma_port_listed(s, worker_id, j);
        }
    }
    lemma_ports_differ(s, worker_id, next);
}

/// A port stands in a list for some target of a worker.
spec fn stands_for<T: Key>(s: Seq<((WorkerId, T), u64)>, worker_id: WorkerId, port: u64) -> bool {
    exists|j: int| 0 <= j < s.len() && (#[trigger] s[j]).0.0 == worker_id && s[j].1 == port
}

proof fn lemma_ports_of<T: Key>(s: Seq<((WorkerId, T), u64)>, worker_id: WorkerId)
    ensures
        forall|k: int|
            0 <= k < ports_of(s, worker_id).len() ==> stands_for(
                s,
                worker_id,
                #[trigger] ports_of(s, worker_id)[k],
            ),
    decreases s.len(),
{
    if s.len() > 0 {
        let front = s.drop_last();
        let rest = ports_of(front, worker_id);
        let all = ports_of(s, worker_id);
        lemma_ports_of(front, worker_id);
        assert forall|k: int| 0 <= k < all.len() implies stands_for(
            s,
            worker_id,
            #[trigger] all[k],
        ) by {
            if k < rest.len() {
                assert(stands_for(front, worker_id, rest[k]));
                let j = choose|j: int|
                    0 <= j < front.len() && (#[trigger] front[j]).0.0 == worker_id && front[j].1
                        == rest[k];
                assert(s[j] == front[j]);
            } else {
                assert(s[s.len() - 1].0.0 == worker_id && s[s.len() - 1].1 == all[k]);
            }
        }
    }
}

proof fn lemma_port_listed<T: Key>(s: Seq<((WorkerId, T), u64)>, worker_id: WorkerId, j: int)
    requires
        0 <= j < s.len(),
        s[j].0.0 == worker_id,
    ensures
        ports_of(s, worker_id).contains(s[j].1),
    decreases s.len(),
{
    let front = s.drop_last();
    let rest = ports_of(front, worker_id);
    let all = ports_of(s, worker_id);
    if j < front.len() {
        lemma_port_listed(front, worker_id, j);
        let k = rest.index_of(s[j].1);
        assert(all[k] == s[j].1);
    } else {
        assert(all[rest.len() as int] == s[j].1);
    }
}

proof fn lemma_ports_differ<T: Key>(
    s: Seq<((WorkerId, T), u64)>,
    worker_id: WorkerId,
    next: u64,
)
    requires
        increasing(s),
        apart(as_map(s), next),
    ensures
        ports_of(s, worker_id).no_duplicates(),
    decreases s.len(),
{
    if s.len() > 0 {
        let front = s.drop_last();
        let rest = ports_of(front, worker_id);
        let all = ports_of(s, worker_id);
        let last = s.len() - 1;
        assert(increasing(front));
        assert(apart(as_map(front), next)) by {
            assert forall|k: (WorkerId, T::Id)| #[trigger] as_map(front).contains_key(k) implies as_map(
                s,
            ).contains_key(k) && as_map(s)[k] == as_map(front)[k] by {
                assert(has_key(front, k));
                let j = position(front, k);
                assert(0 <= j < front.len() && front[j].0.id() == k);
                assert(s[j] == front[j]);
                lemma_position_unique(front, j);
                lemma_position_unique(s, j);
            }
        }
        lemma_ports_differ(front, worker_id, next);
        lemma_ports_of(front, worker_id);
        assert forall|a: int, b: int| 0 <= a < b < all.len() implies all[a] != all[b] by {
            if b < rest.len() {
                assert(rest[a] != rest[b]);
            } else {
                assert(stands_for(front, worker_id, rest[a]));
                let j = choose|j: int|
                    0 <= j < front.len() && (#[trigger] front[j]).0.0 == worker_id && front[j].1
                        == rest[a];
                assert(s[j] == front[j]);
                lemma_position_unique(s, j);
                lemma_position_unique(s, last);
                assert(as_map(s).contains_key(s[j].0.id()));
                assert(as_map(s).contains_key(s[last].0.id()));
            }
        }
    }
}

} // verus!
