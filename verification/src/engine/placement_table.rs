//! Which snapshot lies on which workers.
use vstd::prelude::*;

use crate::engine::types::ArtifactPlacementEvent;
use crate::ids::{ArtifactId, PoolId};
use crate::sm::WorkerId;
use crate::sorted_map::{Key, SortedMap};

verus! {

/// How far a copy of a snapshot is.
#[derive(Debug, PartialEq, Eq)]
pub enum ArtifactStatus {
    Writing,
    Ready { pool_id: PoolId, size_bytes: u64 },
}

/// The copies of all snapshots.
pub type Copies = Map<Seq<char>, Map<WorkerId, ArtifactStatus>>;

pub struct PlacementTable {
    entries: SortedMap<ArtifactId, SortedMap<WorkerId, ArtifactStatus>>,
}

/// With a copy on a worker.
pub open spec fn with_copy(
    copies: Copies,
    artifact: Seq<char>,
    worker_id: WorkerId,
    status: ArtifactStatus,
) -> Copies {
    copies.insert(
        artifact,
        (if copies.contains_key(artifact) {
            copies[artifact]
        } else {
            Map::empty()
        }).insert(worker_id, status),
    )
}

/// Without the copy on a worker. A snapshot without copies is forgotten.
pub open spec fn without_copy(copies: Copies, artifact: Seq<char>, worker_id: WorkerId) -> Copies {
    if !copies.contains_key(artifact) {
        copies
    } else if copies[artifact].remove(worker_id) == Map::<WorkerId, ArtifactStatus>::empty() {
        copies.remove(artifact)
    } else {
        copies.insert(artifact, copies[artifact].remove(worker_id))
    }
}

/// After what a worker reports of a snapshot.
pub open spec fn applied(
    copies: Copies,
    worker_id: WorkerId,
    event: ArtifactPlacementEvent,
) -> Copies {
    match event {
        ArtifactPlacementEvent::WriteStarted { artifact_id, .. } => with_copy(
            copies,
            artifact_id.id(),
            worker_id,
            ArtifactStatus::Writing,
        ),
        ArtifactPlacementEvent::WriteCommitted { artifact_id, pool_id, size_bytes } => with_copy(
            copies,
            artifact_id.id(),
            worker_id,
            ArtifactStatus::Ready { pool_id, size_bytes },
        ),
        ArtifactPlacementEvent::TransferReceived { artifact_id, pool_id, size_bytes } => with_copy(
            copies,
            artifact_id.id(),
            worker_id,
            ArtifactStatus::Ready { pool_id, size_bytes },
        ),
        ArtifactPlacementEvent::TransferFailed { artifact_id } => without_copy(
            copies,
            artifact_id.id(),
            worker_id,
        ),
    }
}

/// Without all copies on a worker.
pub open spec fn without_host(copies: Copies, worker_id: WorkerId) -> Copies {
    Map::new(
        |a: Seq<char>|
            copies.contains_key(a) && copies[a].remove(worker_id) != Map::<
                WorkerId,
                ArtifactStatus,
            >::empty(),
        |a: Seq<char>| copies[a].remove(worker_id),
    )
}

/// Whether a worker has a copy that can be used.
pub open spec fn ready_on(copies: Copies, artifact: Seq<char>, worker_id: WorkerId) -> bool {
    copies.contains_key(artifact) && copies[artifact].contains_key(worker_id)
        && copies[artifact][worker_id] is Ready
}

/// Whether some worker has a copy that can be used.
pub open spec fn reachable(copies: Copies, artifact: Seq<char>) -> bool {
    exists|w: WorkerId| ready_on(copies, artifact, w)
}

/// Whether a worker is among the first `n` of a list, with a copy that can be used.
spec fn ready_among(s: Seq<(WorkerId, ArtifactStatus)>, n: int, worker_id: WorkerId) -> bool {
    exists|j: int| 0 <= j < n && (#[trigger] s[j]).0 == worker_id && s[j].1 is Ready
}

impl PlacementTable {
    pub closed spec fn view(&self) -> Copies {
        self.entries@.map_values(|m: SortedMap<WorkerId, ArtifactStatus>| m@)
    }

    pub fn new() -> (r: Self)
        ensures
            r@ == Map::<Seq<char>, Map<WorkerId, ArtifactStatus>>::empty(),
    {
        let r = PlacementTable { entries: SortedMap::new() };
        assert(r@ =~= Map::<Seq<char>, Map<WorkerId, ArtifactStatus>>::empty());
        r
    }

    fn put(&mut self, artifact_id: ArtifactId, worker_id: WorkerId, status: ArtifactStatus)
        ensures
            final(self)@ == with_copy(old(self)@, artifact_id.id(), worker_id, status),
    {
        let mut copies: SortedMap<WorkerId, ArtifactStatus> = match self.entries.remove(
            &artifact_id,
        ) {
            Some(copies) => copies,
            None => SortedMap::new(),
        };
        copies.insert(worker_id, status);
        self.entries.insert(artifact_id, copies);
        assert(self@ =~= with_copy(old(self)@, artifact_id.id(), worker_id, status));
    }

    /// Takes in what a worker reports of a snapshot.
    pub fn apply_event(&mut self, worker_id: WorkerId, event: ArtifactPlacementEvent)
        ensures
            final(self)@ == applied(old(self)@, worker_id, event),
    {
        match event {
            ArtifactPlacementEvent::WriteStarted { artifact_id, .. } => {
                self.put(artifact_id, worker_id, ArtifactStatus::Writing);
            },
            ArtifactPlacementEvent::WriteCommitted { artifact_id, pool_id, size_bytes } => {
                self.put(artifact_id, worker_id, ArtifactStatus::Ready { pool_id, size_bytes });
            },
            ArtifactPlacementEvent::TransferReceived { artifact_id, pool_id, size_bytes } => {
                self.put(artifact_id, worker_id, ArtifactStatus::Ready { pool_id, size_bytes });
            },
            ArtifactPlacementEvent::TransferFailed { artifact_id } => {
                match self.entries.remove(&artifact_id) {
                    Some(mut copies) => {
                        let _ = copies.remove(&worker_id);
                        if !copies.is_empty() {
                            self.entries.insert(artifact_id, copies);
                        }
                    },
                    None => {},
                }
                assert(self@ =~= applied(old(self)@, worker_id, event));
            },
        }
    }

    /// Forgets all copies on a worker.
    pub fn remove_worker(&mut self, worker_id: WorkerId)
        ensures
            final(self)@ == without_host(old(self)@, worker_id),
    {
        let ghost before = self.entries@;
        let forget = |copies: SortedMap<WorkerId, ArtifactStatus>| -> (r: SortedMap<
            WorkerId,
            ArtifactStatus,
        >)
            ensures
                r@ == copies@.remove(worker_id),
            {
                let mut copies: SortedMap<WorkerId, ArtifactStatus> = copies;
                let _ = copies.remove(&worker_id);
                copies
            };
        self.entries.replace_values(forget);
        let ghost mid = self.entries@;
        let test = |_a: &ArtifactId, copies: &SortedMap<WorkerId, ArtifactStatus>| -> (r: bool)
            ensures
                r == (copies@ != Map::<WorkerId, ArtifactStatus>::empty()),
            {
                !copies.is_empty()
            };
        self.entries.retain(
            test,
            Ghost(
                |_a: Seq<char>, copies: SortedMap<WorkerId, ArtifactStatus>|
                    copies@ != Map::<WorkerId, ArtifactStatus>::empty(),
            ),
        );
        proof {
            assert forall|a: Seq<char>| #[trigger] before.contains_key(a) implies mid.contains_key(a)
                && mid[a]@ == before[a]@.remove(worker_id) by {
                assert(mid.dom().contains(a));
                assert(mid.contains_key(a));
            }
            assert forall|a: Seq<char>| #[trigger] mid.contains_key(a) implies before.contains_key(
                a,
            ) by {
                assert(before.dom().contains(a));
            }
            let goal = without_host(old(self)@, worker_id);
            assert forall|a: Seq<char>| #[trigger] self@.dom().contains(a) <==> goal.dom().contains(
                a,
            ) by {
                assert(before.contains_key(a) <==> mid.contains_key(a));
            }
            assert(self@ =~= goal);
        }
    }

    /// Forgets a snapshot.
    pub fn remove_artifact(&mut self, artifact_id: &ArtifactId)
        ensures
            final(self)@ == old(self)@.remove(artifact_id.id()),
    {
        let _ = self.entries.remove(artifact_id);
        assert(self@ =~= old(self)@.remove(artifact_id.id()));
    }

    /// Whether a worker has a copy that can be used.
    pub fn is_ready_on(&self, artifact_id: &ArtifactId, worker_id: WorkerId) -> (r: bool)
        ensures
            r == ready_on(self@, artifact_id.id(), worker_id),
    {
        match self.entries.get(artifact_id) {
            Some(copies) => match copies.get(&worker_id) {
                Some(ArtifactStatus::Ready { .. }) => true,
                _ => false,
            },
            None => false,
        }
    }

    /// The workers that have a copy that can be used, in order.
    pub fn workers_with_artifact(&self, artifact_id: &ArtifactId) -> (r: Vec<WorkerId>)
        ensures
            forall|w: WorkerId| r@.contains(w) <==> ready_on(self@, artifact_id.id(), w),
            forall|i: int, j: int| 0 <= i < j < r@.len() ==> (#[trigger] r@[i]).0 < (#[trigger] r@[j]).0,
    {
        let mut r: Vec<WorkerId> = Vec::new();
        match self.entries.get(artifact_id) {
            Some(copies) => {
                let n: usize = copies.len();
                let ghost s = copies.seq();
                let ghost a = artifact_id.id();
                assert(self@[a] == copies@);
                let mut i: usize = 0;
                while i < n
                    invariant
                        n == s.len(),
                        s == copies.seq(),
                        crate::sorted_map::increasing(s),
                        i <= n,
                        self@.contains_key(a),
                        self@[a] == copies@,
                        forall|j: int|
                            0 <= j < i && s[j].1 is Ready ==> r@.contains((#[trigger] s[j]).0),
                        forall|k: int|
                            0 <= k < r@.len() ==> ready_among(s, i as int, #[trigger] r@[k]),
                        forall|k: int, l: int|
                            0 <= k < l < r@.len() ==> (#[trigger] r@[k]).0 < (#[trigger] r@[l]).0,
                    decreases n - i,
                {
                    let ghost before = r@;
                    if let ArtifactStatus::Ready { .. } = copies.value_at(i) {
                        proof {
                            assert forall|k: int| 0 <= k < r@.len() implies (#[trigger] r@[k]).0
                                < s[i as int].0.0 by {
                                assert(ready_among(s, i as int, r@[k]));
                                let j = choose|j: int|
                                    0 <= j < i && (#[trigger] s[j]).0 == r@[k] && s[j].1 is Ready;
                                assert(WorkerId::before(s[j].0.id(), s[i as int].0.id()));
                            }
                        }
                        r.push(*copies.key_at(i));
                        proof {
                            assert(r@[before.len() as int] == s[i as int].0);
                            assert forall|j: int| 0 <= j < i + 1 && s[j].1 is Ready implies r@.contains(
                                (#[trigger] s[j]).0,
                            ) by {
                                if j < i {
                                    let k = before.index_of(s[j].0);
                                    assert(r@[k] == s[j].0);
                                }
                            }
                        }
                    }
                    proof {
                        assert forall|k: int| 0 <= k < r@.len() implies ready_among(
                            s,
                            i + 1,
                            #[trigger] r@[k],
                        ) by {
                            if k < before.len() {
                                assert(ready_among(s, i as int, before[k]));
                                let j = choose|j: int|
                                    0 <= j < i && (#[trigger] s[j]).0 == before[k]
                                        && s[j].1 is Ready;
                                assert(s[j].0 == r@[k]);
                            } else {
                                assert(s[i as int].0 == r@[k]);
                            }
                        }
                    }
                    i = i + 1;
                }
                proof {
                    assert forall|w: WorkerId| r@.contains(w) <==> ready_on(self@, a, w) by {
                        if r@.contains(w) {
                            let k = r@.index_of(w);
                            assert(ready_among(s, i as int, r@[k]));
                            let j = choose|j: int|
                                0 <= j < i && (#[trigger] s[j]).0 == r@[k] && s[j].1 is Ready;
                            crate::sorted_map::lemma_position_unique(s, j);
                        }
                        if ready_on(self@, a, w) {
                            let j = crate::sorted_map::position(s, w);
                            assert(s[j].0 == w);
                        }
                    }
                }
            },
            None => {},
        }
        r
    }

    /// The first worker that has a copy that can be used, and the store that holds it.
    pub fn any_worker_with_artifact(&self, artifact_id: &ArtifactId) -> (r: Option<
        (WorkerId, PoolId),
    >)
        ensures
            match r {
                Some(p) => {
                    &&& ready_on(self@, artifact_id.id(), p.0)
                    &&& self@[artifact_id.id()][p.0]->pool_id == p.1
                    &&& forall|w: WorkerId| #[trigger]
                        ready_on(self@, artifact_id.id(), w) ==> p.0.0 <= w.0
                },
                None => !reachable(self@, artifact_id.id()),
            },
    {
        let copies: &SortedMap<WorkerId, ArtifactStatus> = match self.entries.get(artifact_id) {
            Some(copies) => copies,
            None => {
                return None;
            },
        };
        let n: usize = copies.len();
        let ghost s = copies.seq();
        let ghost a = artifact_id.id();
        assert(self@[a] == copies@);
        let mut i: usize = 0;
        while i < n
            invariant
                n == s.len(),
                s == copies.seq(),
                crate::sorted_map::increasing(s),
                i <= n,
                a == artifact_id.id(),
                self@.contains_key(a),
                self@[a] == copies@,
                forall|j: int| 0 <= j < i ==> !((#[trigger] s[j]).1 is Ready),
            decreases n - i,
        {
            if let ArtifactStatus::Ready { pool_id, .. } = copies.value_at(i) {
                proof {
                    crate::sorted_map::lemma_position_unique(s, i as int);
                    assert forall|w: WorkerId| #[trigger] ready_on(self@, a, w) implies s[i as int].0.0
                        <= w.0 by {
                        let j = crate::sorted_map::position(s, w);
                        assert(s[j].0 == w);
                        assert(j >= i);
                        if j > i {
                            assert(WorkerId::before(s[i as int].0.id(), s[j].0.id()));
                        }
                    }
                }
                return Some((*copies.key_at(i), pool_id.clone()));
            }
            i = i + 1;
        }
        proof {
            assert forall|w: WorkerId| !ready_on(self@, a, w) by {
                if ready_on(self@, a, w) {
                    let j = crate::sorted_map::position(s, w);
                    assert(s[j].0 == w);
                }
            }
        }
        None
    }
}

/// Without a worker no copy on it is left, and the copies elsewhere stay as they were.
pub proof fn law_host_is_forgotten(copies: Copies, gone: WorkerId, artifact: Seq<char>, w: WorkerId)
    ensures
        ready_on(without_host(copies, gone), artifact, w) <==> (w != gone && ready_on(
            copies,
            artifact,
            w,
        )),
{
    if w != gone && ready_on(copies, artifact, w) {
        let rest = copies[artifact].remove(gone);
        assert(rest.contains_key(w));
        assert(rest != Map::<WorkerId, ArtifactStatus>::empty());
    }
}

} // verus!
