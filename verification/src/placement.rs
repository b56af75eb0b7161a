//! Where snapshots are stored.
use vstd::prelude::*;

use crate::ids::{ArtifactId, PoolId, WorkerId};
use crate::sorted_map::{erase, upsert, Key, SortedMap};

verus! {

#[derive(Debug, Clone, Copy, PartialEq, Eq, Structural)]
pub enum ArtifactStatus {
    Writing,
    Ready,
}

/// The store that holds a snapshot.
#[derive(Debug, PartialEq, Eq)]
pub struct ArtifactPlacement {
    pub pool_id: PoolId,
    pub worker_id: WorkerId,
    pub status: ArtifactStatus,
}

impl Clone for ArtifactPlacement {
    fn clone(&self) -> (r: Self)
        ensures
            r == *self,
    {
        ArtifactPlacement {
            pool_id: self.pool_id.clone(),
            worker_id: self.worker_id.clone(),
            status: self.status,
        }
    }
}

/// Which snapshot lies where.
pub struct PlacementTable {
    pub placements: SortedMap<ArtifactId, ArtifactPlacement>,
}

/// `m` without what lies on worker `w`.
pub open spec fn off_worker(m: Map<Seq<char>, ArtifactPlacement>, w: Seq<char>) -> Map<
    Seq<char>,
    ArtifactPlacement,
> {
    m.remove_keys(Set::new(|a: Seq<char>| m.contains_key(a) && m[a].worker_id.id() == w))
}

impl PlacementTable {
    pub open spec fn view(&self) -> Map<Seq<char>, ArtifactPlacement> {
        self.placements@
    }

    pub open spec fn seq(&self) -> Seq<(ArtifactId, ArtifactPlacement)> {
        self.placements.seq()
    }

    pub fn new() -> (r: Self)
        ensures
            r@ == Map::<Seq<char>, ArtifactPlacement>::empty(),
            r.seq() == Seq::<(ArtifactId, ArtifactPlacement)>::empty(),
    {
        PlacementTable { placements: SortedMap::new() }
    }

    pub fn get(&self, artifact_id: &ArtifactId) -> (r: Option<&ArtifactPlacement>)
        ensures
            r matches Some(p) ==> self@.contains_key(artifact_id.id()) && *p
                == self@[artifact_id.id()],
            r is None ==> !self@.contains_key(artifact_id.id()),
    {
        self.placements.get(artifact_id)
    }

    pub fn insert(&mut self, artifact_id: ArtifactId, placement: ArtifactPlacement)
        ensures
            final(self)@ == old(self)@.insert(artifact_id.id(), placement),
            final(self).seq() == upsert(old(self).seq(), artifact_id, placement),
    {
        self.placements.insert(artifact_id, placement);
    }

    pub fn remove(&mut self, artifact_id: &ArtifactId) -> (r: Option<ArtifactPlacement>)
        ensures
            final(self)@ == old(self)@.remove(artifact_id.id()),
            final(self).seq() == erase(old(self).seq(), artifact_id.id()),
            r matches Some(p) ==> old(self)@.contains_key(artifact_id.id()) && p == old(
                self,
            )@[artifact_id.id()],
            r is None ==> !old(self)@.contains_key(artifact_id.id()),
    {
        self.placements.remove(artifact_id)
    }

    /// Records that a snapshot is complete.
    pub fn mark_ready(&mut self, artifact_id: &ArtifactId)
        ensures
            final(self)@ == (if old(self)@.contains_key(artifact_id.id()) {
                old(self)@.insert(
                    artifact_id.id(),
                    ArtifactPlacement {
                        status: ArtifactStatus::Ready,
                        ..old(self)@[artifact_id.id()]
                    },
                )
            } else {
                old(self)@
            }),
    {
        match self.placements.get(artifact_id) {
            Some(p) => {
                let ready = ArtifactPlacement {
                    pool_id: p.pool_id.clone(),
                    worker_id: p.worker_id.clone(),
                    status: ArtifactStatus::Ready,
                };
                self.placements.insert(artifact_id.clone(), ready);
            },
            None => {},
        }
    }

    /// Forgets what lies on a worker.
    pub fn remove_by_worker(&mut self, worker_id: &WorkerId)
        ensures
            final(self)@ == off_worker(old(self)@, worker_id.id()),
    {
        let ghost w = worker_id.id();
        let ghost m = self.placements@;
        let test = |_a: &ArtifactId, p: &ArtifactPlacement| -> (r: bool)
            ensures
                r == (p.worker_id.id() != worker_id.id()),
            {
                !p.worker_id.same(worker_id)
            };
        self.placements.retain(
            test,
            Ghost(|_a: Seq<char>, p: ArtifactPlacement| p.worker_id.id() != w),
        );
        assert(self.placements@ =~= off_worker(m, w));
    }
}

/// After a worker is forgotten no snapshot lies on it, and the others lie where they lay.
pub proof fn law_off_worker(m: Map<Seq<char>, ArtifactPlacement>, w: Seq<char>, a: Seq<char>)
    ensures
        off_worker(m, w).contains_key(a) <==> (m.contains_key(a) && m[a].worker_id.id() != w),
        off_worker(m, w).contains_key(a) ==> off_worker(m, w)[a] == m[a],
{
}

} // verus!
