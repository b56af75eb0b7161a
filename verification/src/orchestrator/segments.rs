//! Segment numbers: every namespace has one of its own.
use vstd::prelude::*;

use crate::orchestrator::Orchestrator;
use crate::sorted_map::SortedMap;

verus! {

/// The number that is `d` places after `next`, round the end.
pub open spec fn place(next: u16, d: int) -> u16 {
    ((next + d) % 0x1_0000) as u16
}

/// Whether a number can be given out.
pub open spec fn usable(active: Map<u16, ()>, id: u16) -> bool {
    id != 0 && !active.contains_key(id)
}

/// Whether a number is the first that can be given out, from the place `next` on.
pub open spec fn first_usable(active: Map<u16, ()>, next: u16, id: u16) -> bool {
    &&& usable(active, id)
    &&& exists|d: int|
        0 <= d < 0x1_0000 && id == #[trigger] place(next, d) && forall|e: int|
            0 <= e < d ==> !usable(active, #[trigger] place(next, e))
}

/// The first number that can be given out, from the place `next` on, round the end.
pub fn find_segment(active: &SortedMap<u16, ()>, next: u16) -> (r: u16)
    requires
        exists|id: u16| usable(active@, id),
    ensures
        first_usable(active@, next, r),
{
    let ghost w = choose|id: u16| usable(active@, id);
    let ghost goal = (w - next) % 0x1_0000;
    let ghost mut d: int = 0;
    assert(place(next, goal) == w) by {
        assert((next + goal) % 0x1_0000 == w);
    }
    let mut id: u16 = next;
    loop
        invariant
            0 <= d <= goal < 0x1_0000,
            place(next, goal) == w,
            usable(active@, w),
            id == place(next, d),
            forall|e: int| 0 <= e < d ==> !usable(active@, #[trigger] place(next, e)),
        decreases goal - d,
    {
        if id != 0 && !active.contains_key(&id) {
            return id;
        }
        proof {
            assert(!usable(active@, place(next, d)));
            assert(d != goal);
            assert(place(place(next, d), 1) == place(next, d + 1));
            d = d + 1;
        }
        id = following(id);
    }
}

/// The number after a number, round the end.
pub fn following(id: u16) -> (r: u16)
    ensures
        r == place(id, 1),
{
    if id == u16::MAX {
        0
    } else {
        id + 1
    }
}

impl Orchestrator {
    /// Gives out the first number, from the place after the last one on, that is free. Zero is
    /// never given out.
    pub fn alloc_segment_id(&mut self) -> (r: u16)
        requires
            exists|id: u16| usable(old(self).active_segment_ids@, id),
        ensures
            first_usable(old(self).active_segment_ids@, old(self).next_segment_id, r),
            *final(self) == (Orchestrator {
                next_segment_id: place(r, 1),
                active_segment_ids: final(self).active_segment_ids,
                ..*old(self)
            }),
            final(self).active_segment_ids@ == old(self).active_segment_ids@.insert(r, ()),
    {
        let id: u16 = find_segment(&self.active_segment_ids, self.next_segment_id);
        self.next_segment_id = following(id);
        self.active_segment_ids.insert(id, ());
        id
    }

    /// Takes a number back.
    pub fn free_segment_id(&mut self, id: u16)
        ensures
            *final(self) == (Orchestrator {
                active_segment_ids: final(self).active_segment_ids,
                ..*old(self)
            }),
            final(self).active_segment_ids@ == old(self).active_segment_ids@.remove(id),
    {
        let _ = self.active_segment_ids.remove(&id);
    }

    /// The numbers that are given out are those of the namespaces, and no two namespaces share one.
    pub open spec fn segments_match(self) -> bool {
        &&& forall|n: Seq<char>| #[trigger]
            self.namespaces@.contains_key(n) ==> self.active_segment_ids@.contains_key(
                self.namespaces@[n].segment_id,
            )
        &&& forall|n: Seq<char>, m: Seq<char>|
            #![trigger self.namespaces@[n], self.namespaces@[m]]
            self.namespaces@.contains_key(n) && self.namespaces@.contains_key(m) && n != m
                ==> self.namespaces@[n].segment_id != self.namespaces@[m].segment_id
        &&& forall|id: u16| #[trigger]
            self.active_segment_ids@.contains_key(id) ==> exists|n: Seq<char>| #[trigger]
                self.namespaces@.contains_key(n) && self.namespaces@[n].segment_id == id
    }
}

} // verus!
