//! An ordered table: a vector of entries kept in strictly increasing key order.
use vstd::prelude::*;

verus! {

/// A key of a [`SortedMap`]: a value with an identity and a strict total order on identities.
pub trait Key: Sized {
    /// What two equal keys have in common.
    type Id;

    spec fn id(&self) -> Self::Id;

    /// The strict order on identities.
    spec fn before(a: Self::Id, b: Self::Id) -> bool;

    proof fn before_irreflexive(a: Self::Id)
        ensures
            !Self::before(a, a),
    ;

    proof fn before_transitive(a: Self::Id, b: Self::Id, c: Self::Id)
        requires
            Self::before(a, b),
            Self::before(b, c),
        ensures
            Self::before(a, c),
    ;

    proof fn before_total(a: Self::Id, b: Self::Id)
        ensures
            Self::before(a, b) || Self::before(b, a) || a == b,
    ;

    fn same(&self, other: &Self) -> (r: bool)
        ensures
            r == (self.id() == other.id()),
    ;

    fn precedes(&self, other: &Self) -> (r: bool)
        ensures
            r == Self::before(self.id(), other.id()),
    ;

    /// A copy of the key.
    fn duplicate(&self) -> (r: Self)
        ensures
            r == *self,
    ;
}

impl Key for u16 {
    type Id = u16;

    open spec fn id(&self) -> u16 {
        *self
    }

    open spec fn before(a: u16, b: u16) -> bool {
        a < b
    }

    proof fn before_irreflexive(a: u16) {
    }

    proof fn before_transitive(a: u16, b: u16, c: u16) {
    }

    proof fn before_total(a: u16, b: u16) {
    }

    fn same(&self, other: &Self) -> (r: bool) {
        *self == *other
    }

    fn precedes(&self, other: &Self) -> (r: bool) {
        *self < *other
    }

    fn duplicate(&self) -> (r: Self) {
        *self
    }
}

impl Key for u64 {
    type Id = u64;

    open spec fn id(&self) -> u64 {
        *self
    }

    open spec fn before(a: u64, b: u64) -> bool {
        a < b
    }

    proof fn before_irreflexive(a: u64) {
    }

    proof fn before_transitive(a: u64, b: u64, c: u64) {
    }

    proof fn before_total(a: u64, b: u64) {
    }

    fn same(&self, other: &Self) -> (r: bool) {
        *self == *other
    }

    fn precedes(&self, other: &Self) -> (r: bool) {
        *self < *other
    }

    fn duplicate(&self) -> (r: Self) {
        *self
    }
}

/// Pairs are ordered by their first part, then by their second.
impl<A: Key, B: Key> Key for (A, B) {
    type Id = (A::Id, B::Id);

    open spec fn id(&self) -> (A::Id, B::Id) {
        (self.0.id(), self.1.id())
    }

    open spec fn before(a: (A::Id, B::Id), b: (A::Id, B::Id)) -> bool {
        A::before(a.0, b.0) || (a.0 == b.0 && B::before(a.1, b.1))
    }

    proof fn before_irreflexive(a: (A::Id, B::Id)) {
        A::before_irreflexive(a.0);
        B::before_irreflexive(a.1);
    }

    proof fn before_transitive(a: (A::Id, B::Id), b: (A::Id, B::Id), c: (A::Id, B::Id)) {
        if A::before(a.0, b.0) {
            if A::before(b.0, c.0) {
                A::before_transitive(a.0, b.0, c.0);
            }
        } else if !A::before(b.0, c.0) {
            B::before_transitive(a.1, b.1, c.1);
        }
    }

    proof fn before_total(a: (A::Id, B::Id), b: (A::Id, B::Id)) {
        A::before_total(a.0, b.0);
        B::before_total(a.1, b.1);
    }

    fn same(&self, other: &Self) -> (r: bool) {
        self.0.same(&other.0) && self.1.same(&other.1)
    }

    fn precedes(&self, other: &Self) -> (r: bool) {
        self.0.precedes(&other.0) || (self.0.same(&other.0) && self.1.precedes(&other.1))
    }

    fn duplicate(&self) -> (r: Self) {
        (self.0.duplicate(), self.1.duplicate())
    }
}

/// The keys of `s` increase strictly.
pub open spec fn increasing<K: Key, V>(s: Seq<(K, V)>) -> bool {
    forall|i: int, j: int|
        0 <= i < j < s.len() ==> K::before((#[trigger] s[i]).0.id(), (#[trigger] s[j]).0.id())
}

/// `s` holds an entry under the key `k`.
pub open spec fn has_key<K: Key, V>(s: Seq<(K, V)>, k: K::Id) -> bool {
    exists|i: int| 0 <= i < s.len() && (#[trigger] s[i]).0.id() == k
}

/// Where `s` holds its entry under the key `k`.
pub open spec fn position<K: Key, V>(s: Seq<(K, V)>, k: K::Id) -> int {
    choose|i: int| 0 <= i < s.len() && (#[trigger] s[i]).0.id() == k
}

/// The entries of `s` as a map from key identities to values.
pub open spec fn as_map<K: Key, V>(s: Seq<(K, V)>) -> Map<K::Id, V> {
    Map::new(|k: K::Id| has_key(s, k), |k: K::Id| s[position(s, k)].1)
}

/// The key identities of `s` in order.
pub open spec fn keys_of<K: Key, V>(s: Seq<(K, V)>) -> Seq<K::Id> {
    Seq::new(s.len(), |i: int| s[i].0.id())
}

/// Two tables hold the same keys.
pub open spec fn same_keys<K: Key, V, W>(s: Seq<(K, V)>, t: Seq<(K, W)>) -> bool {
    &&& s.len() == t.len()
    &&& forall|i: int| 0 <= i < s.len() ==> (#[trigger] s[i]).0 == t[i].0
}

/// `r` entries of `s` come before the key `k`, and they stand first.
pub open spec fn splits<K: Key, V>(s: Seq<(K, V)>, k: K::Id, r: int) -> bool {
    &&& 0 <= r <= s.len()
    &&& forall|i: int| 0 <= i < r ==> K::before((#[trigger] s[i]).0.id(), k)
    &&& forall|i: int| r <= i < s.len() ==> !K::before((#[trigger] s[i]).0.id(), k)
}

/// How many entries of `s` come before the key `k`.
pub open spec fn rank<K: Key, V>(s: Seq<(K, V)>, k: K::Id) -> int {
    choose|r: int| splits(s, k, r)
}

/// `s` with the value under `k` set.
pub open spec fn upsert<K: Key, V>(s: Seq<(K, V)>, k: K, v: V) -> Seq<(K, V)> {
    if has_key(s, k.id()) {
        s.update(position(s, k.id()), (s[position(s, k.id())].0, v))
    } else {
        s.insert(rank(s, k.id()), (k, v))
    }
}

/// `s` without its entry under `k`.
pub open spec fn erase<K: Key, V>(s: Seq<(K, V)>, k: K::Id) -> Seq<(K, V)> {
    if has_key(s, k) {
        s.remove(position(s, k))
    } else {
        s
    }
}

/// The entries of `s` that `keep` holds of, in order.
pub open spec fn filtered<K: Key, V>(s: Seq<(K, V)>, keep: spec_fn(K::Id, V) -> bool) -> Seq<(K, V)>
    decreases s.len(),
{
    if s.len() == 0 {
        s
    } else {
        let rest = filtered(s.drop_last(), keep);
        if keep(s.last().0.id(), s.last().1) {
            rest.push(s.last())
        } else {
            rest
        }
    }
}

/// The part of `m` that `keep` holds of.
pub open spec fn restricted<I, V>(m: Map<I, V>, keep: spec_fn(I, V) -> bool) -> Map<I, V> {
    Map::new(|k: I| m.contains_key(k) && keep(k, m[k]), |k: I| m[k])
}

/// A filtered sequence holds what is kept, in the same order.
pub proof fn lemma_filtered<K: Key, V>(s: Seq<(K, V)>, keep: spec_fn(K::Id, V) -> bool)
    requires
        increasing(s),
    ensures
        increasing(filtered(s, keep)),
        as_map(filtered(s, keep)) == restricted(as_map(s), keep),
        forall|i: int|
            0 <= i < filtered(s, keep).len() ==> exists|j: int|
                0 <= j < s.len() && s[j] == (#[trigger] filtered(s, keep)[i]),
    decreases s.len(),
{
    let f = filtered(s, keep);
    if s.len() == 0 {
        assert(as_map(f) =~= restricted(as_map(s), keep));
    } else {
        let t = s.drop_last();
        let last = s.last();
        lemma_filtered(t, keep);
        let g = filtered(t, keep);
        assert forall|i: int| 0 <= i < f.len() implies exists|j: int|
            0 <= j < s.len() && s[j] == (#[trigger] f[i]) by {
            if i < g.len() {
                assert(f[i] == g[i]);
                let j = choose|j: int| 0 <= j < t.len() && t[j] == g[i];
                assert(s[j] == f[i]);
            } else {
                assert(s[s.len() - 1] == f[i]);
            }
        }
        assert forall|a: int, b: int| 0 <= a < b < f.len() implies K::before(
            (#[trigger] f[a]).0.id(),
            (#[trigger] f[b]).0.id(),
        ) by {
            if b < g.len() {
                assert(f[a] == g[a] && f[b] == g[b]);
            } else {
                assert(f[a] == g[a]);
                let j = choose|j: int| 0 <= j < t.len() && t[j] == g[a];
                assert(s[j] == f[a]);
                assert(K::before(s[j].0.id(), s[s.len() - 1].0.id()));
            }
        }
        lemma_remove(s, s.len() - 1);
        assert(s.remove(s.len() - 1) =~= t);
        lemma_position_unique(s, s.len() - 1);
        let m = as_map(s);
        let k = last.0.id();
        assert forall|q: K::Id| as_map(f).contains_key(q) == restricted(m, keep).contains_key(q) by {
            if has_key(f, q) {
                let p = position(f, q);
                let j = choose|j: int| 0 <= j < s.len() && s[j] == f[p];
                lemma_position_unique(s, j);
                if p < g.len() {
                    lemma_position_unique(g, p);
                    assert(restricted(as_map(t), keep).contains_key(q));
                }
            }
            if restricted(m, keep).contains_key(q) {
                if q == k {
                    assert(f[f.len() - 1].0.id() == q);
                } else {
                    assert(as_map(t).contains_key(q));
                    assert(restricted(as_map(t), keep).contains_key(q));
                    assert(has_key(g, q));
                    let p = position(g, q);
                    assert(f[p].0.id() == q);
                }
            }
        }
        assert forall|q: K::Id| as_map(f).contains_key(q) implies as_map(f)[q] == restricted(
            m,
            keep,
        )[q] by {
            let p = position(f, q);
            lemma_position_unique(f, p);
            let j = choose|j: int| 0 <= j < s.len() && s[j] == f[p];
            lemma_position_unique(s, j);
        }
        assert(as_map(f) =~= restricted(m, keep));
    }
}

/// There is one place only at which an increasing sequence splits.
pub proof fn lemma_rank_unique<K: Key, V>(s: Seq<(K, V)>, k: K::Id, r: int)
    requires
        splits(s, k, r),
    ensures
        rank(s, k) == r,
{
    let q = rank(s, k);
    assert(splits(s, k, q));
    if q < r {
        assert(K::before(s[q].0.id(), k));
    } else if r < q {
        assert(K::before(s[r].0.id(), k));
    }
}

/// In an increasing sequence a key stands at one place only.
pub proof fn lemma_position_unique<K: Key, V>(s: Seq<(K, V)>, i: int)
    requires
        increasing(s),
        0 <= i < s.len(),
    ensures
        has_key(s, s[i].0.id()),
        position(s, s[i].0.id()) == i,
        as_map(s).contains_key(s[i].0.id()),
        as_map(s)[s[i].0.id()] == s[i].1,
{
    let k = s[i].0.id();
    let p = position(s, k);
    assert(0 <= i < s.len() && s[i].0.id() == k);
    assert(0 <= p < s.len() && s[p].0.id() == k);
    if p < i {
        assert(K::before(s[p].0.id(), s[i].0.id()));
        K::before_irreflexive(k);
    } else if i < p {
        assert(K::before(s[i].0.id(), s[p].0.id()));
        K::before_irreflexive(k);
    }
}

/// A table from keys to values, kept in key order.
#[derive(Debug, PartialEq, Eq)]
pub struct SortedMap<K: Key, V> {
    entries: Vec<(K, V)>,
}

impl<K: Key, V> SortedMap<K, V> {
    /// The entries are in strict key order.
    #[verifier::type_invariant]
    pub open spec fn ordered(self) -> bool {
        increasing(self.seq())
    }

    /// The entries in key order.
    pub closed spec fn seq(&self) -> Seq<(K, V)> {
        self.entries@
    }

    /// The table as a mathematical map.
    pub open spec fn view(&self) -> Map<K::Id, V> {
        as_map(self.seq())
    }

    /// The key identities in order.
    pub open spec fn keys(&self) -> Seq<K::Id> {
        keys_of(self.seq())
    }

    pub fn new() -> (r: Self)
        ensures
            r.seq() == Seq::<(K, V)>::empty(),
            r@ == Map::<K::Id, V>::empty(),
    {
        let r = SortedMap { entries: Vec::new() };
        proof {
            assert(as_map(r.entries@) =~= Map::<K::Id, V>::empty());
        }
        r
    }

    pub fn len(&self) -> (r: usize)
        ensures
            r == self.seq().len(),
            r == self@.dom().len(),
            self@.dom().finite(),
            increasing(self.seq()),
    {
        proof {
            use_type_invariant(self);
            lemma_len(self.entries@);
        }
        self.entries.len()
    }

    pub fn is_empty(&self) -> (r: bool)
        ensures
            r == (self.seq().len() == 0),
            r == (self@ == Map::<K::Id, V>::empty()),
    {
        proof {
            use_type_invariant(self);
            if self.entries@.len() == 0 {
                assert(as_map(self.entries@) =~= Map::<K::Id, V>::empty());
            } else {
                lemma_position_unique(self.entries@, 0);
            }
        }
        self.entries.len() == 0
    }

    /// The first index whose key is not before `k`.
    fn lower_bound(&self, k: &K) -> (r: usize)
        ensures
            r <= self.entries@.len(),
            forall|i: int| 0 <= i < r ==> K::before((#[trigger] self.entries@[i]).0.id(), k.id()),
            forall|i: int|
                r <= i < self.entries@.len() ==> !K::before(
                    (#[trigger] self.entries@[i]).0.id(),
                    k.id(),
                ),
            has_key(self.entries@, k.id()) <==> (r < self.entries@.len()
                && self.entries@[r as int].0.id() == k.id()),
    {
        proof {
            use_type_invariant(self);
        }
        let mut r: usize = 0;
        while r < self.entries.len() && self.entries[r].0.precedes(k)
            invariant
                r <= self.entries@.len(),
                forall|i: int|
                    0 <= i < r ==> K::before((#[trigger] self.entries@[i]).0.id(), k.id()),
            decreases self.entries@.len() - r,
        {
            r = r + 1;
        }
        proof {
            let s = self.entries@;
            assert forall|i: int| r <= i < s.len() implies !K::before(
                (#[trigger] s[i]).0.id(),
                k.id(),
            ) by {
                if r < i && K::before(s[i].0.id(), k.id()) {
                    assert(K::before(s[r as int].0.id(), s[i].0.id()));
                    K::before_transitive(s[r as int].0.id(), s[i].0.id(), k.id());
                }
            }
            if has_key(s, k.id()) {
                let p = position(s, k.id());
                K::before_irreflexive(k.id());
                assert(p >= r);
                if p > r {
                    assert(K::before(s[r as int].0.id(), s[p].0.id()));
                }
            }
        }
        r
    }

    pub fn contains_key(&self, k: &K) -> (r: bool)
        ensures
            r == self@.contains_key(k.id()),
    {
        let i: usize = self.lower_bound(k);
        i < self.entries.len() && self.entries[i].0.same(k)
    }

    pub fn get(&self, k: &K) -> (r: Option<&V>)
        ensures
            r matches Some(v) ==> self@.contains_key(k.id()) && *v == self@[k.id()],
            r is None ==> !self@.contains_key(k.id()),
    {
        let i: usize = self.lower_bound(k);
        if i < self.entries.len() && self.entries[i].0.same(k) {
            proof {
                use_type_invariant(self);
                lemma_position_unique(self.entries@, i as int);
            }
            Some(&self.entries[i].1)
        } else {
            None
        }
    }

    /// The key of the entry at place `i`.
    pub fn key_at(&self, i: usize) -> (r: &K)
        requires
            i < self.seq().len(),
        ensures
            *r == self.seq()[i as int].0,
            self@.contains_key(r.id()),
            self@[r.id()] == self.seq()[i as int].1,
            increasing(self.seq()),
    {
        proof {
            use_type_invariant(self);
            lemma_position_unique(self.entries@, i as int);
        }
        &self.entries[i].0
    }

    /// The value of the entry at place `i`.
    pub fn value_at(&self, i: usize) -> (r: &V)
        requires
            i < self.seq().len(),
        ensures
            *r == self.seq()[i as int].1,
            self@.contains_key(self.seq()[i as int].0.id()),
            *r == self@[self.seq()[i as int].0.id()],
            increasing(self.seq()),
    {
        proof {
            use_type_invariant(self);
            lemma_position_unique(self.entries@, i as int);
        }
        &self.entries[i].1
    }

    /// Sets the value under `k`. An entry that is there keeps its key and its place.
    pub fn insert(&mut self, k: K, v: V)
        ensures
            final(self)@ == old(self)@.insert(k.id(), v),
            final(self).seq() == upsert(old(self).seq(), k, v),
            old(self)@.contains_key(k.id()) ==> final(self).keys() == old(self).keys(),
    {
        proof {
            use_type_invariant(&*self);
        }
        let i: usize = self.lower_bound(&k);
        let ghost s = self.entries@;
        let mut entries: Vec<(K, V)> = Vec::new();
        std::mem::swap(&mut entries, &mut self.entries);
        if i < entries.len() && entries[i].0.same(&k) {
            let (key, _) = entries.remove(i);
            entries.insert(i, (key, v));
            proof {
                lemma_position_unique(s, i as int);
                assert(entries@ =~= s.update(i as int, (s[i as int].0, v)));
                assert(increasing(entries@));
                assert(keys_of(entries@) =~= keys_of(s));
                lemma_update(s, i as int, v);
            }
        } else {
            proof {
                lemma_insert(s, i as int, k, v);
                assert(splits(s, k.id(), i as int));
                lemma_rank_unique(s, k.id(), i as int);
            }
            entries.insert(i, (k, v));
        }
        self.entries = entries;
    }

    /// Replaces the value under `k` by what `change` makes of it, and returns what else `change`
    /// gave.
    pub fn modify<R, F: FnOnce(V) -> (V, R)>(&mut self, k: &K, change: F) -> (r: Option<R>)
        requires
            old(self)@.contains_key(k.id()) ==> call_requires(change, (old(self)@[k.id()],)),
        ensures
            match r {
                Some(x) => {
                    &&& old(self)@.contains_key(k.id())
                    &&& call_ensures(
                        change,
                        (old(self)@[k.id()],),
                        (final(self)@[k.id()], x),
                    )
                    &&& final(self)@ == old(self)@.insert(k.id(), final(self)@[k.id()])
                    &&& final(self).seq() == old(self).seq().update(
                        position(old(self).seq(), k.id()),
                        (
                            old(self).seq()[position(old(self).seq(), k.id())].0,
                            final(self)@[k.id()],
                        ),
                    )
                    &&& final(self).keys() == old(self).keys()
                },
                None => !old(self)@.contains_key(k.id()) && *final(self) == *old(self),
            },
    {
        proof {
            use_type_invariant(&*self);
        }
        let i: usize = self.lower_bound(k);
        let ghost s = self.entries@;
        if i < self.entries.len() && self.entries[i].0.same(k) {
            let mut entries: Vec<(K, V)> = Vec::new();
            std::mem::swap(&mut entries, &mut self.entries);
            let (key, value) = entries.remove(i);
            proof {
                lemma_position_unique(s, i as int);
            }
            let (changed, extra) = change(value);
            entries.insert(i, (key, changed));
            proof {
                assert(entries@ =~= s.update(i as int, (s[i as int].0, changed)));
                lemma_update(s, i as int, changed);
                assert(keys_of(entries@) =~= keys_of(s));
                lemma_position_unique(entries@, i as int);
            }
            self.entries = entries;
            Some(extra)
        } else {
            None
        }
    }

    /// Takes the entry under `k` out.
    pub fn remove(&mut self, k: &K) -> (r: Option<V>)
        ensures
            final(self)@ == old(self)@.remove(k.id()),
            final(self).seq() == erase(old(self).seq(), k.id()),
            r matches Some(v) ==> old(self)@.contains_key(k.id()) && v == old(self)@[k.id()],
            r is None ==> !old(self)@.contains_key(k.id()),
    {
        proof {
            use_type_invariant(&*self);
        }
        let i: usize = self.lower_bound(k);
        let ghost s = self.entries@;
        if i < self.entries.len() && self.entries[i].0.same(k) {
            let mut entries: Vec<(K, V)> = Vec::new();
            std::mem::swap(&mut entries, &mut self.entries);
            let (_, v) = entries.remove(i);
            proof {
                lemma_position_unique(s, i as int);
                lemma_remove(s, i as int);
            }
            self.entries = entries;
            Some(v)
        } else {
            proof {
                assert(as_map(s) =~= as_map(s).remove(k.id()));
            }
            None
        }
    }

    /// A table with the same keys, whose values `make` makes.
    pub fn map_to<W, F: Fn(&K, &V) -> W>(&self, make: F) -> (r: SortedMap<K, W>)
        requires
            forall|k: &K, v: &V| #[trigger] call_requires(make, (k, v)),
        ensures
            r.keys() == self.keys(),
            r.seq().len() == self.seq().len(),
            forall|i: int|
                0 <= i < r.seq().len() ==> (#[trigger] r.seq()[i]).0 == self.seq()[i].0
                    && call_ensures(make, (&self.seq()[i].0, &self.seq()[i].1), r.seq()[i].1),
            r@.dom() == self@.dom(),
            forall|k: K::Id| #[trigger]
                r@.contains_key(k) ==> exists|key: K|
                    #![trigger key.id()]
                    key.id() == k && call_ensures(make, (&key, &self@[k]), r@[k]),
    {
        proof {
            use_type_invariant(self);
        }
        let mut entries: Vec<(K, W)> = Vec::new();
        let mut i: usize = 0;
        while i < self.entries.len()
            invariant
                i <= self.entries@.len(),
                entries@.len() == i,
                forall|k: &K, v: &V| #[trigger] call_requires(make, (k, v)),
                forall|j: int|
                    0 <= j < i ==> (#[trigger] entries@[j]).0 == self.entries@[j].0
                        && call_ensures(
                        make,
                        (&self.entries@[j].0, &self.entries@[j].1),
                        entries@[j].1,
                    ),
            decreases self.entries@.len() - i,
        {
            let made: W = make(&self.entries[i].0, &self.entries[i].1);
            entries.push((self.entries[i].0.duplicate(), made));
            i = i + 1;
        }
        proof {
            lemma_same_keys(self.entries@, entries@);
            assert forall|k: K::Id| #[trigger] as_map(entries@).contains_key(k) implies exists|key: K|
                #![trigger key.id()]
                key.id() == k && call_ensures(
                    make,
                    (&key, &as_map(self.entries@)[k]),
                    as_map(entries@)[k],
                ) by {
                let p = position(entries@, k);
                lemma_position_unique(entries@, p);
                lemma_position_unique(self.entries@, p);
                let key = self.entries@[p].0;
                assert(key.id() == k);
            }
        }
        SortedMap { entries }
    }

    /// Replaces every value by what `make` makes of it.
    pub fn replace_values<F: Fn(V) -> V>(&mut self, make: F)
        requires
            forall|v: V| #[trigger] call_requires(make, (v,)),
        ensures
            final(self).keys() == old(self).keys(),
            final(self).seq().len() == old(self).seq().len(),
            forall|i: int|
                0 <= i < final(self).seq().len() ==> (#[trigger] final(self).seq()[i]).0 == old(
                    self,
                ).seq()[i].0 && call_ensures(make, (old(self).seq()[i].1,), final(self).seq()[i].1),
            final(self)@.dom() == old(self)@.dom(),
            forall|k: K::Id| #[trigger]
                final(self)@.contains_key(k) ==> call_ensures(
                    make,
                    (old(self)@[k],),
                    final(self)@[k],
                ),
    {
        proof {
            use_type_invariant(&*self);
        }
        let ghost s = self.entries@;
        let mut entries: Vec<(K, V)> = Vec::new();
        std::mem::swap(&mut entries, &mut self.entries);
        let mut i: usize = 0;
        while i < entries.len()
            invariant
                i <= s.len(),
                entries@.len() == s.len(),
                forall|v: V| #[trigger] call_requires(make, (v,)),
                forall|j: int|
                    0 <= j < i ==> (#[trigger] entries@[j]).0 == s[j].0 && call_ensures(
                        make,
                        (s[j].1,),
                        entries@[j].1,
                    ),
                forall|j: int| i <= j < s.len() ==> #[trigger] entries@[j] == s[j],
            decreases s.len() - i,
        {
            let (key, value) = entries.remove(i);
            entries.insert(i, (key, make(value)));
            i = i + 1;
        }
        proof {
            lemma_same_keys(s, entries@);
            assert forall|k: K::Id| #[trigger] as_map(entries@).contains_key(k) implies call_ensures(
                make,
                (as_map(s)[k],),
                as_map(entries@)[k],
            ) by {
                let p = position(entries@, k);
                lemma_position_unique(entries@, p);
                lemma_position_unique(s, p);
            }
        }
        self.entries = entries;
    }

    /// Drops the entries that `test` does not accept.
    pub fn retain<F: Fn(&K, &V) -> bool>(
        &mut self,
        test: F,
        Ghost(keep): Ghost<spec_fn(K::Id, V) -> bool>,
    )
        requires
            forall|k: &K, v: &V| #[trigger] call_requires(test, (k, v)),
            forall|k: &K, v: &V, r: bool| #[trigger]
                call_ensures(test, (k, v), r) ==> r == keep(k.id(), *v),
        ensures
            final(self)@ == restricted(old(self)@, keep),
            final(self).seq() == filtered(old(self).seq(), keep),
    {
        proof {
            use_type_invariant(&*self);
        }
        let ghost s = self.entries@;
        let mut entries: Vec<(K, V)> = Vec::new();
        std::mem::swap(&mut entries, &mut self.entries);
        let mut i: usize = 0;
        let ghost mut done: int = 0;
        proof {
            assert(s.take(0) =~= Seq::<(K, V)>::empty());
            assert(s.skip(0) =~= s);
            assert(entries@ =~= filtered(s.take(0), keep) + s.skip(0));
        }
        while i < entries.len()
            invariant
                0 <= done <= s.len(),
                entries@ == filtered(s.take(done), keep) + s.skip(done),
                i == filtered(s.take(done), keep).len(),
                forall|k: &K, v: &V| #[trigger] call_requires(test, (k, v)),
                forall|k: &K, v: &V, r: bool| #[trigger]
                    call_ensures(test, (k, v), r) ==> r == keep(k.id(), *v),
            decreases s.len() - done,
        {
            let ghost f = filtered(s.take(done), keep);
            proof {
                assert(s.take(done + 1).drop_last() =~= s.take(done));
                assert(s.take(done + 1).last() == s[done]);
                assert(entries@[i as int] == s[done]);
            }
            let wanted: bool = test(&entries[i].0, &entries[i].1);
            if wanted {
                proof {
                    assert(entries@ =~= filtered(s.take(done + 1), keep) + s.skip(done + 1));
                }
                i = i + 1;
            } else {
                entries.remove(i);
                proof {
                    assert(entries@ =~= f + s.skip(done + 1));
                }
            }
            proof {
                done = done + 1;
            }
        }
        proof {
            assert(s.skip(done).len() == 0);
            assert(s.take(done) =~= s);
            assert(entries@ =~= filtered(s, keep));
            lemma_filtered(s, keep);
        }
        self.entries = entries;
    }

    pub fn clear(&mut self)
        ensures
            final(self).seq() == Seq::<(K, V)>::empty(),
            final(self)@ == Map::<K::Id, V>::empty(),
    {
        self.entries = Vec::new();
        proof {
            assert(as_map(self.entries@) =~= Map::<K::Id, V>::empty());
        }
    }
}

/// Sequences with the same keys have the same order and the same domain.
pub proof fn lemma_same_keys<K: Key, V, W>(s: Seq<(K, V)>, t: Seq<(K, W)>)
    requires
        increasing(s),
        s.len() == t.len(),
        forall|i: int| 0 <= i < t.len() ==> (#[trigger] t[i]).0 == s[i].0,
    ensures
        increasing(t),
        keys_of(t) == keys_of(s),
        as_map(t).dom() == as_map(s).dom(),
{
    assert forall|a: int, b: int| 0 <= a < b < t.len() implies K::before(
        (#[trigger] t[a]).0.id(),
        (#[trigger] t[b]).0.id(),
    ) by {
        assert(K::before(s[a].0.id(), s[b].0.id()));
    }
    assert(keys_of(t) =~= keys_of(s));
    assert forall|k: K::Id| as_map(t).dom().contains(k) == as_map(s).dom().contains(k) by {
        if has_key(t, k) {
            let p = position(t, k);
            assert(s[p].0.id() == k);
        }
        if has_key(s, k) {
            let p = position(s, k);
            assert(t[p].0.id() == k);
        }
    }
    assert(as_map(t).dom() =~= as_map(s).dom());
}

/// The number of entries is the number of keys.
pub proof fn lemma_len<K: Key, V>(s: Seq<(K, V)>)
    requires
        increasing(s),
    ensures
        as_map(s).dom().finite(),
        as_map(s).dom().len() == s.len(),
    decreases s.len(),
{
    if s.len() == 0 {
        assert(as_map(s).dom() =~= Set::<K::Id>::empty());
    } else {
        let last = s.len() - 1;
        lemma_remove(s, last);
        lemma_len(s.remove(last));
        lemma_position_unique(s, last);
        let k = s[last].0.id();
        assert(as_map(s).dom() =~= as_map(s.remove(last)).dom().insert(k));
    }
}

proof fn lemma_update<K: Key, V>(s: Seq<(K, V)>, i: int, v: V)
    requires
        increasing(s),
        0 <= i < s.len(),
    ensures
        increasing(s.update(i, (s[i].0, v))),
        as_map(s.update(i, (s[i].0, v))) == as_map(s).insert(s[i].0.id(), v),
{
    let t = s.update(i, (s[i].0, v));
    assert(increasing(t));
    let m = as_map(s).insert(s[i].0.id(), v);
    lemma_position_unique(s, i);
    assert forall|k: K::Id| as_map(t).contains_key(k) == m.contains_key(k) by {
        if has_key(t, k) {
            let p = position(t, k);
            assert(s[p].0.id() == k);
        }
        if has_key(s, k) {
            let p = position(s, k);
            assert(t[p].0.id() == k);
        }
    }
    assert forall|k: K::Id| as_map(t).contains_key(k) implies as_map(t)[k] == m[k] by {
        let p = position(t, k);
        lemma_position_unique(t, p);
        lemma_position_unique(s, p);
    }
    assert(as_map(t) =~= m);
}

proof fn lemma_insert<K: Key, V>(s: Seq<(K, V)>, i: int, k: K, v: V)
    requires
        increasing(s),
        0 <= i <= s.len(),
        forall|j: int| 0 <= j < i ==> K::before((#[trigger] s[j]).0.id(), k.id()),
        forall|j: int| i <= j < s.len() ==> !K::before((#[trigger] s[j]).0.id(), k.id()),
        !has_key(s, k.id()),
    ensures
        increasing(s.insert(i, (k, v))),
        as_map(s.insert(i, (k, v))) == as_map(s).insert(k.id(), v),
{
    let t = s.insert(i, (k, v));
    assert forall|a: int, b: int| 0 <= a < b < t.len() implies K::before(
        (#[trigger] t[a]).0.id(),
        (#[trigger] t[b]).0.id(),
    ) by {
        let sa = if a < i { a } else { a - 1 };
        let sb = if b < i { b } else { b - 1 };
        if a == i {
            assert(t[b] == s[sb]);
            assert(s[sb].0.id() != k.id());
            K::before_total(s[sb].0.id(), k.id());
        } else if b == i {
            assert(t[a] == s[sa]);
        } else {
            assert(t[a] == s[sa]);
            assert(t[b] == s[sb]);
        }
    }
    let m = as_map(s).insert(k.id(), v);
    assert forall|q: K::Id| as_map(t).contains_key(q) == m.contains_key(q) by {
        if has_key(t, q) {
            let p = position(t, q);
            if p != i {
                let sp = if p < i { p } else { p - 1 };
                assert(s[sp].0.id() == q);
            }
        }
        if has_key(s, q) {
            let p = position(s, q);
            let tp = if p < i { p } else { p + 1 };
            assert(t[tp].0.id() == q);
        }
        if q == k.id() {
            assert(t[i].0.id() == q);
        }
    }
    assert forall|q: K::Id| as_map(t).contains_key(q) implies as_map(t)[q] == m[q] by {
        let p = position(t, q);
        lemma_position_unique(t, p);
        if p != i {
            let sp = if p < i { p } else { p - 1 };
            assert(t[p] == s[sp]);
            lemma_position_unique(s, sp);
        }
    }
    assert(as_map(t) =~= m);
}

proof fn lemma_remove<K: Key, V>(s: Seq<(K, V)>, i: int)
    requires
        increasing(s),
        0 <= i < s.len(),
    ensures
        increasing(s.remove(i)),
        as_map(s.remove(i)) == as_map(s).remove(s[i].0.id()),
{
    let t = s.remove(i);
    let k = s[i].0.id();
    assert forall|a: int, b: int| 0 <= a < b < t.len() implies K::before(
        (#[trigger] t[a]).0.id(),
        (#[trigger] t[b]).0.id(),
    ) by {
        let sa = if a < i { a } else { a + 1 };
        let sb = if b < i { b } else { b + 1 };
        assert(t[a] == s[sa] && t[b] == s[sb]);
    }
    let m = as_map(s).remove(k);
    assert forall|q: K::Id| as_map(t).contains_key(q) == m.contains_key(q) by {
        if has_key(t, q) {
            let p = position(t, q);
            let sp = if p < i { p } else { p + 1 };
            assert(s[sp].0.id() == q);
            lemma_position_unique(s, sp);
            lemma_position_unique(s, i);
        }
        if has_key(s, q) && q != k {
            let p = position(s, q);
            let tp = if p < i { p } else { p - 1 };
            assert(t[tp] == s[p]);
        }
    }
    assert forall|q: K::Id| as_map(t).contains_key(q) implies as_map(t)[q] == m[q] by {
        assert(m.contains_key(q));
        let p = position(t, q);
        lemma_position_unique(t, p);
        let sp = if p < i { p } else { p + 1 };
        assert(t[p] == s[sp]);
        lemma_position_unique(s, sp);
    }
    assert(as_map(t) =~= m);
}

/// `s` with `f` applied to its values.
pub open spec fn mapped<K: Key, V, W>(s: Seq<(K, V)>, f: spec_fn(V) -> W) -> Seq<(K, W)> {
    s.map_values(|e: (K, V)| (e.0, f(e.1)))
}

/// Every key has a rank in an increasing sequence.
pub proof fn lemma_rank_exists<K: Key, V>(s: Seq<(K, V)>, k: K::Id)
    requires
        increasing(s),
    ensures
        splits(s, k, rank(s, k)),
    decreases s.len(),
{
    if s.len() == 0 {
        assert(splits(s, k, 0));
    } else {
        let rest = s.drop_last();
        assert(increasing(rest));
        lemma_rank_exists(rest, k);
        let r = rank(rest, k);
        assert forall|i: int| 0 <= i < r implies K::before((#[trigger] s[i]).0.id(), k) by {
            assert(K::before(rest[i].0.id(), k));
        }
        assert forall|i: int| r <= i < rest.len() implies !K::before(
            (#[trigger] s[i]).0.id(),
            k,
        ) by {
            assert(!K::before(rest[i].0.id(), k));
        }
        let last = s.last().0.id();
        if r < rest.len() {
            assert(!K::before(rest[r].0.id(), k));
            if K::before(last, k) {
                assert(K::before(s[r].0.id(), s[s.len() - 1].0.id()));
                K::before_transitive(s[r].0.id(), last, k);
            }
            assert(splits(s, k, r));
        } else if K::before(last, k) {
            assert(splits(s, k, r + 1));
        } else {
            assert(splits(s, k, r));
        }
    }
}

/// A change of the values leaves the places of the keys as they are.
pub proof fn lemma_mapped<K: Key, V, W>(s: Seq<(K, V)>, f: spec_fn(V) -> W, k: K, v: V)
    requires
        increasing(s),
    ensures
        mapped(upsert(s, k, v), f) == upsert(mapped(s, f), k, f(v)),
        mapped(erase(s, k.id()), f) == erase(mapped(s, f), k.id()),
        has_key(s, k.id()) <==> has_key(mapped(s, f), k.id()),
        increasing(mapped(s, f)),
        has_key(s, k.id()) ==> as_map(mapped(s, f))[k.id()] == f(as_map(s)[k.id()]),
{
    let t = mapped(s, f);
    let id = k.id();
    assert(forall|i: int| 0 <= i < s.len() ==> (#[trigger] t[i]).0 == s[i].0);
    assert forall|i: int, j: int| 0 <= i < j < t.len() implies K::before(
        (#[trigger] t[i]).0.id(),
        (#[trigger] t[j]).0.id(),
    ) by {
        assert(K::before(s[i].0.id(), s[j].0.id()));
    }
    if has_key(s, id) {
        let p = position(s, id);
        assert(0 <= p < s.len() && s[p].0.id() == id);
        assert(t[p].0.id() == id);
        lemma_position_unique(s, p);
        lemma_position_unique(t, p);
        assert(mapped(upsert(s, k, v), f) =~= upsert(t, k, f(v)));
        assert(mapped(erase(s, id), f) =~= erase(t, id));
    } else {
        if has_key(t, id) {
            let p = position(t, id);
            assert(0 <= p < t.len() && t[p].0.id() == id);
            assert(s[p].0.id() == id);
        }
        lemma_rank_exists(s, id);
        let r = rank(s, id);
        assert(splits(t, id, r)) by {
            assert forall|i: int| 0 <= i < r implies K::before((#[trigger] t[i]).0.id(), id) by {
                assert(K::before(s[i].0.id(), id));
            }
            assert forall|i: int| r <= i < t.len() implies !K::before(
                (#[trigger] t[i]).0.id(),
                id,
            ) by {
                assert(!K::before(s[i].0.id(), id));
            }
        }
        lemma_rank_unique(t, id, r);
        assert(mapped(upsert(s, k, v), f) =~= upsert(t, k, f(v)));
        assert(mapped(erase(s, id), f) =~= erase(t, id));
    }
}

/// All values of `s` meet `p`.
pub open spec fn all_values<K: Key, V>(s: Seq<(K, V)>, p: spec_fn(V) -> bool) -> bool {
    forall|i: int| 0 <= i < s.len() ==> p((#[trigger] s[i]).1)
}

/// What all values meet, they still meet when a value that meets it is set or a value is taken away.
pub proof fn lemma_all_values<K: Key, V>(s: Seq<(K, V)>, k: K, v: V, p: spec_fn(V) -> bool)
    requires
        increasing(s),
        all_values(s, p),
    ensures
        p(v) ==> all_values(upsert(s, k, v), p),
        all_values(erase(s, k.id()), p),
        has_key(s, k.id()) ==> p(as_map(s)[k.id()]),
{
    if has_key(s, k.id()) {
        let q = position(s, k.id());
        assert(0 <= q < s.len() && s[q].0.id() == k.id());
        assert(p(s[q].1));
        let e = erase(s, k.id());
        assert forall|i: int| 0 <= i < e.len() implies p((#[trigger] e[i]).1) by {
            if i < q {
                assert(e[i] == s[i]);
            } else {
                assert(e[i] == s[i + 1]);
            }
        }
    } else {
        lemma_rank_exists(s, k.id());
        let r = rank(s, k.id());
        let t = upsert(s, k, v);
        assert forall|i: int| 0 <= i < t.len() && p(v) implies p((#[trigger] t[i]).1) by {
            if i < r {
                assert(t[i] == s[i]);
            } else if i > r {
                assert(t[i] == s[i - 1]);
            }
        }
    }
}

/// A table stays in order when a value is set or taken away.
pub proof fn lemma_stays_increasing<K: Key, V>(s: Seq<(K, V)>, k: K, v: V)
    requires
        increasing(s),
    ensures
        increasing(upsert(s, k, v)),
        increasing(erase(s, k.id())),
        as_map(upsert(s, k, v)) == as_map(s).insert(k.id(), v),
        as_map(erase(s, k.id())) == as_map(s).remove(k.id()),
{
    if has_key(s, k.id()) {
        let q = position(s, k.id());
        assert(0 <= q < s.len() && s[q].0.id() == k.id());
        lemma_update(s, q, v);
        lemma_remove(s, q);
    } else {
        lemma_rank_exists(s, k.id());
        lemma_insert(s, rank(s, k.id()), k, v);
        assert(as_map(s).remove(k.id()) =~= as_map(s));
    }
}

/// What `make` makes of the entries of a table that `keep` accepts, in order.
pub open spec fn picked<K: Key, V, D>(
    s: Seq<(K, V)>,
    keep: spec_fn((K, V)) -> bool,
    make: spec_fn((K, V)) -> D,
) -> Seq<D>
    decreases s.len(),
{
    if s.len() == 0 {
        seq![]
    } else {
        let rest = picked(s.drop_last(), keep, make);
        if keep(s.last()) {
            rest.push(make(s.last()))
        } else {
            rest
        }
    }
}

/// Some entry that `keep` accepts makes `d`.
pub open spec fn makes<K: Key, V, D>(
    s: Seq<(K, V)>,
    keep: spec_fn((K, V)) -> bool,
    make: spec_fn((K, V)) -> D,
    d: D,
) -> bool {
    exists|j: int| 0 <= j < s.len() && keep(#[trigger] s[j]) && make(s[j]) == d
}

/// Each accepted entry of a table in order makes one thing, and nothing else is made.
pub proof fn lemma_picked<K: Key, V, D>(
    s: Seq<(K, V)>,
    keep: spec_fn((K, V)) -> bool,
    make: spec_fn((K, V)) -> D,
)
    requires
        increasing(s),
        forall|a: (K, V), b: (K, V)| #[trigger] make(a) == #[trigger] make(b) ==> a.0.id() == b.0.id(),
    ensures
        forall|d: D| #[trigger] picked(s, keep, make).contains(d) <==> makes(s, keep, make, d),
        picked(s, keep, make).no_duplicates(),
    decreases s.len(),
{
    if s.len() > 0 {
        let front = s.drop_last();
        let rest = picked(front, keep, make);
        let all = picked(s, keep, make);
        let last = s.len() - 1;
        assert(increasing(front));
        lemma_picked(front, keep, make);
        assert forall|d: D| #[trigger] all.contains(d) <==> makes(s, keep, make, d) by {
            if all.contains(d) {
                let k = all.index_of(d);
                if k < rest.len() {
                    assert(rest[k] == d);
                    assert(rest.contains(d));
                    let j = choose|j: int|
                        0 <= j < front.len() && keep(#[trigger] front[j]) && make(front[j]) == d;
                    assert(s[j] == front[j]);
                } else {
                    assert(s[last] == s.last());
                }
            }
            if makes(s, keep, make, d) {
                let j = choose|j: int| 0 <= j < s.len() && keep(#[trigger] s[j]) && make(s[j]) == d;
                if j < last {
                    assert(front[j] == s[j]);
                    assert(makes(front, keep, make, d));
                    assert(rest.contains(d));
                    let k = rest.index_of(d);
                    assert(all[k] == d);
                } else {
                    assert(all[rest.len() as int] == d);
                }
            }
        }
        assert forall|a: int, b: int| 0 <= a < all.len() && 0 <= b < all.len() && a
            != b implies all[a] != all[b] by {
            let (lo, hi) = if a < b {
                (a, b)
            } else {
                (b, a)
            };
            if hi < rest.len() {
                assert(rest[lo] != rest[hi]);
            } else {
                assert(rest.contains(rest[lo]));
                let j = choose|j: int|
                    0 <= j < front.len() && keep(#[trigger] front[j]) && make(front[j]) == rest[lo];
                assert(s[j] == front[j]);
                lemma_position_unique(s, j);
                lemma_position_unique(s, last);
            }
        }
    }
}

/// What stands in one list after another stands in one of the two.
pub proof fn lemma_contains_either<D>(a: Seq<D>, b: Seq<D>, d: D)
    ensures
        (a + b).contains(d) <==> a.contains(d) || b.contains(d),
{
    let all = a + b;
    if all.contains(d) {
        let k = all.index_of(d);
        if k < a.len() {
            assert(a[k] == d);
        } else {
            assert(b[k - a.len()] == d);
        }
    }
    if a.contains(d) {
        let k = a.index_of(d);
        assert(all[k] == d);
    }
    if b.contains(d) {
        let k = b.index_of(d);
        assert(all[a.len() + k] == d);
    }
}

} // verus!
