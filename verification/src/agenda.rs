//! What is still to be done.
use vstd::prelude::*;

verus! {

/// Things to do, in order. What one of them leaves to do comes before the rest.
pub struct Agenda<T> {
    /// The last entry is the next.
    waiting: Vec<T>,
}

impl<T> Agenda<T> {
    /// What waits, in order.
    pub closed spec fn view(&self) -> Seq<T> {
        self.waiting@.reverse()
    }

    pub fn new() -> (r: Self)
        ensures
            r@ == Seq::<T>::empty(),
    {
        let r = Agenda { waiting: Vec::new() };
        assert(r@ =~= Seq::<T>::empty());
        r
    }

    /// Puts things before what waits.
    pub fn first(&mut self, more: Vec<T>)
        ensures
            final(self)@ == more@ + old(self)@,
    {
        let ghost all = more@;
        let ghost before = self.waiting@;
        let mut more: Vec<T> = more;
        while more.len() > 0
            invariant
                more@.len() <= all.len(),
                more@ == all.take(more@.len() as int),
                self.waiting@ == before + all.skip(more@.len() as int).reverse(),
            decreases more@.len(),
        {
            let ghost n = more@.len() as int;
            if let Some(f) = more.pop() {
                self.waiting.push(f);
                proof {
                    assert(f == all[n - 1]);
                    assert(more@ =~= all.take(n - 1));
                    assert(all.skip(n - 1).reverse() =~= all.skip(n).reverse().push(f));
                    assert(self.waiting@ =~= before + all.skip(n - 1).reverse());
                }
            }
        }
        assert(all.skip(0) =~= all);
        assert(self@ =~= all + before.reverse());
    }

    /// Takes the next thing out.
    pub fn next(&mut self) -> (r: Option<T>)
        ensures
            match r {
                Some(f) => old(self)@.len() > 0 && f == old(self)@[0] && final(self)@ == old(
                    self,
                )@.drop_first(),
                None => old(self)@.len() == 0 && final(self)@ == old(self)@,
            },
    {
        let r = self.waiting.pop();
        match r {
            Some(f) => {
                assert(self@ =~= old(self)@.drop_first());
                Some(f)
            },
            None => None,
        }
    }
}

/// What `make` makes of each of some things, in order.
pub fn converted<A, B, F: Fn(A) -> B>(
    items: Vec<A>,
    make: F,
    Ghost(made): Ghost<spec_fn(A) -> B>,
) -> (r: Vec<B>)
    requires
        forall|a: A| #[trigger] call_requires(make, (a,)),
        forall|a: A, b: B| #[trigger] call_ensures(make, (a,), b) ==> b == made(a),
    ensures
        r@ == items@.map_values(made),
{
    let ghost all = items@;
    let mut waiting: Agenda<A> = Agenda::new();
    waiting.first(items);
    let mut r: Vec<B> = Vec::new();
    let ghost mut k: int = 0;
    let mut going: bool = true;
    assert(waiting@ =~= all.skip(0));
    assert(r@ =~= all.take(0).map_values(made));
    while going
        invariant
            0 <= k <= all.len(),
            waiting@ == all.skip(k),
            r@ == all.take(k).map_values(made),
            !going ==> k == all.len(),
            forall|a: A| #[trigger] call_requires(make, (a,)),
            forall|a: A, b: B| #[trigger] call_ensures(make, (a,), b) ==> b == made(a),
        decreases all.len() - k, (if going { 1int } else { 0int }),
    {
        match waiting.next() {
            Some(a) => {
                r.push(make(a));
                proof {
                    k = k + 1;
                    assert(waiting@ =~= all.skip(k));
                    assert(r@ =~= all.take(k).map_values(made));
                }
            },
            None => {
                going = false;
            },
        }
    }
    assert(all.take(k) =~= all);
    r
}

/// How many entries are of a kind.
pub open spec fn count<T>(s: Seq<T>, kind: spec_fn(T) -> bool) -> nat
    decreases s.len(),
{
    if s.len() == 0 {
        0
    } else {
        count(s.drop_last(), kind) + if kind(s.last()) {
            1nat
        } else {
            0nat
        }
    }
}

pub proof fn lemma_count_together<T>(a: Seq<T>, b: Seq<T>, kind: spec_fn(T) -> bool)
    ensures
        count(a + b, kind) == count(a, kind) + count(b, kind),
    decreases b.len(),
{
    if b.len() == 0 {
        assert(a + b =~= a);
    } else {
        assert((a + b).drop_last() =~= a + b.drop_last());
        lemma_count_together(a, b.drop_last(), kind);
    }
}

pub proof fn lemma_count_first<T>(s: Seq<T>, kind: spec_fn(T) -> bool)
    requires
        s.len() > 0,
    ensures
        count(s, kind) == count(s.drop_first(), kind) + if kind(s[0]) {
            1nat
        } else {
            0nat
        },
{
    assert(s =~= seq![s[0]] + s.drop_first());
    lemma_count_together(seq![s[0]], s.drop_first(), kind);
    assert(seq![s[0]].drop_last() =~= Seq::<T>::empty());
    assert(count(seq![s[0]].drop_last(), kind) == 0);
}

pub proof fn lemma_count_none<T>(s: Seq<T>, kind: spec_fn(T) -> bool)
    requires
        forall|i: int| 0 <= i < s.len() ==> !kind(#[trigger] s[i]),
    ensures
        count(s, kind) == 0,
    decreases s.len(),
{
    if s.len() > 0 {
        assert(!kind(s[s.len() - 1]));
        assert forall|i: int| 0 <= i < s.drop_last().len() implies !kind(
            #[trigger] s.drop_last()[i],
        ) by {
            assert(!kind(s[i]));
        }
        lemma_count_none(s.drop_last(), kind);
    }
}

} // verus!
