//! Pending timers with their deadlines.
use vstd::prelude::*;

use crate::adapter::timer::{TimerAction, TimerIdentity};
use crate::ids::NamespaceId;
use crate::sorted_map::{
    as_map, has_key, increasing, lemma_position_unique, position, restricted, Key, SortedMap,
};

verus! {

/// A timer that went off.
pub struct FiredTimer {
    pub namespace_id: NamespaceId,
    pub identity: TimerIdentity,
    pub generation: u64,
}

/// Pending timers, each with its generation and its deadline in milliseconds.
pub type Pending = Seq<((NamespaceId, TimerIdentity), (u64, u64))>;

/// The pending timers of `timers` after an action of a namespace at the time `now`.
pub open spec fn absorbed_one(
    timers: Map<(Seq<char>, TimerIdentity), (u64, u64)>,
    namespace_id: Seq<char>,
    action: TimerAction,
    now: u64,
) -> Map<(Seq<char>, TimerIdentity), (u64, u64)> {
    match action {
        TimerAction::Start { identity, generation, duration_ms } => timers.insert(
            (namespace_id, identity),
            (generation, (now + duration_ms) as u64),
        ),
        TimerAction::Cancel { identity } => timers.remove((namespace_id, identity)),
    }
}

/// The pending timers of `timers` after the actions of a namespace at the time `now`.
pub open spec fn absorbed(
    timers: Map<(Seq<char>, TimerIdentity), (u64, u64)>,
    namespace_id: Seq<char>,
    actions: Seq<TimerAction>,
    now: u64,
) -> Map<(Seq<char>, TimerIdentity), (u64, u64)>
    decreases actions.len(),
{
    if actions.len() == 0 {
        timers
    } else {
        absorbed_one(
            absorbed(timers, namespace_id, actions.drop_last(), now),
            namespace_id,
            actions.last(),
            now,
        )
    }
}

/// The timers whose deadline has come.
pub open spec fn expired(timers: Pending, now: u64) -> Seq<FiredTimer>
    decreases timers.len(),
{
    if timers.len() == 0 {
        seq![]
    } else {
        let rest = expired(timers.drop_last(), now);
        let last = timers.last();
        if now >= last.1.1 {
            rest.push(
                FiredTimer {
                    namespace_id: last.0.0,
                    identity: last.0.1,
                    generation: last.1.0,
                },
            )
        } else {
            rest
        }
    }
}

/// The timers of `timers` whose deadline has not come.
pub open spec fn still_pending(
    timers: Map<(Seq<char>, TimerIdentity), (u64, u64)>,
    now: u64,
) -> Map<(Seq<char>, TimerIdentity), (u64, u64)> {
    restricted(timers, |_k: (Seq<char>, TimerIdentity), t: (u64, u64)| now < t.1)
}

/// The earliest deadline of `timers`, if there are any.
pub open spec fn earliest(
    timers: Map<(Seq<char>, TimerIdentity), (u64, u64)>,
    deadline: Option<u64>,
) -> bool {
    match deadline {
        Some(d) => {
            &&& exists|k: (Seq<char>, TimerIdentity)| #[trigger]
                timers.contains_key(k) && timers[k].1 == d
            &&& forall|k: (Seq<char>, TimerIdentity)| #[trigger]
                timers.contains_key(k) ==> d <= timers[k].1
        },
        None => timers == Map::<(Seq<char>, TimerIdentity), (u64, u64)>::empty(),
    }
}

impl FiredTimer {
    /// Which timer went off.
    pub open spec fn key(self) -> (Seq<char>, TimerIdentity) {
        (self.namespace_id.id(), self.identity)
    }
}

/// The timers of all namespaces.
pub struct TimerWheel {
    active: SortedMap<(NamespaceId, TimerIdentity), (u64, u64)>,
}

impl TimerWheel {
    /// The pending timers in the order of namespaces and timers.
    pub closed spec fn pending(&self) -> Pending {
        self.active.seq()
    }

    /// The generation and the deadline of each pending timer.
    pub open spec fn view(&self) -> Map<(Seq<char>, TimerIdentity), (u64, u64)> {
        as_map(self.pending())
    }

    pub fn new() -> (r: Self)
        ensures
            r.pending() == Seq::<((NamespaceId, TimerIdentity), (u64, u64))>::empty(),
            r@ == Map::<(Seq<char>, TimerIdentity), (u64, u64)>::empty(),
    {
        TimerWheel { active: SortedMap::new() }
    }

    /// Takes in the timer actions of a namespace. A timer that starts is due `duration_ms` after
    /// `now`.
    pub fn absorb(&mut self, namespace_id: &NamespaceId, actions: &Vec<TimerAction>, now: u64)
        requires
            forall|i: int|
                0 <= i < actions@.len() ==> ((#[trigger] actions@[i]) matches TimerAction::Start {
                    duration_ms,
                    ..
                } ==> now + duration_ms <= u64::MAX),
        ensures
            final(self)@ == absorbed(old(self)@, namespace_id.id(), actions@, now),
            increasing(final(self).pending()),
    {
        let mut i: usize = 0;
        assert(actions@.take(0) =~= Seq::<TimerAction>::empty());
        while i < actions.len()
            invariant
                i <= actions@.len(),
                self@ == absorbed(old(self)@, namespace_id.id(), actions@.take(i as int), now),
                forall|i: int|
                    0 <= i < actions@.len() ==> ((
                    #[trigger] actions@[i]) matches TimerAction::Start { duration_ms, .. } ==> now
                        + duration_ms <= u64::MAX),
            decreases actions@.len() - i,
        {
            assert(actions@.take(i + 1).drop_last() =~= actions@.take(i as int));
            assert(actions@.take(i + 1).last() == actions@[i as int]);
            match actions[i] {
                TimerAction::Start { identity, generation, duration_ms } => {
                    let deadline: u64 = now + duration_ms;
                    self.active.insert(
                        (namespace_id.clone(), identity),
                        (generation, deadline),
                    );
                },
                TimerAction::Cancel { identity } => {
                    let _ = self.active.remove(&(namespace_id.clone(), identity));
                },
            }
            i = i + 1;
        }
        assert(actions@.take(i as int) =~= actions@);
        proof {
            use_type_invariant(&self.active);
        }
    }

    /// Takes out the timers whose deadline has come.
    pub fn fire_expired(&mut self, now: u64) -> (r: Vec<FiredTimer>)
        ensures
            r@ == expired(old(self).pending(), now),
            final(self)@ == still_pending(old(self)@, now),
            increasing(old(self).pending()),
            increasing(final(self).pending()),
    {
        let ghost s = self.active.seq();
        let mut out: Vec<FiredTimer> = Vec::new();
        let mut i: usize = 0;
        let n: usize = self.active.len();
        assert(s.take(0) =~= Seq::<((NamespaceId, TimerIdentity), (u64, u64))>::empty());
        while i < n
            invariant
                i <= n,
                n == s.len(),
                s == self.active.seq(),
                out@ == expired(s.take(i as int), now),
            decreases n - i,
        {
            assert(s.take(i + 1).drop_last() =~= s.take(i as int));
            assert(s.take(i + 1).last() == s[i as int]);
            let key = self.active.key_at(i);
            let timer = self.active.value_at(i);
            if now >= timer.1 {
                out.push(
                    FiredTimer {
                        namespace_id: key.0.clone(),
                        identity: key.1,
                        generation: timer.0,
                    },
                );
            }
            i = i + 1;
        }
        assert(s.take(i as int) =~= s);
        let test = |_k: &(NamespaceId, TimerIdentity), t: &(u64, u64)| -> (r: bool)
            ensures
                r == (now < t.1),
            {
                now < t.1
            };
        self.active.retain(test, Ghost(|_k: (Seq<char>, TimerIdentity), t: (u64, u64)| now < t.1));
        proof {
            use_type_invariant(&self.active);
        }
        out
    }

    /// The earliest deadline.
    pub fn next_deadline(&self) -> (r: Option<u64>)
        ensures
            earliest(self@, r),
            increasing(self.pending()),
    {
        let ghost s = self.active.seq();
        let n: usize = self.active.len();
        if n == 0 {
            assert(self@ =~= Map::<(Seq<char>, TimerIdentity), (u64, u64)>::empty());
            return None;
        }
        let mut best: u64 = self.active.value_at(0).1;
        let ghost mut at: int = 0;
        let mut i: usize = 1;
        while i < n
            invariant
                1 <= i <= n,
                n == s.len(),
                s == self.active.seq(),
                0 <= at < n,
                s[at].1.1 == best,
                forall|j: int| 0 <= j < i ==> best <= (#[trigger] s[j]).1.1,
            decreases n - i,
        {
            let deadline: u64 = self.active.value_at(i).1;
            if deadline < best {
                best = deadline;
                proof {
                    at = i as int;
                }
            }
            i = i + 1;
        }
        proof {
            lemma_position_unique(s, at);
            assert(self@.contains_key(s[at].0.id()));
            assert forall|k: (Seq<char>, TimerIdentity)| #[trigger]
                self@.contains_key(k) implies best <= self@[k].1 by {
                let p = position(s, k);
                assert(best <= s[p].1.1);
            }
        }
        Some(best)
    }

    /// Forgets the timers of a namespace.
    pub fn remove_namespace(&mut self, namespace_id: &NamespaceId)
        ensures
            final(self)@ == restricted(
                old(self)@,
                |k: (Seq<char>, TimerIdentity), _t: (u64, u64)| k.0 != namespace_id.id(),
            ),
            increasing(final(self).pending()),
    {
        let test = |k: &(NamespaceId, TimerIdentity), _t: &(u64, u64)| -> (r: bool)
            ensures
                r == (k.0.id() != namespace_id.id()),
            {
                !k.0.same(namespace_id)
            };
        self.active.retain(
            test,
            Ghost(|k: (Seq<char>, TimerIdentity), _t: (u64, u64)| k.0 != namespace_id.id()),
        );
        proof {
            use_type_invariant(&self.active);
        }
    }
}

/// A timer fires exactly if its deadline has come, once and with the generation that it was
/// started in.
pub proof fn law_fires_when_due(timers: Pending, now: u64, fired: FiredTimer)
    ensures
        expired(timers, now).contains(fired) <==> exists|i: int|
            0 <= i < timers.len() && (#[trigger] timers[i]).0 == (fired.namespace_id, fired.identity)
                && timers[i].1.0 == fired.generation && timers[i].1.1 <= now,
    decreases timers.len(),
{
    if timers.len() > 0 {
        let front = timers.drop_last();
        law_fires_when_due(front, now, fired);
        let rest = expired(front, now);
        let all = expired(timers, now);
        let last = timers.last();
        assert(timers[timers.len() - 1] == last);
        if rest.contains(fired) {
            let i = choose|i: int|
                0 <= i < front.len() && (#[trigger] front[i]).0 == (
                    fired.namespace_id,
                    fired.identity,
                ) && front[i].1.0 == fired.generation && front[i].1.1 <= now;
            assert(timers[i] == front[i]);
            let k = rest.index_of(fired);
            assert(all[k] == fired);
        }
        if all.contains(fired) && !rest.contains(fired) {
            let k = all.index_of(fired);
            assert(k == rest.len());
        }
        if exists|i: int|
            0 <= i < timers.len() && (#[trigger] timers[i]).0 == (
                fired.namespace_id,
                fired.identity,
            ) && timers[i].1.0 == fired.generation && timers[i].1.1 <= now {
            let i = choose|i: int|
                0 <= i < timers.len() && (#[trigger] timers[i]).0 == (
                    fired.namespace_id,
                    fired.identity,
                ) && timers[i].1.0 == fired.generation && timers[i].1.1 <= now;
            if i < front.len() {
                assert(front[i] == timers[i]);
            } else {
                assert(all[rest.len() as int] == fired);
            }
        }
    }
}

/// Where a fired timer stands among the pending ones, and that each went off once.
proof fn lemma_expired(timers: Pending, now: u64)
    requires
        increasing(timers),
    ensures
        forall|i: int|
            0 <= i < expired(timers, now).len() ==> {
                let f = #[trigger] expired(timers, now)[i];
                exists|j: int|
                    0 <= j < timers.len() && (#[trigger] timers[j]).0.id() == f.key()
                        && timers[j].1.0 == f.generation && timers[j].1.1 <= now
            },
        forall|i: int, j: int|
            0 <= i < j < expired(timers, now).len() ==> (#[trigger] expired(timers, now)[i]).key()
                != (#[trigger] expired(timers, now)[j]).key(),
    decreases timers.len(),
{
    if timers.len() > 0 {
        let front = timers.drop_last();
        let all = expired(timers, now);
        let rest = expired(front, now);
        let last = timers.len() - 1;
        lemma_expired(front, now);
        assert forall|i: int| 0 <= i < all.len() implies {
            let f = #[trigger] all[i];
            exists|j: int|
                0 <= j < timers.len() && (#[trigger] timers[j]).0.id() == f.key()
                    && timers[j].1.0 == f.generation && timers[j].1.1 <= now
        } by {
            if i < rest.len() {
                let f = rest[i];
                let j = choose|j: int|
                    0 <= j < front.len() && (#[trigger] front[j]).0.id() == f.key()
                        && front[j].1.0 == f.generation && front[j].1.1 <= now;
                assert(timers[j] == front[j]);
            } else {
                assert(timers[last].0.id() == all[i].key());
            }
        }
        assert forall|i: int, j: int| 0 <= i < j < all.len() implies (#[trigger] all[i]).key() != (
        #[trigger] all[j]).key() by {
            if j < rest.len() {
                assert(rest[i].key() != rest[j].key());
            } else {
                let f = rest[i];
                let k = choose|k: int|
                    0 <= k < front.len() && (#[trigger] front[k]).0.id() == f.key()
                        && front[k].1.0 == f.generation && front[k].1.1 <= now;
                assert(timers[k] == front[k]);
                lemma_position_unique(timers, k);
                lemma_position_unique(timers, last);
                assert(timers[last].0.id() == all[j].key());
            }
        }
    }
}

/// The wheel gives out each timer whose deadline has come exactly once, in the generation that it
/// was started in last, and nothing else. Those and no others are pending no more, so that asking
/// again at the same time gives nothing.
pub proof fn law_each_due_timer_fires_once(timers: Pending, now: u64, left: Pending)
    requires
        increasing(timers),
        increasing(left),
        as_map(left) == still_pending(as_map(timers), now),
    ensures
        forall|i: int|
            0 <= i < expired(timers, now).len() ==> {
                let f = #[trigger] expired(timers, now)[i];
                &&& as_map(timers).contains_key(f.key())
                &&& as_map(timers)[f.key()].0 == f.generation
                &&& as_map(timers)[f.key()].1 <= now
                &&& !as_map(left).contains_key(f.key())
            },
        forall|i: int, j: int|
            0 <= i < j < expired(timers, now).len() ==> (#[trigger] expired(timers, now)[i]).key()
                != (#[trigger] expired(timers, now)[j]).key(),
        forall|k: (Seq<char>, TimerIdentity)| #[trigger]
            as_map(timers).contains_key(k) && as_map(timers)[k].1 <= now ==> exists|i: int|
                0 <= i < expired(timers, now).len() && (#[trigger] expired(timers, now)[i]).key()
                    == k,
        forall|k: (Seq<char>, TimerIdentity)| #[trigger]
            as_map(timers).contains_key(k) && as_map(timers)[k].1 > now ==> as_map(
                left,
            ).contains_key(k) && as_map(left)[k] == as_map(timers)[k],
        expired(left, now).len() == 0,
{
    let all = expired(timers, now);
    lemma_expired(timers, now);
    assert forall|i: int| 0 <= i < all.len() implies {
        let f = #[trigger] all[i];
        &&& as_map(timers).contains_key(f.key())
        &&& as_map(timers)[f.key()].0 == f.generation
        &&& as_map(timers)[f.key()].1 <= now
        &&& !as_map(left).contains_key(f.key())
    } by {
        let f = all[i];
        let j = choose|j: int|
            0 <= j < timers.len() && (#[trigger] timers[j]).0.id() == f.key() && timers[j].1.0
                == f.generation && timers[j].1.1 <= now;
        lemma_position_unique(timers, j);
    }
    assert forall|k: (Seq<char>, TimerIdentity)| #[trigger]
        as_map(timers).contains_key(k) && as_map(timers)[k].1 <= now implies exists|i: int|
        0 <= i < all.len() && (#[trigger] all[i]).key() == k by {
        assert(has_key(timers, k));
        let p = position(timers, k);
        assert(0 <= p < timers.len() && timers[p].0.id() == k);
        lemma_position_unique(timers, p);
        let f = FiredTimer {
            namespace_id: timers[p].0.0,
            identity: timers[p].0.1,
            generation: timers[p].1.0,
        };
        law_fires_when_due(timers, now, f);
        assert(all.contains(f));
        let i = all.index_of(f);
        assert(all[i].key() == k);
    }
    law_fires_from_the_deadline_on(left, now);
}

/// Something fires exactly if some timer is due.
pub proof fn law_fires_from_the_deadline_on(timers: Pending, now: u64)
    requires
        increasing(timers),
    ensures
        expired(timers, now).len() > 0 <==> exists|k: (Seq<char>, TimerIdentity)| #[trigger]
            as_map(timers).contains_key(k) && as_map(timers)[k].1 <= now,
{
    let all = expired(timers, now);
    lemma_expired(timers, now);
    if all.len() > 0 {
        let f = all[0];
        let j = choose|j: int|
            0 <= j < timers.len() && (#[trigger] timers[j]).0.id() == f.key() && timers[j].1.0
                == f.generation && timers[j].1.1 <= now;
        lemma_position_unique(timers, j);
        assert(as_map(timers).contains_key(f.key()));
    }
    if exists|k: (Seq<char>, TimerIdentity)| #[trigger]
        as_map(timers).contains_key(k) && as_map(timers)[k].1 <= now {
        let k = choose|k: (Seq<char>, TimerIdentity)| #[trigger]
            as_map(timers).contains_key(k) && as_map(timers)[k].1 <= now;
        assert(has_key(timers, k));
        let p = position(timers, k);
        assert(0 <= p < timers.len() && timers[p].0.id() == k);
        lemma_position_unique(timers, p);
        let f = FiredTimer {
            namespace_id: timers[p].0.0,
            identity: timers[p].0.1,
            generation: timers[p].1.0,
        };
        law_fires_when_due(timers, now, f);
        assert(all.contains(f));
    }
}

/// Nothing fires before the earliest deadline and something fires at it. Once what is due has been
/// taken out, the earliest deadline lies ahead.
pub proof fn law_nothing_fires_before_the_deadline(
    timers: Pending,
    deadline: Option<u64>,
    now: u64,
    after: Option<u64>,
)
    requires
        increasing(timers),
        earliest(as_map(timers), deadline),
        earliest(still_pending(as_map(timers), now), after),
    ensures
        deadline is None ==> expired(timers, now).len() == 0,
        deadline matches Some(d) ==> (expired(timers, now).len() > 0 <==> d <= now),
        after matches Some(d) ==> now < d,
{
    law_fires_from_the_deadline_on(timers, now);
}

/// To take in two lists of actions one after the other is to take in both at once.
pub proof fn law_absorbing_in_turn(
    timers: Map<(Seq<char>, TimerIdentity), (u64, u64)>,
    namespace_id: Seq<char>,
    first: Seq<TimerAction>,
    second: Seq<TimerAction>,
    now: u64,
)
    ensures
        absorbed(absorbed(timers, namespace_id, first, now), namespace_id, second, now) == absorbed(
            timers,
            namespace_id,
            first + second,
            now,
        ),
    decreases second.len(),
{
    let both = first + second;
    if second.len() == 0 {
        assert(both =~= first);
    } else {
        law_absorbing_in_turn(timers, namespace_id, first, second.drop_last(), now);
        assert(both.drop_last() =~= first + second.drop_last());
        assert(both.last() == second.last());
    }
}

/// What a namespace does to its timers leaves those of the others alone.
pub proof fn law_namespaces_are_apart(
    timers: Map<(Seq<char>, TimerIdentity), (u64, u64)>,
    namespace_id: Seq<char>,
    actions: Seq<TimerAction>,
    now: u64,
    other: (Seq<char>, TimerIdentity),
)
    requires
        other.0 != namespace_id,
    ensures
        ({
            let after = absorbed(timers, namespace_id, actions, now);
            (after.contains_key(other) <==> timers.contains_key(other)) && (timers.contains_key(
                other,
            ) ==> after[other] == timers[other])
        }),
    decreases actions.len(),
{
    if actions.len() > 0 {
        law_namespaces_are_apart(timers, namespace_id, actions.drop_last(), now, other);
    }
}

/// A timer that was started last is pending in its generation and due after its duration. One that
/// was cancelled last is not pending. No other timer changes.
pub proof fn law_last_action_on_timer_counts(
    timers: Map<(Seq<char>, TimerIdentity), (u64, u64)>,
    namespace_id: Seq<char>,
    actions: Seq<TimerAction>,
    now: u64,
    identity: TimerIdentity,
    generation: u64,
    duration_ms: u64,
)
    requires
        now + duration_ms <= u64::MAX,
    ensures
        ({
            let before = absorbed(timers, namespace_id, actions, now);
            let started = absorbed(
                timers,
                namespace_id,
                actions.push(TimerAction::Start { identity, generation, duration_ms }),
                now,
            );
            let cancelled = absorbed(
                timers,
                namespace_id,
                actions.push(TimerAction::Cancel { identity }),
                now,
            );
            &&& started.contains_key((namespace_id, identity))
            &&& started[(namespace_id, identity)].0 == generation
            &&& started[(namespace_id, identity)].1 == now + duration_ms
            &&& !cancelled.contains_key((namespace_id, identity))
            &&& forall|k: (Seq<char>, TimerIdentity)|
                #![trigger started.contains_key(k)]
                #![trigger cancelled.contains_key(k)]
                k != (namespace_id, identity) ==> started.contains_key(k) == before.contains_key(k)
                    && cancelled.contains_key(k) == before.contains_key(k) && (
                before.contains_key(k) ==> started[k] == before[k] && cancelled[k] == before[k])
        }),
        absorbed(timers, namespace_id, Seq::empty(), now) == timers,
{
    let start = actions.push(TimerAction::Start { identity, generation, duration_ms });
    let cancel = actions.push(TimerAction::Cancel { identity });
    assert(start.drop_last() =~= actions);
    assert(cancel.drop_last() =~= actions);
}

} // verus!
