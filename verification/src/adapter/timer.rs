//! Turns the timers that are wanted into timers to start and to cancel.
use vstd::prelude::*;

use crate::sm::{
    EndpointId, EndpointTimerKey, PodId, PodTimerKey, ServiceId, ServiceTimerKey, TimerId, TimerPortInput, TimerRequest, WorkloadId,
    WorkloadTimerKey, TIMER,
};
use crate::sorted_map::{
    as_map, increasing, lemma_contains_either, lemma_picked, lemma_position_unique, makes, picked,
    position, restricted, Key, SortedMap,
};

verus! {

/// One timer.
#[derive(Debug, Clone, Copy, PartialEq, Eq, Hash, Structural)]
pub enum TimerIdentity {
    Workload(WorkloadId, WorkloadTimerKey),
    Service(ServiceId, ServiceTimerKey),
    Endpoint(EndpointId, EndpointTimerKey),
    Pod(PodId, PodTimerKey),
}

impl TimerIdentity {
    /// The kind, the owner and the key as numbers.
    pub open spec fn code(self) -> (int, int, int) {
        match self {
            TimerIdentity::Workload(id, WorkloadTimerKey::RetryBackoff) => (0, id.0 as int, 0),
            TimerIdentity::Service(id, ServiceTimerKey::IdleTimeout) => (1, id.0 as int, 0),
            TimerIdentity::Endpoint(id, EndpointTimerKey::IdleTimeout) => (2, id.0 as int, 0),
            TimerIdentity::Pod(id, PodTimerKey::LaunchTimeout) => (3, id.0 as int, 0),
            TimerIdentity::Pod(id, PodTimerKey::SuspendTimeout) => (3, id.0 as int, 1),
        }
    }

    fn numbers(&self) -> (r: (u8, u64, u8))
        ensures
            self.code() == (r.0 as int, r.1 as int, r.2 as int),
    {
        match self {
            TimerIdentity::Workload(id, WorkloadTimerKey::RetryBackoff) => (0, id.0, 0),
            TimerIdentity::Service(id, ServiceTimerKey::IdleTimeout) => (1, id.0, 0),
            TimerIdentity::Endpoint(id, EndpointTimerKey::IdleTimeout) => (2, id.0, 0),
            TimerIdentity::Pod(id, PodTimerKey::LaunchTimeout) => (3, id.0, 0),
            TimerIdentity::Pod(id, PodTimerKey::SuspendTimeout) => (3, id.0, 1),
        }
    }
}

/// Timers are ordered by kind, then by owner, then by key.
impl Key for TimerIdentity {
    type Id = TimerIdentity;

    open spec fn id(&self) -> TimerIdentity {
        *self
    }

    open spec fn before(a: TimerIdentity, b: TimerIdentity) -> bool {
        let (x, y) = (a.code(), b.code());
        x.0 < y.0 || (x.0 == y.0 && (x.1 < y.1 || (x.1 == y.1 && x.2 < y.2)))
    }

    proof fn before_irreflexive(a: TimerIdentity) {
    }

    proof fn before_transitive(a: TimerIdentity, b: TimerIdentity, c: TimerIdentity) {
    }

    proof fn before_total(a: TimerIdentity, b: TimerIdentity) {
    }

    fn same(&self, other: &Self) -> (r: bool) {
        *self == *other
    }

    fn precedes(&self, other: &Self) -> (r: bool) {
        let x = self.numbers();
        let y = other.numbers();
        x.0 < y.0 || (x.0 == y.0 && (x.1 < y.1 || (x.1 == y.1 && x.2 < y.2)))
    }

    fn duplicate(&self) -> (r: Self) {
        *self
    }
}

/// What is to be done to the timers that run.
#[derive(Debug, Clone, Copy, PartialEq, Eq, Structural)]
pub enum TimerAction {
    Start { identity: TimerIdentity, generation: u64, duration_ms: u64 },
    Cancel { identity: TimerIdentity },
}

/// Timers, each with its generation and its duration in milliseconds.
pub type Timers = Seq<(TimerIdentity, (u64, u64))>;

/// How long the timers run.
#[derive(Debug, Clone, Copy, PartialEq, Eq, Structural)]
pub struct TimerConfig {
    pub retry_backoff_ms: u64,
    pub launch_timeout_ms: u64,
    pub suspend_timeout_ms: u64,
    pub idle_timeout_ms: u64,
}

impl TimerConfig {
    /// How long a timer runs.
    pub open spec fn duration(self, identity: TimerIdentity) -> u64 {
        match identity {
            TimerIdentity::Workload(_, WorkloadTimerKey::RetryBackoff) => self.retry_backoff_ms,
            TimerIdentity::Service(_, ServiceTimerKey::IdleTimeout) => self.idle_timeout_ms,
            TimerIdentity::Endpoint(_, EndpointTimerKey::IdleTimeout) => self.idle_timeout_ms,
            TimerIdentity::Pod(_, PodTimerKey::LaunchTimeout) => self.launch_timeout_ms,
            TimerIdentity::Pod(_, PodTimerKey::SuspendTimeout) => self.suspend_timeout_ms,
        }
    }
}

/// The generation and the duration of a timer that is asked for.
pub open spec fn terms<K>(config: TimerConfig, identity: TimerIdentity, request: TimerRequest<K>) -> (
    u64,
    u64,
) {
    (
        request.generation,
        match request.duration_ms {
            Some(duration_ms) => duration_ms,
            None => config.duration(identity),
        },
    )
}

/// The timers that an input asks for.
pub open spec fn requested(config: TimerConfig, input: TimerPortInput) -> Timers {
    match input {
        TimerPortInput::WorkloadTimersInput(v) => Seq::new(
            v@.len(),
            |i: int|
                {
                    let identity = TimerIdentity::Workload(v@[i].0, v@[i].1.key);
                    (identity, terms(config, identity, v@[i].1))
                },
        ),
        TimerPortInput::ServiceTimersInput(v) => Seq::new(
            v@.len(),
            |i: int|
                {
                    let identity = TimerIdentity::Service(v@[i].0, v@[i].1.key);
                    (identity, terms(config, identity, v@[i].1))
                },
        ),
        TimerPortInput::EndpointTimersInput(v) => Seq::new(
            v@.len(),
            |i: int|
                {
                    let identity = TimerIdentity::Endpoint(v@[i].0, v@[i].1.key);
                    (identity, terms(config, identity, v@[i].1))
                },
        ),
        TimerPortInput::PodTimersInput(v) => Seq::new(
            v@.len(),
            |i: int|
                {
                    let identity = TimerIdentity::Pod(v@[i].0, v@[i].1.key);
                    (identity, terms(config, identity, v@[i].1))
                },
        ),
    }
}

/// Whether an input speaks of timers of the kind of `identity`.
pub open spec fn speaks_of(input: TimerPortInput, identity: TimerIdentity) -> bool {
    match input {
        TimerPortInput::WorkloadTimersInput(_) => identity is Workload,
        TimerPortInput::ServiceTimersInput(_) => identity is Service,
        TimerPortInput::EndpointTimersInput(_) => identity is Endpoint,
        TimerPortInput::PodTimersInput(_) => identity is Pod,
    }
}

/// Adds the timers of a list. The last entry of a timer counts.
pub open spec fn with_timers(
    timers: Map<TimerIdentity, (u64, u64)>,
    list: Timers,
) -> Map<TimerIdentity, (u64, u64)>
    decreases list.len(),
{
    if list.len() == 0 {
        timers
    } else {
        with_timers(timers, list.drop_last()).insert(list.last().0, list.last().1)
    }
}

/// The timers that are wanted after an input: it replaces all those of its kind.
pub open spec fn wanted_by(
    config: TimerConfig,
    timers: Map<TimerIdentity, (u64, u64)>,
    input: TimerPortInput,
) -> Map<TimerIdentity, (u64, u64)> {
    with_timers(
        restricted(timers, |k: TimerIdentity, _t: (u64, u64)| !speaks_of(input, k)),
        requested(config, input),
    )
}

/// The timers that are wanted after the inputs of the timer port.
pub open spec fn wanted(
    config: TimerConfig,
    timers: Map<TimerIdentity, (u64, u64)>,
    inputs: Seq<(TimerId, TimerPortInput)>,
) -> Map<TimerIdentity, (u64, u64)>
    decreases inputs.len(),
{
    if inputs.len() == 0 {
        timers
    } else {
        let before = wanted(config, timers, inputs.drop_last());
        if inputs.last().0 == TIMER {
            wanted_by(config, before, inputs.last().1)
        } else {
            before
        }
    }
}

/// Whether a timer of this generation is among `timers`.
pub open spec fn holds(timers: Map<TimerIdentity, (u64, u64)>, entry: (TimerIdentity, (u64, u64))) -> bool {
    timers.contains_key(entry.0) && timers[entry.0].0 == entry.1.0
}

/// A cancellation for each timer that `timers` does not hold.
pub open spec fn cancels(
    active: Timers,
    timers: Map<TimerIdentity, (u64, u64)>,
) -> Seq<TimerAction>
    decreases active.len(),
{
    if active.len() == 0 {
        seq![]
    } else {
        let rest = cancels(active.drop_last(), timers);
        if holds(timers, active.last()) {
            rest
        } else {
            rest.push(TimerAction::Cancel { identity: active.last().0 })
        }
    }
}

/// A start for each timer that `timers` does not hold.
pub open spec fn starts(
    list: Timers,
    timers: Map<TimerIdentity, (u64, u64)>,
) -> Seq<TimerAction>
    decreases list.len(),
{
    if list.len() == 0 {
        seq![]
    } else {
        let rest = starts(list.drop_last(), timers);
        if holds(timers, list.last()) {
            rest
        } else {
            rest.push(
                TimerAction::Start {
                    identity: list.last().0,
                    generation: list.last().1.0,
                    duration_ms: list.last().1.1,
                },
            )
        }
    }
}

/// What leads from the timers `active` to the timers `next`.
pub open spec fn changes(
    active: Timers,
    next: Timers,
) -> Seq<TimerAction> {
    cancels(active, as_map(next)) + starts(next, as_map(active))
}

/// Keeps track of the timers that run.
pub struct TimerAdapter {
    config: TimerConfig,
    active: SortedMap<TimerIdentity, (u64, u64)>,
}

impl TimerAdapter {
    pub closed spec fn config(&self) -> TimerConfig {
        self.config
    }

    /// The timers that run, with their generations.
    pub closed spec fn active(&self) -> Timers {
        self.active.seq()
    }

    pub fn new(config: TimerConfig) -> (r: Self)
        ensures
            r.config() == config,
            r.active() == Seq::<(TimerIdentity, (u64, u64))>::empty(),
    {
        TimerAdapter { config, active: SortedMap::new() }
    }

    /// Takes in what was asked for, and says which timers to cancel and to start.
    pub fn reconcile(&mut self, inputs: &Vec<(TimerId, TimerPortInput)>) -> (r: Vec<TimerAction>)
        ensures
            final(self).config() == old(self).config(),
            as_map(final(self).active()) == wanted(
                old(self).config(),
                as_map(old(self).active()),
                inputs@,
            ),
            r@ == changes(old(self).active(), final(self).active()),
            increasing(old(self).active()),
            increasing(final(self).active()),
    {
        let make = |_k: &TimerIdentity, t: &(u64, u64)| -> (r: (u64, u64))
            ensures
                r == *t,
            {
                *t
            };
        let mut next: SortedMap<TimerIdentity, (u64, u64)> = self.active.map_to(make);
        assert(next.seq() =~= self.active.seq());
        let mut i: usize = 0;
        assert(inputs@.take(0) =~= Seq::<(TimerId, TimerPortInput)>::empty());
        while i < inputs.len()
            invariant
                i <= inputs@.len(),
                next@ == wanted(self.config, self.active@, inputs@.take(i as int)),
            decreases inputs@.len() - i,
        {
            assert(inputs@.take(i + 1).drop_last() =~= inputs@.take(i as int));
            assert(inputs@.take(i + 1).last() == inputs@[i as int]);
            if inputs[i].0 == TIMER {
                self.take_input(&mut next, &inputs[i].1);
            }
            i = i + 1;
        }
        assert(inputs@.take(i as int) =~= inputs@);
        let mut actions: Vec<TimerAction> = Vec::new();
        let ghost old_timers = self.active.seq();
        let ghost new_timers = next.seq();
        let mut i: usize = 0;
        assert(old_timers.take(0) =~= Seq::<(TimerIdentity, (u64, u64))>::empty());
        let n: usize = self.active.len();
        while i < n
            invariant
                i <= n,
                n == old_timers.len(),
                old_timers == self.active.seq(),
                next@ == as_map(new_timers),
                actions@ == cancels(old_timers.take(i as int), as_map(new_timers)),
            decreases n - i,
        {
            assert(old_timers.take(i + 1).drop_last() =~= old_timers.take(i as int));
            assert(old_timers.take(i + 1).last() == old_timers[i as int]);
            let identity: &TimerIdentity = self.active.key_at(i);
            let generation: u64 = self.active.value_at(i).0;
            let kept: bool = match next.get(identity) {
                Some(t) => t.0 == generation,
                None => false,
            };
            if !kept {
                actions.push(TimerAction::Cancel { identity: *identity });
            }
            i = i + 1;
        }
        assert(old_timers.take(i as int) =~= old_timers);
        let ghost cancelled = actions@;
        let mut i: usize = 0;
        assert(new_timers.take(0) =~= Seq::<(TimerIdentity, (u64, u64))>::empty());
        assert(actions@ =~= cancelled + starts(new_timers.take(0), self.active@));
        let n: usize = next.len();
        while i < n
            invariant
                i <= n,
                n == new_timers.len(),
                new_timers == next.seq(),
                actions@ == cancelled + starts(
                    new_timers.take(i as int),
                    self.active@,
                ),
            decreases n - i,
        {
            assert(new_timers.take(i + 1).drop_last() =~= new_timers.take(i as int));
            assert(new_timers.take(i + 1).last() == new_timers[i as int]);
            let identity: &TimerIdentity = next.key_at(i);
            let (generation, duration_ms) = *next.value_at(i);
            let kept: bool = match self.active.get(identity) {
                Some(t) => t.0 == generation,
                None => false,
            };
            if !kept {
                actions.push(
                    TimerAction::Start {
                        identity: *identity,
                        generation,
                        duration_ms,
                    },
                );
                assert(actions@ =~= cancelled + starts(
                    new_timers.take(i + 1),
                    self.active@,
                ));
            }
            i = i + 1;
        }
        assert(new_timers.take(i as int) =~= new_timers);
        self.active = next;
        actions
    }

    /// The message that tells the owner of a timer that it went off.
    pub fn fire(&self, identity: &TimerIdentity) -> (r: TimerFired)
        ensures
            r == fired(*identity),
    {
        match identity {
            TimerIdentity::Workload(id, key) => TimerFired::Workload(TIMER, *id, *key),
            TimerIdentity::Service(id, key) => TimerFired::Service(TIMER, *id, *key),
            TimerIdentity::Endpoint(id, key) => TimerFired::Endpoint(TIMER, *id, *key),
            TimerIdentity::Pod(id, key) => TimerFired::Pod(TIMER, *id, *key),
        }
    }

    /// How long a timer runs.
    fn duration_for(&self, identity: &TimerIdentity) -> (r: u64)
        ensures
            r == self.config().duration(*identity),
    {
        match identity {
            TimerIdentity::Workload(_, WorkloadTimerKey::RetryBackoff) => self.config.retry_backoff_ms,
            TimerIdentity::Service(_, ServiceTimerKey::IdleTimeout) => self.config.idle_timeout_ms,
            TimerIdentity::Endpoint(_, EndpointTimerKey::IdleTimeout) => self.config.idle_timeout_ms,
            TimerIdentity::Pod(_, PodTimerKey::LaunchTimeout) => self.config.launch_timeout_ms,
            TimerIdentity::Pod(_, PodTimerKey::SuspendTimeout) => self.config.suspend_timeout_ms,
        }
    }
}

/// A message to the owner of a timer, from the timer port.
#[derive(Debug, Clone, Copy, PartialEq, Eq, Structural)]
pub enum TimerFired {
    Workload(TimerId, WorkloadId, WorkloadTimerKey),
    Service(TimerId, ServiceId, ServiceTimerKey),
    Endpoint(TimerId, EndpointId, EndpointTimerKey),
    Pod(TimerId, PodId, PodTimerKey),
}

/// The message for a timer that went off.
pub open spec fn fired(identity: TimerIdentity) -> TimerFired {
    match identity {
        TimerIdentity::Workload(id, key) => TimerFired::Workload(TIMER, id, key),
        TimerIdentity::Service(id, key) => TimerFired::Service(TIMER, id, key),
        TimerIdentity::Endpoint(id, key) => TimerFired::Endpoint(TIMER, id, key),
        TimerIdentity::Pod(id, key) => TimerFired::Pod(TIMER, id, key),
    }
}

impl TimerAdapter {
    /// The generation and the duration of a timer that is asked for.
    fn terms_of<K>(&self, identity: &TimerIdentity, request: &TimerRequest<K>) -> (r: (u64, u64))
        ensures
            r == terms(self.config(), *identity, *request),
    {
        let duration_ms: u64 = match request.duration_ms {
            Some(duration_ms) => duration_ms,
            None => self.duration_for(identity),
        };
        (request.generation, duration_ms)
    }

    /// The timers that an input asks for.
    fn requests_of(&self, input: &TimerPortInput) -> (r: Vec<(TimerIdentity, (u64, u64))>)
        ensures
            r@ == requested(self.config(), *input),
    {
        let mut list: Vec<(TimerIdentity, (u64, u64))> = Vec::new();
        let mut i: usize = 0;
        match input {
            TimerPortInput::WorkloadTimersInput(v) => {
                while i < v.len()
                    invariant
                        i <= v@.len(),
                        input == (TimerPortInput::WorkloadTimersInput(*v)),
                        list@ == requested(self.config(), *input).take(i as int),
                    decreases v@.len() - i,
                {
                    let identity = TimerIdentity::Workload(v[i].0, v[i].1.key);
                    list.push((identity, self.terms_of(&identity, &v[i].1)));
                    i = i + 1;
                }
            },
            TimerPortInput::ServiceTimersInput(v) => {
                while i < v.len()
                    invariant
                        i <= v@.len(),
                        input == (TimerPortInput::ServiceTimersInput(*v)),
                        list@ == requested(self.config(), *input).take(i as int),
                    decreases v@.len() - i,
                {
                    let identity = TimerIdentity::Service(v[i].0, v[i].1.key);
                    list.push((identity, self.terms_of(&identity, &v[i].1)));
                    i = i + 1;
                }
            },
            TimerPortInput::EndpointTimersInput(v) => {
                while i < v.len()
                    invariant
                        i <= v@.len(),
                        input == (TimerPortInput::EndpointTimersInput(*v)),
                        list@ == requested(self.config(), *input).take(i as int),
                    decreases v@.len() - i,
                {
                    let identity = TimerIdentity::Endpoint(v[i].0, v[i].1.key);
                    list.push((identity, self.terms_of(&identity, &v[i].1)));
                    i = i + 1;
                }
            },
            TimerPortInput::PodTimersInput(v) => {
                while i < v.len()
                    invariant
                        i <= v@.len(),
                        input == (TimerPortInput::PodTimersInput(*v)),
                        list@ == requested(self.config(), *input).take(i as int),
                    decreases v@.len() - i,
                {
                    let identity = TimerIdentity::Pod(v[i].0, v[i].1.key);
                    list.push((identity, self.terms_of(&identity, &v[i].1)));
                    i = i + 1;
                }
            },
        }
        assert(list@ =~= requested(self.config(), *input));
        list
    }

    /// Replaces the timers of an input's kind by those that it asks for.
    fn take_input(&self, timers: &mut SortedMap<TimerIdentity, (u64, u64)>, input: &TimerPortInput)
        ensures
            final(timers)@ == wanted_by(self.config(), old(timers)@, *input),
    {
        let ghost keep = |k: TimerIdentity, _t: (u64, u64)| !speaks_of(*input, k);
        let test = |k: &TimerIdentity, _t: &(u64, u64)| -> (r: bool)
            ensures
                r == !speaks_of(*input, *k),
            {
                match (input, k) {
                    (TimerPortInput::WorkloadTimersInput(_), TimerIdentity::Workload(_, _)) => false,
                    (TimerPortInput::ServiceTimersInput(_), TimerIdentity::Service(_, _)) => false,
                    (TimerPortInput::EndpointTimersInput(_), TimerIdentity::Endpoint(_, _)) => false,
                    (TimerPortInput::PodTimersInput(_), TimerIdentity::Pod(_, _)) => false,
                    _ => true,
                }
            };
        timers.retain(test, Ghost(keep));
        let ghost kept = timers@;
        let list = self.requests_of(input);
        let mut i: usize = 0;
        assert(list@.take(0) =~= Seq::<(TimerIdentity, (u64, u64))>::empty());
        while i < list.len()
            invariant
                i <= list@.len(),
                timers@ == with_timers(kept, list@.take(i as int)),
            decreases list@.len() - i,
        {
            assert(list@.take(i + 1).drop_last() =~= list@.take(i as int));
            assert(list@.take(i + 1).last() == list@[i as int]);
            timers.insert(list[i].0, list[i].1);
            i = i + 1;
        }
        assert(list@.take(i as int) =~= list@);
    }
}

/// The timers that run after an action.
pub open spec fn acted(timers: Map<TimerIdentity, (u64, u64)>, action: TimerAction) -> Map<
    TimerIdentity,
    (u64, u64),
> {
    match action {
        TimerAction::Start { identity, generation, duration_ms } => timers.insert(
            identity,
            (generation, duration_ms),
        ),
        TimerAction::Cancel { identity } => timers.remove(identity),
    }
}

/// The timers that run after a list of actions.
pub open spec fn acted_all(
    timers: Map<TimerIdentity, (u64, u64)>,
    actions: Seq<TimerAction>,
) -> Map<TimerIdentity, (u64, u64)>
    decreases actions.len(),
{
    if actions.len() == 0 {
        timers
    } else {
        acted(acted_all(timers, actions.drop_last()), actions.last())
    }
}

proof fn lemma_cancels(
    timers: Map<TimerIdentity, (u64, u64)>,
    active: Timers,
    next: Map<TimerIdentity, (u64, u64)>,
    id: TimerIdentity,
)
    ensures
        acted_all(timers, cancels(active, next)).contains_key(id) <==> timers.contains_key(id)
            && !(exists|i: int|
            0 <= i < active.len() && (#[trigger] active[i]).0 == id && !holds(next, active[i])),
        acted_all(timers, cancels(active, next)).contains_key(id) ==> acted_all(
            timers,
            cancels(active, next),
        )[id] == timers[id],
    decreases active.len(),
{
    if active.len() > 0 {
        let front = active.drop_last();
        lemma_cancels(timers, front, next, id);
        let rest = cancels(front, next);
        let all = cancels(active, next);
        if !holds(next, active.last()) {
            assert(all.drop_last() =~= rest);
        }
        if exists|i: int|
            0 <= i < front.len() && (#[trigger] front[i]).0 == id && !holds(next, front[i]) {
            let i = choose|i: int|
                0 <= i < front.len() && (#[trigger] front[i]).0 == id && !holds(next, front[i]);
            assert(active[i].0 == id && !holds(next, active[i]));
        }
        if exists|i: int|
            0 <= i < active.len() && (#[trigger] active[i]).0 == id && !holds(next, active[i]) {
            let i = choose|i: int|
                0 <= i < active.len() && (#[trigger] active[i]).0 == id && !holds(next, active[i]);
            if i < front.len() {
                assert(front[i].0 == id && !holds(next, front[i]));
            }
        }
        if active.last().0 == id && !holds(next, active.last()) {
            assert(active[active.len() - 1].0 == id);
        }
    }
}

proof fn lemma_starts(
    timers: Map<TimerIdentity, (u64, u64)>,
    done: Seq<TimerAction>,
    list: Timers,
    active: Map<TimerIdentity, (u64, u64)>,
    id: TimerIdentity,
)
    requires
        increasing(list),
    ensures
        ({
            let before = acted_all(timers, done);
            let after = acted_all(timers, done + starts(list, active));
            if exists|i: int|
                0 <= i < list.len() && (#[trigger] list[i]).0 == id && !holds(active, list[i]) {
                after.contains_key(id) && exists|i: int|
                    0 <= i < list.len() && (#[trigger] list[i]).0 == id && after[id] == list[i].1
            } else {
                (after.contains_key(id) <==> before.contains_key(id)) && (before.contains_key(id)
                    ==> after[id] == before[id])
            }
        }),
    decreases list.len(),
{
    if list.len() == 0 {
        assert(done + starts(list, active) =~= done);
    } else {
        let front = list.drop_last();
        lemma_starts(timers, done, front, active, id);
        let rest = starts(front, active);
        let all = starts(list, active);
        if holds(active, list.last()) {
            assert(all == rest);
        } else {
            assert((done + all).drop_last() =~= done + rest);
            assert((done + all).last() == all.last());
        }
        let after = acted_all(timers, done + all);
        let mid = acted_all(timers, done + rest);
        if list.last().0 == id {
            assert(list[list.len() - 1].0 == id);
            assert forall|i: int| 0 <= i < front.len() implies (#[trigger] front[i]).0 != id by {
                assert(list[i].0 == front[i].0);
            }
        }
        if exists|i: int|
            0 <= i < front.len() && (#[trigger] front[i]).0 == id && !holds(active, front[i]) {
            let i = choose|i: int|
                0 <= i < front.len() && (#[trigger] front[i]).0 == id && !holds(active, front[i]);
            assert(list[i].0 == id && !holds(active, list[i]));
            let j = choose|j: int|
                0 <= j < front.len() && (#[trigger] front[j]).0 == id && mid[id] == front[j].1;
            assert(list[j].0 == id && mid[id] == list[j].1);
            assert(list.last().0 != id) by {
                assert(list[j].0 == id);
            }
        } else if exists|i: int|
            0 <= i < list.len() && (#[trigger] list[i]).0 == id && !holds(active, list[i]) {
            let i = choose|i: int|
                0 <= i < list.len() && (#[trigger] list[i]).0 == id && !holds(active, list[i]);
            if i < front.len() {
                assert(front[i].0 == id && !holds(active, front[i]));
            }
            assert(i == list.len() - 1);
            assert(after[id] == list[i].1);
        }
    }
}

/// Where the timers of `active` run, the changes leave exactly those of `next` running, each in
/// its generation.
pub proof fn law_changes_reach_wanted(
    active: Timers,
    next: Timers,
)
    requires
        increasing(active),
        increasing(next),
    ensures
        acted_all(as_map(active), changes(active, next)).dom() == as_map(next).dom(),
        forall|id: TimerIdentity| #[trigger]
            as_map(next).contains_key(id) ==> acted_all(
                as_map(active),
                changes(active, next),
            )[id].0 == as_map(next)[id].0,
{
    let (a, n) = (as_map(active), as_map(next));
    let done = cancels(active, n);
    let after = acted_all(a, changes(active, next));
    assert forall|id: TimerIdentity|
        #![trigger after.dom().contains(id)]
        #![trigger n.dom().contains(id)]
        (after.contains_key(id) <==> n.contains_key(id)) && (n.contains_key(id) ==> after[id].0
            == n[id].0) by {
        lemma_cancels(a, active, n, id);
        lemma_starts(a, done, next, a, id);
        if a.contains_key(id) {
            let p = position(active, id);
            assert(active[p].0 == id && active[p].1 == a[id]);
        }
        if n.contains_key(id) {
            let p = position(next, id);
            assert(next[p].0 == id && next[p].1 == n[id]);
        }
        assert forall|i: int| 0 <= i < active.len() && (#[trigger] active[i]).0 == id implies
            a.contains_key(id) && a[id] == active[i].1 by {
            lemma_position_unique(active, i);
        }
        assert forall|i: int| 0 <= i < next.len() && (#[trigger] next[i]).0 == id implies
            n.contains_key(id) && n[id] == next[i].1 by {
            lemma_position_unique(next, i);
        }
    }
    assert(after.dom() =~= n.dom());
}

proof fn lemma_nothing_to_cancel(active: Timers, timers: Map<TimerIdentity, (u64, u64)>)
    requires
        forall|i: int| 0 <= i < active.len() ==> holds(timers, #[trigger] active[i]),
    ensures
        cancels(active, timers).len() == 0,
    decreases active.len(),
{
    if active.len() > 0 {
        assert(holds(timers, active[active.len() - 1]));
        assert forall|i: int| 0 <= i < active.drop_last().len() implies holds(
            timers,
            #[trigger] active.drop_last()[i],
        ) by {
            assert(holds(timers, active[i]));
        }
        lemma_nothing_to_cancel(active.drop_last(), timers);
    }
}

proof fn lemma_nothing_to_start(
    list: Timers,
    timers: Map<TimerIdentity, (u64, u64)>,
)
    requires
        forall|i: int| 0 <= i < list.len() ==> holds(timers, #[trigger] list[i]),
    ensures
        starts(list, timers).len() == 0,
    decreases list.len(),
{
    if list.len() > 0 {
        assert(holds(timers, list[list.len() - 1]));
        assert forall|i: int| 0 <= i < list.drop_last().len() implies holds(
            timers,
            #[trigger] list.drop_last()[i],
        ) by {
            assert(holds(timers, list[i]));
        }
        lemma_nothing_to_start(list.drop_last(), timers);
    }
}

/// A timer runs that is no longer wanted, or not in its generation.
pub open spec fn outdated(
    active: Map<TimerIdentity, (u64, u64)>,
    next: Map<TimerIdentity, (u64, u64)>,
    action: TimerAction,
) -> bool {
    action matches TimerAction::Cancel { identity } && active.contains_key(identity) && !holds(
        next,
        (identity, active[identity]),
    )
}

/// A timer is wanted that does not run, or not in the generation that is wanted.
pub open spec fn missing(
    active: Map<TimerIdentity, (u64, u64)>,
    next: Map<TimerIdentity, (u64, u64)>,
    action: TimerAction,
) -> bool {
    action matches TimerAction::Start { identity, generation, duration_ms } && next.contains_key(
        identity,
    ) && next[identity] == (generation, duration_ms) && !holds(active, (identity, next[identity]))
}

spec fn not_held(m: Map<TimerIdentity, (u64, u64)>) -> spec_fn((TimerIdentity, (u64, u64))) -> bool {
    |e: (TimerIdentity, (u64, u64))| !holds(m, e)
}

spec fn as_cancel() -> spec_fn((TimerIdentity, (u64, u64))) -> TimerAction {
    |e: (TimerIdentity, (u64, u64))| TimerAction::Cancel { identity: e.0 }
}

spec fn as_start() -> spec_fn((TimerIdentity, (u64, u64))) -> TimerAction {
    |e: (TimerIdentity, (u64, u64))|
        TimerAction::Start { identity: e.0, generation: e.1.0, duration_ms: e.1.1 }
}

proof fn lemma_changes_picked(list: Timers, m: Map<TimerIdentity, (u64, u64)>)
    ensures
        cancels(list, m) == picked(list, not_held(m), as_cancel()),
        starts(list, m) == picked(list, not_held(m), as_start()),
    decreases list.len(),
{
    if list.len() > 0 {
        lemma_changes_picked(list.drop_last(), m);
    }
}

/// Each change is reported exactly once, and nothing else is: the end of each timer that runs and is
/// not wanted in its generation, and the start of each timer that is wanted and does not run in its
/// generation.
pub proof fn law_each_change_is_reported_once(active: Timers, next: Timers)
    requires
        increasing(active),
        increasing(next),
    ensures
        forall|t: TimerAction| #[trigger]
            changes(active, next).contains(t) <==> outdated(as_map(active), as_map(next), t)
                || missing(as_map(active), as_map(next), t),
        changes(active, next).no_duplicates(),
{
    let (m, n) = (as_map(active), as_map(next));
    let (a, b) = (cancels(active, n), starts(next, m));
    let all = changes(active, next);
    lemma_changes_picked(active, n);
    lemma_changes_picked(next, m);
    lemma_picked(active, not_held(n), as_cancel());
    lemma_picked(next, not_held(m), as_start());
    assert forall|t: TimerAction| #[trigger] a.contains(t) <==> outdated(m, n, t) by {
        if makes(active, not_held(n), as_cancel(), t) {
            let j = choose|j: int|
                0 <= j < active.len() && not_held(n)(#[trigger] active[j]) && as_cancel()(active[j])
                    == t;
            lemma_position_unique(active, j);
        }
        if outdated(m, n, t) {
            if let TimerAction::Cancel { identity } = t {
                let j = position(active, identity);
                assert(0 <= j < active.len() && active[j].0 == identity);
                assert(not_held(n)(active[j]) && as_cancel()(active[j]) == t);
            }
        }
    }
    assert forall|t: TimerAction| #[trigger] b.contains(t) <==> missing(m, n, t) by {
        if makes(next, not_held(m), as_start(), t) {
            let j = choose|j: int|
                0 <= j < next.len() && not_held(m)(#[trigger] next[j]) && as_start()(next[j]) == t;
            lemma_position_unique(next, j);
        }
        if missing(m, n, t) {
            if let TimerAction::Start { identity, .. } = t {
                let j = position(next, identity);
                assert(0 <= j < next.len() && next[j].0 == identity);
                assert(not_held(m)(next[j]) && as_start()(next[j]) == t);
            }
        }
    }
    assert forall|t: TimerAction| #[trigger] all.contains(t) <==> outdated(m, n, t) || missing(
        m,
        n,
        t,
    ) by {
        lemma_contains_either(a, b, t);
    }
    assert forall|i: int, j: int| 0 <= i < all.len() && 0 <= j < all.len() && i != j implies all[i]
        != all[j] by {
        if i < a.len() {
            assert(a.contains(a[i]) && all[i] == a[i]);
        } else {
            assert(b.contains(b[i - a.len()]) && all[i] == b[i - a.len()]);
        }
        if j < a.len() {
            assert(a.contains(a[j]) && all[j] == a[j]);
        } else {
            assert(b.contains(b[j - a.len()]) && all[j] == b[j - a.len()]);
        }
    }
}

/// Where the wanted timers run already, in the same generations, nothing is done.
pub proof fn law_stable_state(active: Timers)
    requires
        increasing(active),
    ensures
        changes(active, active) == Seq::<TimerAction>::empty(),
{
    assert forall|i: int| 0 <= i < active.len() implies holds(as_map(active), #[trigger] active[i]) by {
        lemma_position_unique(active, i);
    }
    lemma_nothing_to_cancel(active, as_map(active));
    lemma_nothing_to_start(active, as_map(active));
    assert(changes(active, active) =~= Seq::<TimerAction>::empty());
}

/// Inputs of other ports ask for nothing.
pub proof fn law_other_ports_ignored(
    config: TimerConfig,
    timers: Map<TimerIdentity, (u64, u64)>,
    inputs: Seq<(TimerId, TimerPortInput)>,
)
    requires
        forall|i: int| 0 <= i < inputs.len() ==> (#[trigger] inputs[i]).0 != TIMER,
    ensures
        wanted(config, timers, inputs) == timers,
    decreases inputs.len(),
{
    if inputs.len() > 0 {
        assert(inputs[inputs.len() - 1].0 != TIMER);
        assert forall|i: int| 0 <= i < inputs.drop_last().len() implies (
        #[trigger] inputs.drop_last()[i]).0 != TIMER by {
            assert(inputs[i].0 != TIMER);
        }
        law_other_ports_ignored(config, timers, inputs.drop_last());
    }
}

} // verus!
