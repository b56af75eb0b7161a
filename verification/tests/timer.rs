use distvirt_orchestrator::adapter::timer::{
    TimerAction, TimerAdapter, TimerConfig, TimerFired, TimerIdentity,
};
use distvirt_orchestrator::sm::{
    EndpointId, EndpointTimerKey, PodId, PodTimerKey, TimerId, TimerPortInput, TimerRequest,
    WorkloadId, WorkloadTimerKey, TIMER,
};

const W1: WorkloadId = WorkloadId(1);
const E1: EndpointId = EndpointId(1);

fn test_config() -> TimerConfig {
    TimerConfig {
        retry_backoff_ms: 5_000,
        launch_timeout_ms: 30_000,
        suspend_timeout_ms: 60_000,
        idle_timeout_ms: 300_000,
    }
}

/// A workload in its first backoff asks for half a second.
fn backoff(generation: u64) -> (TimerId, TimerPortInput) {
    (
        TIMER,
        TimerPortInput::WorkloadTimersInput(vec![(
            W1,
            TimerRequest {
                key: WorkloadTimerKey::RetryBackoff,
                generation,
                duration_ms: Some(500),
            },
        )]),
    )
}

fn no_backoff() -> (TimerId, TimerPortInput) {
    (TIMER, TimerPortInput::WorkloadTimersInput(vec![]))
}

fn idle(generation: u64) -> (TimerId, TimerPortInput) {
    (
        TIMER,
        TimerPortInput::EndpointTimersInput(vec![(
            E1,
            TimerRequest { key: EndpointTimerKey::IdleTimeout, generation, duration_ms: None },
        )]),
    )
}

fn no_idle() -> (TimerId, TimerPortInput) {
    (TIMER, TimerPortInput::EndpointTimersInput(vec![]))
}

const BACKOFF: TimerIdentity = TimerIdentity::Workload(W1, WorkloadTimerKey::RetryBackoff);
const IDLE: TimerIdentity = TimerIdentity::Endpoint(E1, EndpointTimerKey::IdleTimeout);

#[test]
fn no_timers_no_actions() {
    let mut adapter = TimerAdapter::new(test_config());
    let actions = adapter.reconcile(&vec![]);
    assert!(actions.is_empty());
}

#[test]
fn new_timer_produces_start() {
    let mut adapter = TimerAdapter::new(test_config());
    let actions = adapter.reconcile(&vec![backoff(1)]);
    let starts: Vec<_> =
        actions.iter().filter(|a| matches!(a, TimerAction::Start { .. })).collect();
    assert_eq!(starts.len(), 1, "expected 1 Start action, got {:?}", actions);
    match starts[0] {
        TimerAction::Start { identity, duration_ms, .. } => {
            assert_eq!(*identity, BACKOFF);
            assert_eq!(*duration_ms, 500);
        }
        _ => unreachable!(),
    }
}

#[test]
fn timer_removed_produces_cancel() {
    let mut adapter = TimerAdapter::new(test_config());
    let actions = adapter.reconcile(&vec![backoff(1)]);
    assert!(actions.iter().any(|a| matches!(a, TimerAction::Start { .. })), "expected Start");

    adapter.fire(&BACKOFF);

    let actions = adapter.reconcile(&vec![no_backoff()]);
    let cancels: Vec<_> =
        actions.iter().filter(|a| matches!(a, TimerAction::Cancel { .. })).collect();
    assert_eq!(cancels.len(), 1, "expected 1 Cancel, got {:?}", actions);
    match cancels[0] {
        TimerAction::Cancel { identity } => assert_eq!(*identity, BACKOFF),
        _ => unreachable!(),
    }
}

#[test]
fn same_generation_no_action() {
    let mut adapter = TimerAdapter::new(test_config());
    let actions = adapter.reconcile(&vec![backoff(1)]);
    assert!(!actions.is_empty());

    let actions = adapter.reconcile(&vec![]);
    assert!(actions.is_empty(), "expected no actions on stable state, got {:?}", actions);

    let actions = adapter.reconcile(&vec![backoff(1)]);
    assert!(actions.is_empty(), "expected no actions on stable state, got {:?}", actions);
}

#[test]
fn generation_change_restarts_timer() {
    let mut adapter = TimerAdapter::new(test_config());
    let started = |actions: &Vec<TimerAction>| {
        actions.iter().any(|a| matches!(a, TimerAction::Start { identity, .. } if *identity == IDLE))
    };
    let cancelled = |actions: &Vec<TimerAction>| {
        actions.iter().any(|a| matches!(a, TimerAction::Cancel { identity } if *identity == IDLE))
    };

    let actions = adapter.reconcile(&vec![idle(1)]);
    assert!(started(&actions), "expected idle timer Start, got {:?}", actions);

    let actions = adapter.reconcile(&vec![no_idle()]);
    assert!(cancelled(&actions), "expected idle timer Cancel, got {:?}", actions);

    let actions = adapter.reconcile(&vec![idle(2)]);
    assert!(started(&actions), "expected new Start after generation change, got {:?}", actions);

    let actions = adapter.reconcile(&vec![idle(3)]);
    assert!(cancelled(&actions) && started(&actions), "expected a restart, got {:?}", actions);
}

#[test]
fn multiple_sm_kinds_in_one_cycle() {
    let mut adapter = TimerAdapter::new(test_config());
    adapter.reconcile(&vec![idle(1)]);

    let actions = adapter.reconcile(&vec![no_idle(), backoff(1)]);
    let has_endpoint_timer = actions.iter().any(|a| {
        matches!(
            a,
            TimerAction::Start { identity: TimerIdentity::Endpoint(..), .. }
                | TimerAction::Cancel { identity: TimerIdentity::Endpoint(..) }
        )
    });
    let has_workload_timer = actions.iter().any(|a| {
        matches!(
            a,
            TimerAction::Start { identity: TimerIdentity::Workload(..), .. }
                | TimerAction::Cancel { identity: TimerIdentity::Workload(..) }
        )
    });
    assert!(!actions.is_empty(), "expected timer actions from multiple SM kinds");
    assert!(
        has_endpoint_timer || has_workload_timer,
        "expected timer actions from endpoint or workload, got {:?}",
        actions
    );
    assert!(has_endpoint_timer && has_workload_timer);
}

#[test]
fn fire_dispatches_workload_timer() {
    let adapter = TimerAdapter::new(test_config());
    assert_eq!(
        adapter.fire(&BACKOFF),
        TimerFired::Workload(TIMER, W1, WorkloadTimerKey::RetryBackoff)
    );
}

#[test]
fn fire_dispatches_endpoint_timer() {
    let adapter = TimerAdapter::new(test_config());
    assert_eq!(
        adapter.fire(&IDLE),
        TimerFired::Endpoint(TIMER, E1, EndpointTimerKey::IdleTimeout)
    );
}

#[test]
fn configured_durations_are_used() {
    let mut adapter = TimerAdapter::new(test_config());
    let pods = (
        TIMER,
        TimerPortInput::PodTimersInput(vec![
            (
                PodId(1),
                TimerRequest {
                    key: PodTimerKey::LaunchTimeout,
                    generation: 1,
                    duration_ms: None,
                },
            ),
            (
                PodId(2),
                TimerRequest {
                    key: PodTimerKey::SuspendTimeout,
                    generation: 1,
                    duration_ms: None,
                },
            ),
        ]),
    );
    let mut durations: Vec<u64> = adapter
        .reconcile(&vec![pods, idle(1)])
        .iter()
        .map(|a| match a {
            TimerAction::Start { duration_ms, .. } => *duration_ms,
            other => panic!("expected a start, got {:?}", other),
        })
        .collect();
    durations.sort();
    assert_eq!(durations, vec![30_000, 60_000, 300_000]);
}

#[test]
fn each_change_of_timers_is_reported_once() {
    let mut adapter = TimerAdapter::new(test_config());
    adapter.reconcile(&vec![backoff(1), idle(1)]);
    let retry = TimerIdentity::Workload(W1, WorkloadTimerKey::RetryBackoff);
    let actions = adapter.reconcile(&vec![backoff(2), idle(1)]);
    assert_eq!(
        actions,
        vec![
            TimerAction::Cancel { identity: retry },
            TimerAction::Start { identity: retry, generation: 2, duration_ms: 500 },
        ]
    );
}
