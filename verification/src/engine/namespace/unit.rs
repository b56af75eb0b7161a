//! A namespace with its timers.
use vstd::prelude::*;

use crate::adapter::management::ManagementAdapter;
use crate::adapter::timer::{TimerAction, TimerConfig};
use crate::agenda::converted;
use crate::engine::namespace::effects::{message_views, NamespaceEffects, SchedulerMessageView};
use crate::engine::namespace::router::{router_views, RouterOp, RouterSnapshot};
use crate::engine::namespace::status::NamespaceStatusReport;
use crate::engine::namespace::Namespace;
use crate::engine::protocol::{command_views, sent, CommandView, WorkerCommand};
use crate::engine::timer_wheel::{
    absorbed, earliest, expired, still_pending, FiredTimer, TimerWheel,
};
use crate::engine::types::{NamespaceToOrchestrator, OrchestratorToNamespace, SchedulerMessage};
use crate::ids::NamespaceId;
use crate::namespace::wireguard::WgPeerOutput;
use crate::sm::{PodId, WorkerId};
use crate::sorted_map::{increasing, Key};
use crate::types::NamespaceSpec;

verus! {

/// What a namespace with its timers gives out.
pub struct NamespaceOutput<E> {
    pub to_orchestrator: Vec<NamespaceToOrchestrator>,
    pub worker_commands: Vec<(WorkerId, WorkerCommand)>,
    /// Commands for all workers whose part in the namespace is up.
    pub broadcast_commands: Vec<WorkerCommand>,
    /// What observers of the namespace are to hear.
    pub observability_events: Vec<E>,
}

#[verifier::ext_equal]
pub struct NamespaceOutputView<E> {
    pub to_orchestrator: Seq<SchedulerMessageView>,
    pub worker_commands: Seq<(WorkerId, CommandView)>,
    pub broadcast_commands: Seq<CommandView>,
    pub observability_events: Seq<E>,
}

/// The messages to the scheduler among messages to the cluster.
pub open spec fn upward(messages: Seq<NamespaceToOrchestrator>) -> Seq<SchedulerMessageView> {
    messages.map_values(
        |m: NamespaceToOrchestrator|
            match m {
                NamespaceToOrchestrator::SchedulerMessage(s) => s@,
            },
    )
}

impl<E> NamespaceOutputView<E> {
    pub open spec fn nothing() -> NamespaceOutputView<E> {
        NamespaceOutputView {
            to_orchestrator: seq![],
            worker_commands: seq![],
            broadcast_commands: seq![],
            observability_events: seq![],
        }
    }

    /// One output after the other.
    pub open spec fn then_also(self, other: NamespaceOutputView<E>) -> NamespaceOutputView<E> {
        NamespaceOutputView {
            to_orchestrator: self.to_orchestrator + other.to_orchestrator,
            worker_commands: self.worker_commands + other.worker_commands,
            broadcast_commands: self.broadcast_commands + other.broadcast_commands,
            observability_events: self.observability_events + other.observability_events,
        }
    }
}

impl<E> NamespaceOutput<E> {
    pub open spec fn view(&self) -> NamespaceOutputView<E> {
        NamespaceOutputView {
            to_orchestrator: upward(self.to_orchestrator@),
            worker_commands: sent(self.worker_commands@),
            broadcast_commands: command_views(self.broadcast_commands@),
            observability_events: self.observability_events@,
        }
    }

    pub fn new() -> (r: Self)
        ensures
            r@ == NamespaceOutputView::<E>::nothing(),
    {
        let r = NamespaceOutput {
            to_orchestrator: Vec::new(),
            worker_commands: Vec::new(),
            broadcast_commands: Vec::new(),
            observability_events: Vec::new(),
        };
        assert(r@ =~= NamespaceOutputView::<E>::nothing());
        r
    }

    /// Adds another output after this one.
    pub fn merge(&mut self, other: NamespaceOutput<E>)
        ensures
            final(self)@ == old(self)@.then_also(other@),
    {
        let ghost o = other@;
        let mut other: NamespaceOutput<E> = other;
        self.to_orchestrator.append(&mut other.to_orchestrator);
        self.worker_commands.append(&mut other.worker_commands);
        self.broadcast_commands.append(&mut other.broadcast_commands);
        self.observability_events.append(&mut other.observability_events);
        assert(self@ =~= old(self)@.then_also(o));
    }
}

/// A namespace with its timers.
pub struct NamespaceUnit {
    pub namespace: Namespace,
    pub timer_wheel: TimerWheel,
}

impl NamespaceUnit {
    pub fn new(namespace_id: NamespaceId, timer_config: TimerConfig) -> (r: Self)
        ensures
            r.namespace.sound(),
            r.namespace.fresh(namespace_id, timer_config),
            r.timer_wheel.pending().len() == 0,
    {
        NamespaceUnit {
            namespace: Namespace::new(namespace_id, timer_config),
            timer_wheel: TimerWheel::new(),
        }
    }

    /// Takes in a message, and says how the router is to change.
    pub fn process<E>(
        &mut self,
        message: OrchestratorToNamespace,
        snapshot: &RouterSnapshot,
        peers: &Vec<WgPeerOutput>,
        effects: &mut NamespaceEffects<E>,
    ) -> (r: Vec<RouterOp>)
        requires
            old(self).namespace.sound(),
            old(self).namespace.can_take(message, *snapshot, peers@),
        ensures
            final(self).namespace.sound(),
            final(self).timer_wheel == old(self).timer_wheel,
            old(self).namespace.pushed(
                message,
                *snapshot,
                peers@,
                old(effects)@,
                final(self).namespace,
                router_views(r@),
                final(effects)@,
            ),
    {
        self.namespace.process_event(message, snapshot, peers, effects)
    }

    /// The workers whose part in the namespace is up, in order.
    pub fn active_worker_ids(&self) -> (r: Vec<WorkerId>)
        ensures
            r@ == self.namespace.active_workers.keys(),
    {
        self.namespace.active_worker_ids()
    }

    pub fn management(&self) -> (r: &ManagementAdapter)
        ensures
            *r == self.namespace.management,
    {
        self.namespace.management()
    }

    /// What the client asked for last.
    pub fn current_spec(&self) -> (r: Option<&NamespaceSpec>)
        ensures
            match r {
                Some(s) => self.namespace.current_spec == Some(*s),
                None => self.namespace.current_spec is None,
            },
    {
        self.namespace.current_spec()
    }

    /// What a client learns of the namespace, given what the router holds.
    pub fn status_report(&self, snapshot: &RouterSnapshot) -> (r: NamespaceStatusReport)
        ensures
            r@ == self.namespace.report(*snapshot),
    {
        self.namespace.status_report(snapshot)
    }

    /// Pods have the same number everywhere.
    pub fn router_pod_to_proto(&self, router_pid: &PodId) -> (r: Option<PodId>)
        ensures
            r == Some(*router_pid),
    {
        self.namespace.router_pod_to_proto(router_pid)
    }

    /// Lets the timers in effects run, and passes the rest on.
    pub fn convert_effects<E>(&mut self, effects: NamespaceEffects<E>, now: u64) -> (r: NamespaceOutput<E>)
        requires
            forall|i: int|
                0 <= i < effects.timer_actions@.len() ==> ((
                #[trigger] effects.timer_actions@[i]) matches TimerAction::Start {
                    duration_ms,
                    ..
                } ==> now + duration_ms <= u64::MAX),
        ensures
            final(self).namespace == old(self).namespace,
            final(self).timer_wheel@ == absorbed(
                old(self).timer_wheel@,
                old(self).namespace.namespace_id.id(),
                effects@.timer_actions,
                now,
            ),
            increasing(final(self).timer_wheel.pending()),
            r@ == (NamespaceOutputView {
                to_orchestrator: effects@.scheduler_messages,
                worker_commands: effects@.worker_commands,
                broadcast_commands: effects@.broadcast_commands,
                observability_events: effects@.observability_events,
            }),
    {
        self.timer_wheel.absorb(&self.namespace.namespace_id, &effects.timer_actions, now);
        let ghost all = effects.scheduler_messages@;
        let make = |m: SchedulerMessage| -> (r: NamespaceToOrchestrator)
            ensures
                r == NamespaceToOrchestrator::SchedulerMessage(m),
            {
                NamespaceToOrchestrator::SchedulerMessage(m)
            };
        let up: Vec<NamespaceToOrchestrator> = converted(
            effects.scheduler_messages,
            make,
            Ghost(|m: SchedulerMessage| NamespaceToOrchestrator::SchedulerMessage(m)),
        );
        assert(upward(up@) =~= message_views(all));
        NamespaceOutput {
            to_orchestrator: up,
            worker_commands: effects.worker_commands,
            broadcast_commands: effects.broadcast_commands,
            observability_events: effects.observability_events,
        }
    }

    /// The timers that have gone off by now. They no longer run. The namespace is to hear of each,
    /// and what that leads to may start others: until none has gone off, there is more to do.
    pub fn advance_to(&mut self, now: u64) -> (r: Vec<FiredTimer>)
        ensures
            final(self).namespace == old(self).namespace,
            r@ == expired(old(self).timer_wheel.pending(), now),
            final(self).timer_wheel@ == still_pending(old(self).timer_wheel@, now),
            increasing(old(self).timer_wheel.pending()),
            increasing(final(self).timer_wheel.pending()),
    {
        self.timer_wheel.fire_expired(now)
    }

    /// When the next timer goes off.
    pub fn next_deadline(&self) -> (r: Option<u64>)
        ensures
            earliest(self.timer_wheel@, r),
            increasing(self.timer_wheel.pending()),
    {
        self.timer_wheel.next_deadline()
    }
}

} // verus!
