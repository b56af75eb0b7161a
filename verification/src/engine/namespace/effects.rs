//! What a namespace gives out.
use vstd::prelude::*;

use crate::adapter::timer::TimerAction;
use crate::engine::protocol::{command_views, sent, CommandView, WorkerCommand};
use crate::engine::types::SchedulerMessage;
use crate::ids::NamespaceId;
use crate::sm::{PodId, WorkerId};

verus! {

/// A message to the scheduler, with its texts as characters.
#[verifier::ext_equal]
pub enum SchedulerMessageView {
    RequestLease {
        namespace_id: NamespaceId,
        pod_id: PodId,
        proto_resume_artifact: Option<Seq<char>>,
    },
    DropRequest { namespace_id: NamespaceId, pod_id: PodId },
    ArtifactReferenced { namespace_id: NamespaceId, proto_artifact_id: Seq<char> },
    ArtifactReleased { namespace_id: NamespaceId, proto_artifact_id: Seq<char> },
}

impl SchedulerMessage {
    pub open spec fn view(&self) -> SchedulerMessageView {
        match *self {
            SchedulerMessage::RequestLease { namespace_id, pod_id, proto_resume_artifact } => {
                SchedulerMessageView::RequestLease {
                    namespace_id,
                    pod_id,
                    proto_resume_artifact: match proto_resume_artifact {
                        Some(a) => Some(a.0@),
                        None => None,
                    },
                }
            },
            SchedulerMessage::DropRequest { namespace_id, pod_id } => {
                SchedulerMessageView::DropRequest { namespace_id, pod_id }
            },
            SchedulerMessage::ArtifactReferenced { namespace_id, proto_artifact_id } => {
                SchedulerMessageView::ArtifactReferenced {
                    namespace_id,
                    proto_artifact_id: proto_artifact_id.0@,
                }
            },
            SchedulerMessage::ArtifactReleased { namespace_id, proto_artifact_id } => {
                SchedulerMessageView::ArtifactReleased {
                    namespace_id,
                    proto_artifact_id: proto_artifact_id.0@,
                }
            },
        }
    }
}

/// Messages to the scheduler, with their texts as characters.
pub open spec fn message_views(messages: Seq<SchedulerMessage>) -> Seq<SchedulerMessageView> {
    messages.map_values(|m: SchedulerMessage| m@)
}

/// What a namespace gives out.
pub struct NamespaceEffects<E> {
    pub timer_actions: Vec<TimerAction>,
    pub scheduler_messages: Vec<SchedulerMessage>,
    pub worker_commands: Vec<(WorkerId, WorkerCommand)>,
    /// Commands for all workers whose part in the namespace is up.
    pub broadcast_commands: Vec<WorkerCommand>,
    /// What observers of the namespace are to hear.
    pub observability_events: Vec<E>,
}

#[verifier::ext_equal]
pub struct NamespaceEffectsView<E> {
    pub timer_actions: Seq<TimerAction>,
    pub scheduler_messages: Seq<SchedulerMessageView>,
    pub worker_commands: Seq<(WorkerId, CommandView)>,
    pub broadcast_commands: Seq<CommandView>,
    pub observability_events: Seq<E>,
}

impl<E> NamespaceEffectsView<E> {
    pub open spec fn nothing() -> NamespaceEffectsView<E> {
        NamespaceEffectsView {
            timer_actions: seq![],
            scheduler_messages: seq![],
            worker_commands: seq![],
            broadcast_commands: seq![],
            observability_events: seq![],
        }
    }

    /// One output after the other.
    pub open spec fn then_also(self, other: NamespaceEffectsView<E>) -> NamespaceEffectsView<E> {
        NamespaceEffectsView {
            timer_actions: self.timer_actions + other.timer_actions,
            scheduler_messages: self.scheduler_messages + other.scheduler_messages,
            worker_commands: self.worker_commands + other.worker_commands,
            broadcast_commands: self.broadcast_commands + other.broadcast_commands,
            observability_events: self.observability_events + other.observability_events,
        }
    }

    pub open spec fn commanded(self, worker_id: WorkerId, command: CommandView) -> NamespaceEffectsView<E> {
        NamespaceEffectsView {
            worker_commands: self.worker_commands.push((worker_id, command)),
            ..self
        }
    }

    pub open spec fn broadcast(self, command: CommandView) -> NamespaceEffectsView<E> {
        NamespaceEffectsView { broadcast_commands: self.broadcast_commands.push(command), ..self }
    }

    pub open spec fn messaged(self, message: SchedulerMessageView) -> NamespaceEffectsView<E> {
        NamespaceEffectsView { scheduler_messages: self.scheduler_messages.push(message), ..self }
    }
}

impl<E> NamespaceEffects<E> {
    pub open spec fn view(&self) -> NamespaceEffectsView<E> {
        NamespaceEffectsView {
            timer_actions: self.timer_actions@,
            scheduler_messages: message_views(self.scheduler_messages@),
            worker_commands: sent(self.worker_commands@),
            broadcast_commands: command_views(self.broadcast_commands@),
            observability_events: self.observability_events@,
        }
    }

    pub fn new() -> (r: Self)
        ensures
            r@ == NamespaceEffectsView::<E>::nothing(),
    {
        let r = NamespaceEffects {
            timer_actions: Vec::new(),
            scheduler_messages: Vec::new(),
            worker_commands: Vec::new(),
            broadcast_commands: Vec::new(),
            observability_events: Vec::new(),
        };
        assert(r@ =~= NamespaceEffectsView::<E>::nothing());
        r
    }

    /// Whether nothing is to be done. What observers are to hear does not count.
    pub fn is_empty(&self) -> (r: bool)
        ensures
            r == (self@ == (NamespaceEffectsView {
                observability_events: self@.observability_events,
                ..NamespaceEffectsView::<E>::nothing()
            })),
    {
        let r: bool = self.timer_actions.len() == 0 && self.scheduler_messages.len() == 0
            && self.worker_commands.len() == 0 && self.broadcast_commands.len() == 0;
        proof {
            if r {
                assert(self@ =~= (NamespaceEffectsView {
                    observability_events: self@.observability_events,
                    ..NamespaceEffectsView::<E>::nothing()
                }));
            } else {
                assert(self@.timer_actions.len() == self.timer_actions@.len());
                assert(self@.scheduler_messages.len() == self.scheduler_messages@.len());
                assert(self@.worker_commands.len() == self.worker_commands@.len());
                assert(self@.broadcast_commands.len() == self.broadcast_commands@.len());
            }
        }
        r
    }

    pub fn command(&mut self, worker_id: WorkerId, command: WorkerCommand)
        ensures
            final(self)@ == old(self)@.commanded(worker_id, command@),
    {
        self.worker_commands.push((worker_id, command));
        assert(self@ =~= old(self)@.commanded(worker_id, command@));
    }

    pub fn broadcast(&mut self, command: WorkerCommand)
        ensures
            final(self)@ == old(self)@.broadcast(command@),
    {
        self.broadcast_commands.push(command);
        assert(self@ =~= old(self)@.broadcast(command@));
    }

    pub fn message(&mut self, message: SchedulerMessage)
        ensures
            final(self)@ == old(self)@.messaged(message@),
    {
        self.scheduler_messages.push(message);
        assert(self@ =~= old(self)@.messaged(message@));
    }

    /// Adds what timers to start and to cancel.
    pub fn time(&mut self, actions: Vec<TimerAction>)
        ensures
            final(self)@ == (NamespaceEffectsView {
                timer_actions: old(self)@.timer_actions + actions@,
                ..old(self)@
            }),
    {
        let mut actions: Vec<TimerAction> = actions;
        self.timer_actions.append(&mut actions);
    }

    /// Adds what observers are to hear.
    pub fn observe(&mut self, events: Vec<E>)
        ensures
            final(self)@ == (NamespaceEffectsView {
                observability_events: old(self)@.observability_events + events@,
                ..old(self)@
            }),
    {
        let mut events: Vec<E> = events;
        self.observability_events.append(&mut events);
    }
}

} // verus!
