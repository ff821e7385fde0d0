//! The coordinator: the state machine that drives one session.
//!
//! The coordinator decides; it performs nothing. Each call of
//! [`Coordinator::step`] takes what has happened (an [`Event`]) and says what
//! is to be done next (an [`Action`]). The program around it does that and
//! comes back with the next event.
//!
//! [`model`] holds the transition function and the invariant that the
//! contracts speak of, [`laws`] what is proved of them.

pub mod laws;
pub mod model;

use crate::conversation::Conversation;
use crate::coordinator::laws::{lemma_initial_inv, lemma_step_keeps_inv};
use crate::coordinator::model::{
    abandoned, finished, initial, inv, replied, sound_reply, step_spec, ActionView,
    CoordinatorView, EventView, ModelReplyView,
};
use crate::dispatch::Batch;
use crate::error::{ModelClientFailure, ToolError};
use crate::message::{calls_view, history_view, Message, MessageView, Outcome, ToolCall};
use crate::registry::{descriptors_view, Registry, ToolDescriptor};
use crate::sampling::SamplingConfig;
use vstd::prelude::*;
use vstd::string::*;

verus! {

/// Where the coordinator stands in a turn.
#[derive(Debug, Clone, Copy, PartialEq, Eq, Structural)]
pub enum Phase {
    /// Nothing is under way; the next thing to come is a line of the user.
    AwaitingUserInput,
    /// The history has gone to the model, and its reply is awaited.
    RequestingModel,
    /// The calls of the last assistant message are being run.
    DispatchingTools,
    /// The final answer of the turn is being shown.
    Emitting,
}

/// What the model sent back: text, tool calls, or both.
#[derive(Debug, PartialEq, Eq)]
pub struct ModelReply {
    pub content: String,
    pub tool_calls: Vec<ToolCall>,
}

impl View for ModelReply {
    type V = ModelReplyView;

    open spec fn view(&self) -> ModelReplyView {
        ModelReplyView { content: self.content@, tool_calls: calls_view(self.tool_calls@) }
    }
}

impl ModelReply {
    pub fn is_sound(&self) -> (sound: bool)
        ensures
            sound == sound_reply(self@),
    {
        if self.content.as_str().is_empty() && self.tool_calls.len() == 0 {
            return false;
        }
        let ghost calls = calls_view(self.tool_calls@);
        let mut j: usize = 0;
        while j < self.tool_calls.len()
            invariant
                j <= self.tool_calls.len(),
                calls == calls_view(self.tool_calls@),
                self@.content.len() > 0 || self@.tool_calls.len() > 0,
                self@.tool_calls == calls,
                forall|a: int, b: int|
                    0 <= a < b < j ==> (#[trigger] calls[a]).id != (#[trigger] calls[b]).id,
            decreases self.tool_calls.len() - j,
        {
            let mut i: usize = 0;
            while i < j
                invariant
                    i <= j < self.tool_calls.len(),
                    calls == calls_view(self.tool_calls@),
                    self@.content.len() > 0 || self@.tool_calls.len() > 0,
                    self@.tool_calls == calls,
                    forall|a: int| 0 <= a < i ==> (#[trigger] calls[a]).id != calls[j as int].id,
                decreases j - i,
            {
                if self.tool_calls[i].id == self.tool_calls[j].id {
                    assert(calls[i as int].id == calls[j as int].id);
                    return false;
                }
                i += 1;
            }
            j += 1;
        }
        true
    }
}

/// What has happened since the last action.
#[derive(Debug, PartialEq, Eq)]
pub enum Event {
    /// The user has said something.
    UserInput(String),
    /// The model has answered.
    ModelReplied(ModelReply),
    /// The call to the model has failed, for the given reason.
    ModelFailed(String),
    /// The model has not answered in time.
    ModelTimedOut,
    /// Call number `index` of the batch under way has ended.
    ToolFinished { index: usize, outcome: Outcome },
    /// Call number `index` of the batch under way has not ended in time.
    ToolTimedOut { index: usize },
    /// The answer has been shown.
    Emitted,
}

impl View for Event {
    type V = EventView;

    open spec fn view(&self) -> EventView {
        match self {
            Event::UserInput(text) => EventView::UserInput(text@),
            Event::ModelReplied(reply) => EventView::ModelReplied(reply@),
            Event::ModelFailed(reason) => EventView::ModelFailed(reason@),
            Event::ModelTimedOut => EventView::ModelTimedOut,
            Event::ToolFinished { index, outcome } => EventView::ToolFinished {
                index: *index as int,
                outcome: outcome@,
            },
            Event::ToolTimedOut { index } => EventView::ToolTimedOut { index: *index as int },
            Event::Emitted => EventView::Emitted,
        }
    }
}

/// What is to be done next.
#[derive(Debug, PartialEq, Eq)]
pub enum Action {
    /// Read a line of the user.
    AwaitInput,
    /// Send the history, the descriptors and the sampling configuration to
    /// the model.
    RequestModel,
    /// Run the pending calls of the batch that has just been opened.
    InvokeTools,
    /// Calls of the batch are still running; wait for them.
    AwaitTools,
    /// Show the text to the user.
    Emit(String),
    /// Tell the operator that the turn has failed.
    ReportFailure(ModelClientFailure),
    /// The event has no place in the present phase and was dropped.
    Ignored,
}

impl View for Action {
    type V = ActionView;

    open spec fn view(&self) -> ActionView {
        match self {
            Action::AwaitInput => ActionView::AwaitInput,
            Action::RequestModel => ActionView::RequestModel,
            Action::InvokeTools => ActionView::InvokeTools,
            Action::AwaitTools => ActionView::AwaitTools,
            Action::Emit(text) => ActionView::Emit(text@),
            Action::ReportFailure(failure) => ActionView::ReportFailure(failure@),
            Action::Ignored => ActionView::Ignored,
        }
    }
}

/// What is sent to the model with every request.
pub struct ModelRequest<'a> {
    pub model: &'a String,
    pub messages: &'a Vec<Message>,
    pub tools: &'a Vec<ToolDescriptor>,
    pub sampling: SamplingConfig,
}

/// The coordinator of one session. It owns the history, and nothing else
/// writes to it.
pub struct Coordinator {
    phase: Phase,
    conversation: Conversation,
    turn_start: usize,
    batch: Batch,
    registry: Registry,
    model: String,
    sampling: SamplingConfig,
}

impl View for Coordinator {
    type V = CoordinatorView;

    closed spec fn view(&self) -> CoordinatorView {
        CoordinatorView {
            phase: self.phase,
            history: self.conversation@,
            turn_start: self.turn_start as int,
            slots: self.batch@,
            tools: self.registry@,
            model: self.model@,
            sampling: self.sampling,
        }
    }
}

impl Coordinator {
    /// The invariant of the session holds.
    pub open spec fn wf(&self) -> bool {
        inv(self@)
    }

    /// Begins a session with the given model, sampling configuration, system
    /// prompt and tools.
    pub fn new(
        model: String,
        sampling: SamplingConfig,
        system_prompt: String,
        registry: Registry,
    ) -> (coordinator: Coordinator)
        requires
            registry.wf(),
            sampling.wf(),
        ensures
            coordinator.wf(),
            coordinator@ == initial(model@, sampling, system_prompt@, registry@),
    {
        proof {
            lemma_initial_inv(model@, sampling, system_prompt@, registry@);
        }
        let mut conversation = Conversation::new();
        conversation.append(Message::System(system_prompt));
        let coordinator = Coordinator {
            phase: Phase::AwaitingUserInput,
            conversation,
            turn_start: 1,
            batch: Batch::empty(),
            registry,
            model,
            sampling,
        };
        assert(coordinator@ =~= initial(model@, sampling, system_prompt@, registry@));
        coordinator
    }

    fn abandon(&mut self)
        requires
            old(self).wf(),
        ensures
            final(self)@ == abandoned(old(self)@),
    {
        self.conversation.truncate(self.turn_start);
        self.batch = Batch::empty();
        self.phase = Phase::AwaitingUserInput;
        assert(self@ =~= abandoned(old(self)@));
    }

    fn accept(&mut self, reply: ModelReply) -> (action: Action)
        requires
            old(self).wf(),
            old(self)@.phase == Phase::RequestingModel,
            sound_reply(reply@),
        ensures
            final(self)@ == replied(old(self)@, reply@).0,
            action@ == replied(old(self)@, reply@).1,
    {
        let ghost message = MessageView::Assistant {
            content: reply@.content,
            tool_calls: reply@.tool_calls,
        };
        if reply.tool_calls.len() == 0 {
            let shown = reply.content.clone();
            self.conversation.append(
                Message::Assistant { content: reply.content, tool_calls: reply.tool_calls },
            );
            self.phase = Phase::Emitting;
            assert(self@ =~= replied(old(self)@, reply@).0);
            Action::Emit(shown)
        } else {
            let batch = Batch::open(&self.registry, &reply.tool_calls);
            if let Some(results) = batch.results(&reply.tool_calls) {
                self.conversation.append(
                    Message::Assistant { content: reply.content, tool_calls: reply.tool_calls },
                );
                assert(self@.history.last() == message);
                self.conversation.append_results(&results);
                assert(self@ =~= replied(old(self)@, reply@).0);
                Action::RequestModel
            } else {
                self.conversation.append(
                    Message::Assistant { content: reply.content, tool_calls: reply.tool_calls },
                );
                self.batch = batch;
                self.phase = Phase::DispatchingTools;
                assert(self@ =~= replied(old(self)@, reply@).0);
                Action::InvokeTools
            }
        }
    }

    fn gather(&mut self, index: usize, outcome: Outcome) -> (action: Action)
        requires
            old(self).wf(),
            old(self)@.phase == Phase::DispatchingTools,
        ensures
            final(self)@ == finished(old(self)@, index as int, outcome@).0,
            action@ == finished(old(self)@, index as int, outcome@).1,
    {
        let ghost after = finished(old(self)@, index as int, outcome@).0;
        self.batch.deliver(index, outcome);
        if self.batch.is_complete() {
            let results = match self.conversation.get(self.conversation.len() - 1) {
                Some(Message::Assistant { tool_calls, .. }) => self.batch.results(tool_calls),
                _ => None,
            };
            let results = match results {
                Some(results) => results,
                None => vstd::pervasive::unreached(),
            };
            self.conversation.append_results(&results);
            self.batch = Batch::empty();
            self.phase = Phase::RequestingModel;
            assert(self@ =~= after);
            Action::RequestModel
        } else {
            assert(self@ =~= after);
            Action::AwaitTools
        }
    }

    /// Takes an event and says what is to be done next, as the transition
    /// function has it.
    pub fn step(&mut self, event: Event) -> (action: Action)
        requires
            old(self).wf(),
        ensures
            final(self).wf(),
            final(self)@ == step_spec(old(self)@, event@).0,
            action@ == step_spec(old(self)@, event@).1,
    {
        proof {
            lemma_step_keeps_inv(self@, event@);
        }
        match event {
            Event::UserInput(text) => match self.phase {
                Phase::AwaitingUserInput => {
                    self.turn_start = self.conversation.len();
                    self.conversation.append(Message::User(text));
                    self.phase = Phase::RequestingModel;
                    assert(self@ =~= step_spec(old(self)@, event@).0);
                    Action::RequestModel
                },
                _ => Action::Ignored,
            },
            Event::ModelReplied(reply) => match self.phase {
                Phase::RequestingModel => {
                    if reply.is_sound() {
                        self.accept(reply)
                    } else {
                        self.abandon();
                        Action::ReportFailure(
                            ModelClientFailure { reason: String::from_str("malformed response") },
                        )
                    }
                },
                _ => Action::Ignored,
            },
            Event::ModelFailed(reason) => match self.phase {
                Phase::RequestingModel => {
                    self.abandon();
                    Action::ReportFailure(ModelClientFailure { reason })
                },
                _ => Action::Ignored,
            },
            Event::ModelTimedOut => match self.phase {
                Phase::RequestingModel => {
                    self.abandon();
                    Action::ReportFailure(ModelClientFailure { reason: String::from_str("timeout") })
                },
                _ => Action::Ignored,
            },
            Event::ToolFinished { index, outcome } => match self.phase {
                Phase::DispatchingTools => self.gather(index, outcome),
                _ => Action::Ignored,
            },
            Event::ToolTimedOut { index } => match self.phase {
                Phase::DispatchingTools => {
                    let failure = ToolError::execution_failure(String::from_str("timeout"));
                    self.gather(index, Outcome::Failure(failure))
                },
                _ => Action::Ignored,
            },
            Event::Emitted => match self.phase {
                Phase::Emitting => {
                    self.phase = Phase::AwaitingUserInput;
                    assert(self@ =~= step_spec(old(self)@, event@).0);
                    Action::AwaitInput
                },
                _ => Action::Ignored,
            },
        }
    }

    pub fn phase(&self) -> (phase: Phase)
        ensures
            phase == self@.phase,
    {
        self.phase
    }

    /// The history of the session.
    pub fn conversation(&self) -> (conversation: &Conversation)
        ensures
            conversation@ == self@.history,
    {
        &self.conversation
    }

    /// The tools of the session.
    pub fn registry(&self) -> (registry: &Registry)
        ensures
            registry@ == self@.tools,
    {
        &self.registry
    }

    /// What goes to the model: the whole history, the descriptors of all
    /// tools in registration order, and the sampling configuration.
    pub fn request(&self) -> (request: ModelRequest<'_>)
        ensures
            self.wf() ==> request.sampling.wf(),
            request.model@ == self@.model,
            history_view(request.messages@) == self@.history,
            descriptors_view(request.tools@) == self@.tools,
            request.sampling == self@.sampling,
    {
        ModelRequest {
            model: &self.model,
            messages: self.conversation.messages(),
            tools: self.registry.descriptors(),
            sampling: self.sampling,
        }
    }

    /// The calls that the program has to run still, by their place in the
    /// batch and in the order of the calls; none outside `DispatchingTools`.
    pub fn pending(&self) -> (indexes: Vec<usize>)
        ensures
            forall|k: int|
                0 <= k < self@.slots.len() ==> (indexes@.contains(k as usize) <==> (
                #[trigger] self@.slots[k]) is None),
            forall|a: int| 0 <= a < indexes@.len() ==> (#[trigger] indexes@[a]) < self@.slots.len(),
            forall|a: int, b: int|
                0 <= a < b < indexes@.len() ==> (#[trigger] indexes@[a]) < (#[trigger] indexes@[b]),
    {
        self.batch.pending()
    }

    /// Call number `index` of the batch under way.
    pub fn call(&self, index: usize) -> (call: Option<&ToolCall>)
        requires
            self.wf(),
        ensures
            call is Some <==> index < self@.slots.len(),
            call matches Some(c) ==> c@ == self@.history.last().calls()[index as int],
    {
        if index < self.batch.len() {
            match self.conversation.get(self.conversation.len() - 1) {
                Some(Message::Assistant { tool_calls, .. }) => {
                    assert(calls_view(tool_calls@)[index as int] == tool_calls@[index as int]@);
                    Some(&tool_calls[index])
                },
                _ => None,
            }
        } else {
            None
        }
    }
}

} // verus!
