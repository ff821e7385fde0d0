//! The coordinator as the contracts see it: its state, the transition
//! function, and the invariant of a session.

use crate::conversation::{as_messages, settled};
use crate::coordinator::Phase;
use crate::dispatch::{complete, delivered, opened, results_of};
use crate::error::{ToolErrorKind, ToolErrorView};
use crate::message::{MessageView, OutcomeView, ToolCallView};
use crate::registry::{distinct_names, ToolDescriptorView};
use crate::sampling::SamplingConfig;
use vstd::prelude::*;

verus! {

pub struct ModelReplyView {
    pub content: Seq<char>,
    pub tool_calls: Seq<ToolCallView>,
}

/// No two calls have the same id.
pub open spec fn distinct_ids(calls: Seq<ToolCallView>) -> bool {
    forall|i: int, j: int|
        0 <= i < j < calls.len() ==> (#[trigger] calls[i]).id != (#[trigger] calls[j]).id
}

/// A reply is sound when it says something (text, or at least one call) and
/// the ids of its calls are distinct.
pub open spec fn sound_reply(reply: ModelReplyView) -> bool {
    (reply.content.len() > 0 || reply.tool_calls.len() > 0) && distinct_ids(reply.tool_calls)
}

pub enum EventView {
    UserInput(Seq<char>),
    ModelReplied(ModelReplyView),
    ModelFailed(Seq<char>),
    ModelTimedOut,
    ToolFinished { index: int, outcome: OutcomeView },
    ToolTimedOut { index: int },
    Emitted,
}

pub enum ActionView {
    AwaitInput,
    RequestModel,
    InvokeTools,
    AwaitTools,
    Emit(Seq<char>),
    ReportFailure(Seq<char>),
    Ignored,
}

/// The state of a session as the contracts see it.
#[verifier::ext_equal]
pub struct CoordinatorView {
    pub phase: Phase,
    pub history: Seq<MessageView>,
    /// The length that the history had when the turn under way began.
    pub turn_start: int,
    /// The slots of the batch under way; empty outside `DispatchingTools`.
    pub slots: Seq<Option<OutcomeView>>,
    pub tools: Seq<ToolDescriptorView>,
    pub model: Seq<char>,
    pub sampling: SamplingConfig,
}

/// The state in which a session begins: the system prompt is all of the
/// history, and the user is awaited.
pub open spec fn initial(
    model: Seq<char>,
    sampling: SamplingConfig,
    system_prompt: Seq<char>,
    tools: Seq<ToolDescriptorView>,
) -> CoordinatorView {
    CoordinatorView {
        phase: Phase::AwaitingUserInput,
        history: seq![MessageView::System(system_prompt)],
        turn_start: 1,
        slots: Seq::empty(),
        tools,
        model,
        sampling,
    }
}

/// The reason that is reported for a reply that is not sound.
pub open spec fn malformed_reply() -> Seq<char> {
    "malformed response"@
}

/// The reason that is given for what did not end in time.
pub open spec fn timeout_reason() -> Seq<char> {
    "timeout"@
}

/// How a call ends that did not end in time: as a failure of the tool.
pub open spec fn timed_out() -> OutcomeView {
    OutcomeView::Failure(
        ToolErrorView { kind: ToolErrorKind::ToolExecutionFailure, detail: timeout_reason() },
    )
}

/// The turn under way is given up: the history is what it was before the
/// turn began, and the user is awaited.
pub open spec fn abandoned(s: CoordinatorView) -> CoordinatorView {
    CoordinatorView {
        phase: Phase::AwaitingUserInput,
        history: s.history.take(s.turn_start),
        slots: Seq::empty(),
        ..s
    }
}

/// The batch is whole: its results go behind the history, and the model is
/// asked again.
pub open spec fn resubmitted(
    s: CoordinatorView,
    history: Seq<MessageView>,
    slots: Seq<Option<OutcomeView>>,
) -> CoordinatorView {
    CoordinatorView {
        phase: Phase::RequestingModel,
        history: history + as_messages(results_of(history.last().calls(), slots)),
        slots: Seq::empty(),
        ..s
    }
}

/// The step that a sound reply of the model leads to.
pub open spec fn replied(s: CoordinatorView, reply: ModelReplyView) -> (CoordinatorView, ActionView) {
    let message = MessageView::Assistant { content: reply.content, tool_calls: reply.tool_calls };
    let history = s.history.push(message);
    if reply.tool_calls.len() == 0 {
        (CoordinatorView { phase: Phase::Emitting, history, ..s }, ActionView::Emit(reply.content))
    } else {
        let slots = opened(s.tools, reply.tool_calls);
        if complete(slots) {
            (resubmitted(s, history, slots), ActionView::RequestModel)
        } else {
            (
                CoordinatorView { phase: Phase::DispatchingTools, history, slots, ..s },
                ActionView::InvokeTools,
            )
        }
    }
}

/// The step that the end of call `index` leads to while tools run: the
/// outcome is gathered and, where it makes the batch whole, all results go
/// behind the history.
pub open spec fn finished(s: CoordinatorView, index: int, outcome: OutcomeView) -> (
    CoordinatorView,
    ActionView,
) {
    let slots = delivered(s.slots, index, outcome);
    if complete(slots) {
        (resubmitted(s, s.history, slots), ActionView::RequestModel)
    } else {
        (CoordinatorView { slots, ..s }, ActionView::AwaitTools)
    }
}

/// The transition function: the state and the action that an event leads to.
///
/// - While the user is awaited, their input goes behind the history, a turn
///   begins, and the model is asked.
/// - While the model is asked: a failure, a timeout, or a reply that is not
///   sound, gives the turn up and is reported; a reply without calls goes behind
///   the history and is shown; a reply with calls goes behind the history
///   and opens a batch, which is answered at once where no call needs a
///   tool to run.
/// - While tools run, each outcome is gathered, and a call that did not end
///   in time has failed; the outcome that makes the batch whole puts all
///   results behind the history, in the order of the calls, and the model is
///   asked again.
/// - Once the answer is shown, the user is awaited.
/// - Any other event is dropped and changes nothing.
pub open spec fn step_spec(s: CoordinatorView, e: EventView) -> (CoordinatorView, ActionView) {
    match (s.phase, e) {
        (Phase::AwaitingUserInput, EventView::UserInput(text)) => (
            CoordinatorView {
                phase: Phase::RequestingModel,
                history: s.history.push(MessageView::User(text)),
                turn_start: s.history.len() as int,
                ..s
            },
            ActionView::RequestModel,
        ),
        (Phase::RequestingModel, EventView::ModelReplied(reply)) => if sound_reply(reply) {
            replied(s, reply)
        } else {
            (abandoned(s), ActionView::ReportFailure(malformed_reply()))
        },
        (Phase::RequestingModel, EventView::ModelFailed(reason)) => (
            abandoned(s),
            ActionView::ReportFailure(reason),
        ),
        (Phase::RequestingModel, EventView::ModelTimedOut) => (
            abandoned(s),
            ActionView::ReportFailure(timeout_reason()),
        ),
        (Phase::DispatchingTools, EventView::ToolFinished { index, outcome }) => finished(
            s,
            index,
            outcome,
        ),
        (Phase::DispatchingTools, EventView::ToolTimedOut { index }) => finished(
            s,
            index,
            timed_out(),
        ),
        (Phase::Emitting, EventView::Emitted) => (
            CoordinatorView { phase: Phase::AwaitingUserInput, ..s },
            ActionView::AwaitInput,
        ),
        _ => (s, ActionView::Ignored),
    }
}

/// What holds of every state that a session can reach.
///
/// The tools have distinct names and the sampling configuration is in
/// range. The history before the turn under way is settled. While tools run, the history ends with the assistant message
/// whose calls they are, all before it is settled, and the batch has one
/// slot for each of those calls, not all of them filled. In every other
/// phase the whole history is settled and no batch is under way.
pub open spec fn inv(s: CoordinatorView) -> bool {
    &&& distinct_names(s.tools)
    &&& s.sampling.wf()
    &&& 0 <= s.turn_start <= s.history.len()
    &&& settled(s.history.take(s.turn_start))
    &&& if s.phase == Phase::DispatchingTools {
        &&& s.turn_start < s.history.len()
        &&& s.history.last() is Assistant
        &&& settled(s.history.drop_last())
        &&& s.slots.len() == s.history.last().calls().len()
        &&& !complete(s.slots)
    } else {
        &&& settled(s.history)
        &&& s.slots.len() == 0
    }
}

/// The state after the first `n` of the events have been taken in.
pub open spec fn run(s: CoordinatorView, events: Seq<EventView>, n: int) -> CoordinatorView
    decreases n,
{
    if n <= 0 {
        s
    } else {
        step_spec(run(s, events, n - 1), events[n - 1]).0
    }
}

/// The events by which the calls of a batch report when they finish in the
/// given order, where `outcomes[k]` is what call `k` produced.
pub open spec fn completions(order: Seq<int>, outcomes: Seq<OutcomeView>) -> Seq<EventView> {
    Seq::new(
        order.len(),
        |m: int| EventView::ToolFinished { index: order[m], outcome: outcomes[order[m]] },
    )
}

} // verus!
