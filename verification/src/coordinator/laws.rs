//! What holds of every session: the laws of the transition function.

use crate::conversation::{
    answers, as_messages, lemma_settled_batch, lemma_settled_push, results_match, settled,
};
use crate::coordinator::model::{
    completions, finished, initial, inv, resubmitted, run, sound_reply, step_spec, ActionView,
    CoordinatorView, EventView, ModelReplyView,
};
use crate::coordinator::Phase;
use crate::dispatch::{
    call_order, complete, delivered, gathered, in_sequence, lemma_completion_order_irrelevant,
    lemma_resolve, opened, results_of,
};
use crate::error::{ToolErrorKind, ToolErrorView};
use crate::message::{MessageView, OutcomeView, ToolCallView, ToolResultView};
use crate::registry::{distinct_names, has_tool, ToolDescriptorView};
use crate::sampling::SamplingConfig;
use vstd::prelude::*;

verus! {

/// The results of a batch answer the calls they were made for: there is one
/// for each call, and each has the id of the call at its place.
pub proof fn lemma_results_answer_calls(
    content: Seq<char>,
    calls: Seq<ToolCallView>,
    slots: Seq<Option<OutcomeView>>,
)
    ensures
        results_match(
            MessageView::Assistant { content, tool_calls: calls },
            results_of(calls, slots),
        ),
        results_of(calls, slots).len() == calls.len(),
        forall|k: int|
            0 <= k < calls.len() ==> (#[trigger] results_of(calls, slots)[k]).call_id
                == calls[k].id,
{
}

/// A session begins in a state of which the invariant holds.
pub proof fn lemma_initial_inv(
    model: Seq<char>,
    sampling: SamplingConfig,
    system_prompt: Seq<char>,
    tools: Seq<ToolDescriptorView>,
)
    requires
        distinct_names(tools),
        sampling.wf(),
    ensures
        inv(initial(model, sampling, system_prompt, tools)),
{
    let s = initial(model, sampling, system_prompt, tools);
    assert(s.history.take(1) =~= s.history);
    lemma_settled_push(Seq::empty(), MessageView::System(system_prompt));
    assert(Seq::<MessageView>::empty().push(MessageView::System(system_prompt)) =~= s.history);
}

/// Gathering an outcome keeps the invariant.
pub proof fn lemma_finished_keeps_inv(s: CoordinatorView, index: int, outcome: OutcomeView)
    requires
        inv(s),
        s.phase == Phase::DispatchingTools,
    ensures
        inv(finished(s, index, outcome).0),
{
    let after = finished(s, index, outcome).0;
    let slots = delivered(s.slots, index, outcome);
    if complete(slots) {
        let last = s.history.last();
        let results = results_of(last.calls(), slots);
        lemma_results_answer_calls(last->content, last.calls(), slots);
        lemma_settled_batch(s.history.drop_last(), last, results);
        assert(s.history.drop_last().push(last) =~= s.history);
        assert(after.history.take(s.turn_start) =~= s.history.take(s.turn_start));
    }
}

/// Every step keeps the invariant: whatever happens, and in whatever order
/// the tools finish, no tool call of the history is left without its result
/// once the batch is whole, and no result is without its call.
pub proof fn lemma_step_keeps_inv(s: CoordinatorView, e: EventView)
    requires
        inv(s),
    ensures
        inv(step_spec(s, e).0),
{
    let after = step_spec(s, e).0;
    let base = s.history.take(s.turn_start);
    match (s.phase, e) {
        (Phase::AwaitingUserInput, EventView::UserInput(text)) => {
            lemma_settled_push(s.history, MessageView::User(text));
            assert(after.history.take(after.turn_start) =~= s.history);
        },
        (Phase::RequestingModel, EventView::ModelReplied(reply)) => {
            if sound_reply(reply) {
                let message = MessageView::Assistant {
                    content: reply.content,
                    tool_calls: reply.tool_calls,
                };
                let history = s.history.push(message);
                assert(history.take(s.turn_start) =~= base);
                if reply.tool_calls.len() == 0 {
                    lemma_settled_push(s.history, message);
                } else {
                    let slots = opened(s.tools, reply.tool_calls);
                    assert(history.drop_last() =~= s.history);
                    if complete(slots) {
                        let results = results_of(reply.tool_calls, slots);
                        lemma_results_answer_calls(reply.content, reply.tool_calls, slots);
                        lemma_settled_batch(s.history, message, results);
                        assert(after.history.take(s.turn_start) =~= base);
                    }
                }
            } else {
                assert(after.history.take(s.turn_start) =~= base);
            }
        },
        (Phase::RequestingModel, EventView::ModelFailed(reason)) => {
            assert(after.history.take(s.turn_start) =~= base);
        },
        (Phase::RequestingModel, EventView::ModelTimedOut) => {
            assert(after.history.take(s.turn_start) =~= base);
        },
        (Phase::DispatchingTools, EventView::ToolFinished { index, outcome }) => {
            lemma_finished_keeps_inv(s, index, outcome);
        },
        (Phase::DispatchingTools, EventView::ToolTimedOut { index }) => {
            lemma_finished_keeps_inv(s, index, crate::coordinator::model::timed_out());
        },
        _ => {},
    }
}

/// The invariant holds of every state that a session reaches, whatever the
/// events are and however many of them have been taken in.
pub proof fn lemma_run_keeps_inv(s: CoordinatorView, events: Seq<EventView>, n: int)
    requires
        inv(s),
    ensures
        inv(run(s, events, n)),
    decreases n,
{
    if n > 0 {
        lemma_run_keeps_inv(s, events, n - 1);
        lemma_step_keeps_inv(run(s, events, n - 1), events[n - 1]);
    }
}

/// No step changes the tools, the model or the sampling configuration: what
/// a session begins with, it keeps.
pub proof fn lemma_step_keeps_configuration(s: CoordinatorView, e: EventView)
    ensures
        step_spec(s, e).0.tools == s.tools,
        step_spec(s, e).0.model == s.model,
        step_spec(s, e).0.sampling == s.sampling,
{
}

/// The step that makes a batch whole puts one result for each call of the
/// assistant message behind it, each with the id of its call and in the
/// order of the calls, and nothing else; what stood before stays.
pub proof fn lemma_batch_is_answered(s: CoordinatorView, e: EventView)
    requires
        inv(s),
        s.phase == Phase::DispatchingTools,
        step_spec(s, e).0.phase != Phase::DispatchingTools,
    ensures
        ({
            let after = step_spec(s, e).0;
            let calls = s.history.last().calls();
            &&& after.phase == Phase::RequestingModel
            &&& after.history.len() == s.history.len() + calls.len()
            &&& after.history.take(s.history.len() as int) == s.history
            &&& forall|k: int|
                0 <= k < calls.len() ==> #[trigger] answers(after.history, s.history.len() - 1, k)
        }),
{
    let after = step_spec(s, e).0;
    assert(after.history.take(s.history.len() as int) =~= s.history);
}

/// Where no call of a reply needs a tool to run, the reply is answered in
/// the same step: behind the assistant message stands one result for each
/// of its calls, each with the id of its call and in the order of the calls.
pub proof fn lemma_reply_is_answered_at_once(s: CoordinatorView, reply: ModelReplyView)
    requires
        inv(s),
        s.phase == Phase::RequestingModel,
        sound_reply(reply),
        reply.tool_calls.len() > 0,
        complete(opened(s.tools, reply.tool_calls)),
    ensures
        ({
            let after = step_spec(s, EventView::ModelReplied(reply)).0;
            let message = MessageView::Assistant {
                content: reply.content,
                tool_calls: reply.tool_calls,
            };
            &&& after.phase == Phase::RequestingModel
            &&& after.history.len() == s.history.len() + 1 + reply.tool_calls.len()
            &&& after.history.take(s.history.len() as int + 1) == s.history.push(message)
            &&& forall|k: int|
                0 <= k < reply.tool_calls.len() ==> #[trigger] answers(
                    after.history,
                    s.history.len() as int,
                    k,
                )
        }),
{
    let after = step_spec(s, EventView::ModelReplied(reply)).0;
    let message = MessageView::Assistant { content: reply.content, tool_calls: reply.tool_calls };
    assert(after.history.take(s.history.len() as int + 1) =~= s.history.push(message));
}

/// What is shown to the user is the text of the assistant message that
/// ends the turn: a step that asks for text to be shown has just put an
/// assistant message without calls, and with that text, behind the history.
pub proof fn lemma_shown_is_last_message(s: CoordinatorView, e: EventView)
    requires
        inv(s),
        step_spec(s, e).1 is Emit,
    ensures
        step_spec(s, e).0.phase == Phase::Emitting,
        step_spec(s, e).0.history.last() == (MessageView::Assistant {
            content: step_spec(s, e).1->Emit_0,
            tool_calls: Seq::empty(),
        }),
        step_spec(s, e).0.history.drop_last() == s.history,
{
    let after = step_spec(s, e).0;
    assert(after.history.drop_last() =~= s.history);
    assert(after.history.last().calls() =~= Seq::empty());
}

/// A turn begins on a settled history: when the user's input is taken in,
/// no tool call of the history waits for its result.
pub proof fn lemma_turn_begins_settled(s: CoordinatorView, text: Seq<char>)
    requires
        inv(s),
        s.phase == Phase::AwaitingUserInput,
    ensures
        settled(s.history),
        step_spec(s, EventView::UserInput(text)).0.history == s.history.push(
            MessageView::User(text),
        ),
        step_spec(s, EventView::UserInput(text)).0.phase == Phase::RequestingModel,
{
}

/// Calls of tools that are not registered do not stop the loop: each is
/// answered with `UnknownTool` behind the assistant message, the history is
/// settled, and the model is asked again.
pub proof fn lemma_unknown_tools_are_answered(s: CoordinatorView, reply: ModelReplyView)
    requires
        inv(s),
        s.phase == Phase::RequestingModel,
        sound_reply(reply),
        reply.tool_calls.len() > 0,
        forall|k: int|
            0 <= k < reply.tool_calls.len() ==> !has_tool(
                s.tools,
                (#[trigger] reply.tool_calls[k]).name,
            ),
    ensures
        ({
            let (after, action) = step_spec(s, EventView::ModelReplied(reply));
            let message = MessageView::Assistant {
                content: reply.content,
                tool_calls: reply.tool_calls,
            };
            let results = Seq::new(
                reply.tool_calls.len(),
                |k: int|
                    ToolResultView {
                        call_id: reply.tool_calls[k].id,
                        outcome: OutcomeView::Failure(
                            ToolErrorView {
                                kind: ToolErrorKind::UnknownTool,
                                detail: reply.tool_calls[k].name,
                            },
                        ),
                    },
            );
            &&& action == ActionView::RequestModel
            &&& after.phase == Phase::RequestingModel
            &&& after.history == s.history.push(message) + as_messages(results)
            &&& settled(after.history)
        }),
{
    let e = EventView::ModelReplied(reply);
    let slots = opened(s.tools, reply.tool_calls);
    assert forall|k: int| 0 <= k < slots.len() implies (#[trigger] slots[k]) == Some(
        OutcomeView::Failure(
            ToolErrorView { kind: ToolErrorKind::UnknownTool, detail: reply.tool_calls[k].name },
        ),
    ) by {
        lemma_resolve(s.tools, reply.tool_calls[k]);
    }
    let results = Seq::new(
        reply.tool_calls.len(),
        |k: int|
            ToolResultView {
                call_id: reply.tool_calls[k].id,
                outcome: OutcomeView::Failure(
                    ToolErrorView {
                        kind: ToolErrorKind::UnknownTool,
                        detail: reply.tool_calls[k].name,
                    },
                ),
            },
    );
    assert(results_of(reply.tool_calls, slots) =~= results);
    lemma_step_keeps_inv(s, e);
}

/// A failure of the model client leaves no trace of the turn: the user is
/// awaited and the history is what it was when the turn began, which is a
/// settled history. The same holds of a timeout and of a reply that is not
/// sound.
pub proof fn lemma_failure_discards_turn(s: CoordinatorView, e: EventView)
    requires
        inv(s),
        s.phase == Phase::RequestingModel,
        e is ModelFailed || e is ModelTimedOut || (e matches EventView::ModelReplied(reply)
            && !sound_reply(reply)),
    ensures
        step_spec(s, e).0.phase == Phase::AwaitingUserInput,
        step_spec(s, e).0.history == s.history.take(s.turn_start),
        settled(step_spec(s, e).0.history),
        step_spec(s, e).1 is ReportFailure,
{
}

/// While a turn is under way, the history from before the turn is kept as it
/// was: only the user's next input moves the start of the turn, and it moves
/// it to the end of the history as it stands then.
pub proof fn lemma_turn_start_kept(s: CoordinatorView, e: EventView)
    requires
        inv(s),
    ensures
        ({
            let after = step_spec(s, e).0;
            if s.phase == Phase::AwaitingUserInput && e is UserInput {
                after.history.take(after.turn_start) == s.history
            } else {
                after.history.take(after.turn_start) == s.history.take(s.turn_start)
            }
        }),
{
    let after = step_spec(s, e).0;
    let base = s.history.take(s.turn_start);
    if s.phase == Phase::AwaitingUserInput && e is UserInput {
        assert(after.history.take(after.turn_start) =~= s.history);
    } else {
        assert(after.history.take(after.turn_start) =~= base);
    }
}

proof fn lemma_run_gathers(
    s: CoordinatorView,
    order: Seq<int>,
    outcomes: Seq<OutcomeView>,
    n: int,
)
    requires
        s.phase == Phase::DispatchingTools,
        !complete(s.slots),
        0 <= n <= order.len(),
    ensures
        ({
            let slots = gathered(s.slots, order, outcomes, n);
            run(s, completions(order, outcomes), n) == if complete(slots) {
                resubmitted(s, s.history, slots)
            } else {
                CoordinatorView { slots, ..s }
            }
        }),
    decreases n,
{
    let events = completions(order, outcomes);
    if n > 0 {
        lemma_run_gathers(s, order, outcomes, n - 1);
        let before = gathered(s.slots, order, outcomes, n - 1);
        let slots = gathered(s.slots, order, outcomes, n);
        assert(events[n - 1] == EventView::ToolFinished {
            index: order[n - 1],
            outcome: outcomes[order[n - 1]],
        });
        if complete(before) {
            assert(slots =~= before);
        } else {
            let held = CoordinatorView { slots: before, ..s };
            assert(run(s, events, n - 1) == held);
            if complete(slots) {
                assert(resubmitted(held, held.history, slots) =~= resubmitted(
                    s,
                    s.history,
                    slots,
                ));
            } else {
                assert(CoordinatorView { slots, ..held } =~= CoordinatorView { slots, ..s });
            }
        }
    } else {
        assert(CoordinatorView { slots: s.slots, ..s } =~= s);
    }
}

/// Tools that run side by side leave the history that tools run one after
/// the other leave. Whatever the order in which the calls of a batch finish,
/// once each of them has finished the results stand behind the history in
/// the order of the calls, and the model is asked again.
pub proof fn lemma_dispatch_order_irrelevant(
    s: CoordinatorView,
    order: Seq<int>,
    outcomes: Seq<OutcomeView>,
)
    requires
        inv(s),
        s.phase == Phase::DispatchingTools,
        forall|k: int| 0 <= k < s.slots.len() ==> order.contains(k),
    ensures
        run(s, completions(order, outcomes), order.len() as int) == resubmitted(
            s,
            s.history,
            in_sequence(s.slots, outcomes),
        ),
        run(s, completions(order, outcomes), order.len() as int) == run(
            s,
            completions(call_order(s.slots.len()), outcomes),
            s.slots.len() as int,
        ),
{
    let plain = call_order(s.slots.len());
    lemma_completion_order_irrelevant(s.slots, order, outcomes);
    lemma_run_gathers(s, order, outcomes, order.len() as int);
    assert forall|k: int| 0 <= k < s.slots.len() implies plain.contains(k) by {
        assert(plain[k] == k);
    }
    lemma_completion_order_irrelevant(s.slots, plain, outcomes);
    lemma_run_gathers(s, plain, outcomes, plain.len() as int);
}

} // verus!
