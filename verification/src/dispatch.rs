//! One batch of tool calls: what is decided before any tool runs, and how
//! the outcomes are gathered, in whatever order the tools finish.

use crate::error::{ToolError, ToolErrorKind, ToolErrorView};
use crate::message::{
    calls_view, Outcome, OutcomeView, ToolCall, ToolCallView, ToolResult, ToolResultView,
};
use crate::registry::{has_tool, lemma_tool_named, tool_named, Registry, ToolDescriptorView};
use crate::schema::{accepts, lemma_violation_none_iff_accepted, validate, violation};
use vstd::prelude::*;

verus! {

pub open spec fn outcome_option_view(outcome: Option<Outcome>) -> Option<OutcomeView> {
    match outcome {
        Some(o) => Some(o@),
        None => None,
    }
}

pub open spec fn slots_view(slots: Seq<Option<Outcome>>) -> Seq<Option<OutcomeView>> {
    slots.map_values(|o: Option<Outcome>| outcome_option_view(o))
}

pub open spec fn results_view(results: Seq<ToolResult>) -> Seq<ToolResultView> {
    results.map_values(|r: ToolResult| r@)
}

/// What is settled about a call before any tool runs. A call of a name that
/// is not registered has failed with `UnknownTool`; one whose arguments the
/// tool's schema does not accept has failed with `InvalidArguments`; every
/// other call has to be invoked, and nothing is settled yet.
pub open spec fn resolve(tools: Seq<ToolDescriptorView>, call: ToolCallView) -> Option<OutcomeView> {
    match tool_named(tools, call.name) {
        None => Some(
            OutcomeView::Failure(
                ToolErrorView { kind: ToolErrorKind::UnknownTool, detail: call.name },
            ),
        ),
        Some(tool) => match violation(tool.parameter_schema, call.arguments) {
            Some(subject) => Some(
                OutcomeView::Failure(
                    ToolErrorView { kind: ToolErrorKind::InvalidArguments, detail: subject },
                ),
            ),
            None => None,
        },
    }
}

/// A call of a name that no registered tool has is answered with
/// `UnknownTool`, which names the tool that was asked for. A call of a
/// registered tool whose schema does not accept the arguments is answered
/// with `InvalidArguments`. Every other call, and no other, is left to the
/// tool.
pub proof fn lemma_resolve(tools: Seq<ToolDescriptorView>, call: ToolCallView)
    ensures
        !has_tool(tools, call.name) ==> resolve(tools, call) == Some(
            OutcomeView::Failure(
                ToolErrorView { kind: ToolErrorKind::UnknownTool, detail: call.name },
            ),
        ),
        tool_named(tools, call.name) matches Some(tool) ==> (!accepts(
            tool.parameter_schema,
            call.arguments,
        ) ==> resolve(tools, call) == Some(
            OutcomeView::Failure(
                ToolErrorView {
                    kind: ToolErrorKind::InvalidArguments,
                    detail: violation(tool.parameter_schema, call.arguments)->Some_0,
                },
            ),
        )),
        resolve(tools, call) is None <==> has_tool(tools, call.name) && accepts(
            tool_named(tools, call.name)->Some_0.parameter_schema,
            call.arguments,
        ),
{
    lemma_tool_named(tools, call.name);
    if let Some(tool) = tool_named(tools, call.name) {
        lemma_violation_none_iff_accepted(tool.parameter_schema, call.arguments);
    }
}

/// Decides one call against the registry, without running anything.
pub fn resolve_call(registry: &Registry, call: &ToolCall) -> (settled: Option<Outcome>)
    ensures
        outcome_option_view(settled) == resolve(registry@, call@),
{
    match registry.lookup(&call.name) {
        None => Some(Outcome::Failure(ToolError::unknown_tool(call.name.clone()))),
        Some(tool) => match validate(&tool.parameter_schema, &call.arguments) {
            Err(error) => Some(Outcome::Failure(error)),
            Ok(()) => {
                proof {
                    lemma_violation_none_iff_accepted(tool@.parameter_schema, call@.arguments);
                }
                None
            },
        },
    }
}

/// The slots of a batch as it is opened: one for each call, in the order of
/// the calls, filled where the call is settled without running a tool.
pub open spec fn opened(tools: Seq<ToolDescriptorView>, calls: Seq<ToolCallView>) -> Seq<
    Option<OutcomeView>,
> {
    Seq::new(calls.len(), |k: int| resolve(tools, calls[k]))
}

/// The slots after the outcome of call `index` has come in. The first
/// outcome of a call stays; one for a filled slot, or for a call that the
/// batch does not have, is dropped.
pub open spec fn delivered(slots: Seq<Option<OutcomeView>>, index: int, outcome: OutcomeView) -> Seq<
    Option<OutcomeView>,
> {
    if 0 <= index < slots.len() && slots[index] is None {
        slots.update(index, Some(outcome))
    } else {
        slots
    }
}

/// Every slot is filled.
pub open spec fn complete(slots: Seq<Option<OutcomeView>>) -> bool {
    forall|k: int| 0 <= k < slots.len() ==> (#[trigger] slots[k]) is Some
}

/// The results of a batch: for each call, in the order of the calls, its id
/// and what its slot holds.
pub open spec fn results_of(calls: Seq<ToolCallView>, slots: Seq<Option<OutcomeView>>) -> Seq<
    ToolResultView,
> {
    Seq::new(
        calls.len(),
        |k: int| ToolResultView { call_id: calls[k].id, outcome: slots[k]->Some_0 },
    )
}

/// The slots after the first `n` completions of `order` have come in, where
/// `order` lists the calls in the order in which they finished and
/// `outcomes[k]` is what call `k` produced.
pub open spec fn gathered(
    slots: Seq<Option<OutcomeView>>,
    order: Seq<int>,
    outcomes: Seq<OutcomeView>,
    n: int,
) -> Seq<Option<OutcomeView>>
    decreases n,
{
    if n <= 0 {
        slots
    } else {
        delivered(gathered(slots, order, outcomes, n - 1), order[n - 1], outcomes[order[n - 1]])
    }
}

/// Where every call of the batch finishes at some time, the slots end up as
/// if the calls had been made one after the other.
pub open spec fn in_sequence(slots: Seq<Option<OutcomeView>>, outcomes: Seq<OutcomeView>) -> Seq<
    Option<OutcomeView>,
> {
    Seq::new(
        slots.len(),
        |k: int|
            if slots[k] is Some {
                slots[k]
            } else {
                Some(outcomes[k])
            },
    )
}

/// The calls one after the other: `0, 1, .., n - 1`.
pub open spec fn call_order(n: nat) -> Seq<int> {
    Seq::new(n, |k: int| k)
}

proof fn lemma_gathered(
    slots: Seq<Option<OutcomeView>>,
    order: Seq<int>,
    outcomes: Seq<OutcomeView>,
    n: int,
)
    requires
        0 <= n <= order.len(),
    ensures
        gathered(slots, order, outcomes, n).len() == slots.len(),
        forall|k: int|
            0 <= k < slots.len() ==> #[trigger] gathered(slots, order, outcomes, n)[k] == (if slots[k] is Some {
                slots[k]
            } else if exists|m: int| 0 <= m < n && order[m] == k {
                Some(outcomes[k])
            } else {
                None
            }),
    decreases n,
{
    if n > 0 {
        lemma_gathered(slots, order, outcomes, n - 1);
        let before = gathered(slots, order, outcomes, n - 1);
        let after = gathered(slots, order, outcomes, n);
        assert forall|k: int| 0 <= k < slots.len() implies #[trigger] after[k] == (if slots[k] is Some {
            slots[k]
        } else if exists|m: int| 0 <= m < n && order[m] == k {
            Some(outcomes[k])
        } else {
            None
        }) by {
            if slots[k] is None {
                if exists|m: int| 0 <= m < n - 1 && order[m] == k {
                    let m = choose|m: int| 0 <= m < n - 1 && order[m] == k;
                    assert(0 <= m < n && order[m] == k);
                } else if order[n - 1] == k {
                } else {
                    assert forall|m: int| 0 <= m < n implies order[m] != k by {
                        if m < n - 1 {
                        }
                    }
                }
            }
        }
    }
}

/// The order in which the calls of a batch finish does not show in what is
/// gathered: whenever every call finishes at some time, the slots are those
/// of the calls made one after the other.
pub proof fn lemma_completion_order_irrelevant(
    slots: Seq<Option<OutcomeView>>,
    order: Seq<int>,
    outcomes: Seq<OutcomeView>,
)
    requires
        forall|k: int| 0 <= k < slots.len() ==> order.contains(k),
    ensures
        gathered(slots, order, outcomes, order.len() as int) == in_sequence(slots, outcomes),
        gathered(slots, order, outcomes, order.len() as int) == gathered(
            slots,
            call_order(slots.len()),
            outcomes,
            slots.len() as int,
        ),
        complete(in_sequence(slots, outcomes)),
{
    let n = order.len() as int;
    lemma_gathered(slots, order, outcomes, n);
    assert forall|k: int| 0 <= k < slots.len() implies #[trigger] gathered(
        slots,
        order,
        outcomes,
        n,
    )[k] == in_sequence(slots, outcomes)[k] by {
        assert(order.contains(k));
        let m = choose|m: int| 0 <= m < order.len() && order[m] == k;
        assert(0 <= m < n && order[m] == k);
    }
    assert(gathered(slots, order, outcomes, n) =~= in_sequence(slots, outcomes));
    let plain = call_order(slots.len());
    let len = slots.len() as int;
    lemma_gathered(slots, plain, outcomes, len);
    assert forall|k: int| 0 <= k < slots.len() implies #[trigger] gathered(
        slots,
        plain,
        outcomes,
        len,
    )[k] == in_sequence(slots, outcomes)[k] by {
        assert(0 <= k < len && plain[k] == k);
    }
    assert(gathered(slots, plain, outcomes, len) =~= in_sequence(slots, outcomes));
}

/// The outcomes of one batch of calls, one slot for each call.
pub struct Batch {
    slots: Vec<Option<Outcome>>,
}

impl View for Batch {
    type V = Seq<Option<OutcomeView>>;

    closed spec fn view(&self) -> Seq<Option<OutcomeView>> {
        slots_view(self.slots@)
    }
}

impl Batch {
    /// A batch without calls.
    pub fn empty() -> (batch: Batch)
        ensures
            batch@ == Seq::<Option<OutcomeView>>::empty(),
    {
        let batch = Batch { slots: Vec::new() };
        assert(batch@ =~= Seq::<Option<OutcomeView>>::empty());
        batch
    }

    /// Opens the batch for the calls of one assistant message.
    pub fn open(registry: &Registry, calls: &Vec<ToolCall>) -> (batch: Batch)
        ensures
            batch@ == opened(registry@, calls_view(calls@)),
    {
        let mut slots: Vec<Option<Outcome>> = Vec::new();
        let mut i: usize = 0;
        while i < calls.len()
            invariant
                i <= calls.len(),
                slots@.len() == i,
                forall|k: int|
                    0 <= k < i ==> #[trigger] slots_view(slots@)[k] == resolve(
                        registry@,
                        calls_view(calls@)[k],
                    ),
            decreases calls.len() - i,
        {
            let ghost before = slots@;
            let settled = resolve_call(registry, &calls[i]);
            slots.push(settled);
            proof {
                assert forall|k: int| 0 <= k < i + 1 implies #[trigger] slots_view(slots@)[k]
                    == resolve(registry@, calls_view(calls@)[k]) by {
                    if k < i {
                        assert(slots_view(before)[k] == resolve(registry@, calls_view(calls@)[k]));
                    }
                }
            }
            i += 1;
        }
        let batch = Batch { slots };
        assert(batch@ =~= opened(registry@, calls_view(calls@)));
        batch
    }

    pub fn len(&self) -> (n: usize)
        ensures
            n == self@.len(),
    {
        self.slots.len()
    }

    /// Takes in the outcome of call `index`. Says whether it was kept.
    pub fn deliver(&mut self, index: usize, outcome: Outcome) -> (kept: bool)
        ensures
            final(self)@ == delivered(old(self)@, index as int, outcome@),
            kept == (index < old(self)@.len() && old(self)@[index as int] is None),
    {
        if index < self.slots.len() && self.slots[index].is_none() {
            self.slots.set(index, Some(outcome));
            assert(self@ =~= delivered(old(self)@, index as int, outcome@));
            true
        } else {
            false
        }
    }

    /// Whether the outcome of call `index` is still owed.
    pub fn is_pending(&self, index: usize) -> (pending: bool)
        ensures
            pending == (index < self@.len() && self@[index as int] is None),
    {
        index < self.slots.len() && self.slots[index].is_none()
    }

    pub fn is_complete(&self) -> (done: bool)
        ensures
            done == complete(self@),
    {
        let mut i: usize = 0;
        while i < self.slots.len()
            invariant
                i <= self.slots.len(),
                forall|k: int| 0 <= k < i ==> (#[trigger] self@[k]) is Some,
            decreases self.slots.len() - i,
        {
            if self.slots[i].is_none() {
                assert(self@[i as int] is None);
                return false;
            }
            assert(self@[i as int] is Some);
            i += 1;
        }
        true
    }

    /// The calls that have to be invoked still, in the order of the calls.
    pub fn pending(&self) -> (indexes: Vec<usize>)
        ensures
            forall|k: int|
                0 <= k < self@.len() ==> (indexes@.contains(k as usize) <==> (
                #[trigger] self@[k]) is None),
            forall|a: int| 0 <= a < indexes@.len() ==> (#[trigger] indexes@[a]) < self@.len(),
            forall|a: int, b: int|
                0 <= a < b < indexes@.len() ==> (#[trigger] indexes@[a]) < (#[trigger] indexes@[b]),
    {
        let mut indexes: Vec<usize> = Vec::new();
        let mut i: usize = 0;
        while i < self.slots.len()
            invariant
                i <= self.slots.len(),
                forall|k: int|
                    0 <= k < i ==> (indexes@.contains(k as usize) <==> (#[trigger] self@[k]) is None),
                forall|a: int| 0 <= a < indexes@.len() ==> (#[trigger] indexes@[a]) < i,
                forall|a: int, b: int|
                    0 <= a < b < indexes@.len() ==> (#[trigger] indexes@[a]) < (
                    #[trigger] indexes@[b]),
            decreases self.slots.len() - i,
        {
            let ghost before = indexes@;
            if self.slots[i].is_none() {
                indexes.push(i);
                proof {
                    assert(indexes@[before.len() as int] == i);
                    assert forall|k: int| 0 <= k < i + 1 implies (indexes@.contains(k as usize) <==> (
                    #[trigger] self@[k]) is None) by {
                        if k < i {
                            if before.contains(k as usize) {
                                let a = choose|a: int| 0 <= a < before.len() && before[a] == k as usize;
                                assert(indexes@[a] == k as usize);
                            }
                            if indexes@.contains(k as usize) {
                                let a = choose|a: int|
                                    0 <= a < indexes@.len() && indexes@[a] == k as usize;
                                assert(a < before.len());
                                assert(before[a] == k as usize);
                            }
                        }
                    }
                }
            } else {
                proof {
                    assert(self@[i as int] is Some);
                    if indexes@.contains(i) {
                        let a = choose|a: int| 0 <= a < indexes@.len() && indexes@[a] == i;
                        assert(indexes@[a] < i);
                    }
                }
            }
            i += 1;
        }
        indexes
    }

    /// The results of the batch for its calls, in the order of the calls:
    /// `None` while an outcome is owed, and for calls that are not as many as
    /// the slots.
    pub fn results(&self, calls: &Vec<ToolCall>) -> (results: Option<Vec<ToolResult>>)
        ensures
            results is Some <==> complete(self@) && calls@.len() == self@.len(),
            results matches Some(r) ==> results_view(r@) == results_of(calls_view(calls@), self@),
    {
        if calls.len() != self.slots.len() {
            return None;
        }
        let mut results: Vec<ToolResult> = Vec::new();
        let mut i: usize = 0;
        while i < calls.len()
            invariant
                i <= calls.len(),
                calls@.len() == self@.len(),
                self@.len() == self.slots@.len(),
                results@.len() == i,
                forall|k: int| 0 <= k < i ==> (#[trigger] self@[k]) is Some,
                forall|k: int|
                    0 <= k < i ==> #[trigger] results_view(results@)[k] == results_of(
                        calls_view(calls@),
                        self@,
                    )[k],
            decreases calls.len() - i,
        {
            let ghost before = results@;
            match &self.slots[i] {
                Some(outcome) => {
                    results.push(ToolResult { call_id: calls[i].id.clone(), outcome: outcome.clone() });
                },
                None => {
                    assert(self@[i as int] is None);
                    return None;
                },
            }
            proof {
                assert(self@[i as int] is Some);
                assert forall|k: int| 0 <= k < i + 1 implies #[trigger] results_view(results@)[k]
                    == results_of(calls_view(calls@), self@)[k] by {
                    if k < i {
                        assert(results_view(before)[k] == results_of(calls_view(calls@), self@)[k]);
                    }
                }
            }
            i += 1;
        }
        assert(results_view(results@) =~= results_of(calls_view(calls@), self@));
        Some(results)
    }
}

} // verus!
