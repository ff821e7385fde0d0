//! The ordered history of one session, and what it means for it to be whole.

use crate::dispatch::results_view;
use crate::message::{history_view, Message, MessageView, ToolResult, ToolResultView};
use vstd::prelude::*;

verus! {

/// Message `i + 1 + k` is the result of call `k` of message `i`.
pub open spec fn answers(h: Seq<MessageView>, i: int, k: int) -> bool {
    h[i + 1 + k] matches MessageView::Tool(result) && result.call_id == h[i].calls()[k].id
}

/// The calls of message `i` are answered: right behind it stand the results
/// of its calls, one for each call and in the order of the calls.
pub open spec fn answered(h: Seq<MessageView>, i: int) -> bool {
    &&& i + h[i].calls().len() < h.len()
    &&& forall|k: int| 0 <= k < h[i].calls().len() ==> #[trigger] answers(h, i, k)
}

/// The result at `j` belongs to the batch of the assistant message at `i`.
pub open spec fn owns(h: Seq<MessageView>, i: int, j: int) -> bool {
    &&& 0 <= i < j
    &&& h[i] is Assistant
    &&& j - i <= h[i].calls().len()
    &&& answers(h, i, j - i - 1)
}

/// The tool result at `j` has an owner: an assistant message before it whose
/// batch of results reaches `j`.
pub open spec fn owned(h: Seq<MessageView>, j: int) -> bool {
    exists|i: int| #[trigger] owns(h, i, j)
}

/// A history is settled when no tool call waits for its result and no result
/// is an orphan: every assistant message is followed at once by the results
/// of all its calls, in order, and every tool message is one of those.
pub open spec fn settled(h: Seq<MessageView>) -> bool {
    &&& forall|i: int| 0 <= i < h.len() ==> #[trigger] answered(h, i)
    &&& forall|j: int| 0 <= j < h.len() && h[j] is Tool ==> #[trigger] owned(h, j)
}

/// The assistant message at `i` is the one that most closely precedes `j`:
/// between the two stand tool messages only.
pub open spec fn precedes(h: Seq<MessageView>, i: int, j: int) -> bool {
    &&& 0 <= i < j
    &&& h[i] is Assistant
    &&& forall|m: int| i < m < j ==> (#[trigger] h[m]) is Tool
}

/// In a settled history no tool call is without its result: behind an
/// assistant message, and before anything else, stands the result of each of
/// its calls.
pub proof fn lemma_call_has_result(h: Seq<MessageView>, i: int, k: int)
    requires
        settled(h),
        0 <= i < h.len(),
        0 <= k < h[i].calls().len(),
    ensures
        i + 1 + k < h.len(),
        h[i + 1 + k] matches MessageView::Tool(result) && result.call_id == h[i].calls()[k].id,
{
    assert(answered(h, i));
    assert(answers(h, i, k));
}

/// In a settled history no tool result is an orphan: it has the id of a call
/// of the assistant message that most closely precedes it.
pub proof fn lemma_result_has_call(h: Seq<MessageView>, j: int)
    requires
        settled(h),
        0 <= j < h.len(),
        h[j] is Tool,
    ensures
        exists|i: int| #[trigger]
            precedes(h, i, j) && j - i <= h[i].calls().len() && h[i].calls()[j - i - 1].id
                == h[j]->Tool_0.call_id,
{
    assert(owned(h, j));
    let i = choose|i: int| #[trigger] owns(h, i, j);
    assert(answered(h, i));
    assert forall|m: int| i < m < j implies (#[trigger] h[m]) is Tool by {
        assert(answers(h, i, m - i - 1));
    }
    assert(precedes(h, i, j));
}

/// The tool messages that carry the given results.
pub open spec fn as_messages(results: Seq<ToolResultView>) -> Seq<MessageView> {
    results.map_values(|r: ToolResultView| MessageView::Tool(r))
}

/// The results answer the calls of `m`: one result for each call, with the
/// id of that call, in the same order.
pub open spec fn results_match(m: MessageView, results: Seq<ToolResultView>) -> bool {
    &&& results.len() == m.calls().len()
    &&& forall|k: int| 0 <= k < results.len() ==> (#[trigger] results[k]).call_id == m.calls()[k].id
}

/// A settled history stays settled when a message without tool calls that is
/// no tool result is put behind it.
pub proof fn lemma_settled_push(h: Seq<MessageView>, m: MessageView)
    requires
        settled(h),
        !(m is Tool),
        m.calls().len() == 0,
    ensures
        settled(h.push(m)),
{
    let g = h.push(m);
    assert forall|i: int| 0 <= i < g.len() implies #[trigger] answered(g, i) by {
        if i < h.len() {
            assert(answered(h, i));
            assert forall|k: int| 0 <= k < g[i].calls().len() implies #[trigger] answers(
                g,
                i,
                k,
            ) by {
                assert(answers(h, i, k));
            }
        }
    }
    assert forall|j: int| 0 <= j < g.len() && g[j] is Tool implies #[trigger] owned(g, j) by {
        assert(owned(h, j));
        let i = choose|i: int| #[trigger] owns(h, i, j);
        assert(owns(g, i, j));
    }
}

/// A settled history stays settled when an assistant message and the
/// results that answer its calls are put behind it.
pub proof fn lemma_settled_batch(
    h: Seq<MessageView>,
    m: MessageView,
    results: Seq<ToolResultView>,
)
    requires
        settled(h),
        m is Assistant,
        results_match(m, results),
    ensures
        settled(h.push(m) + as_messages(results)),
{
    let g = h.push(m) + as_messages(results);
    let n = h.len() as int;
    assert forall|i: int| 0 <= i < g.len() implies #[trigger] answered(g, i) by {
        if i < n {
            assert(answered(h, i));
            assert forall|k: int| 0 <= k < g[i].calls().len() implies #[trigger] answers(
                g,
                i,
                k,
            ) by {
                assert(answers(h, i, k));
            }
        } else if i == n {
            assert forall|k: int| 0 <= k < g[i].calls().len() implies #[trigger] answers(
                g,
                i,
                k,
            ) by {
                assert(g[n + 1 + k] == MessageView::Tool(results[k]));
            }
        } else {
            assert(g[i] == MessageView::Tool(results[i - n - 1]));
        }
    }
    assert forall|j: int| 0 <= j < g.len() && g[j] is Tool implies #[trigger] owned(g, j) by {
        if j < n {
            assert(owned(h, j));
            let i = choose|i: int| #[trigger] owns(h, i, j);
            assert(owns(g, i, j));
        } else {
            assert(g[j] == MessageView::Tool(results[j - n - 1]));
            assert(owns(g, n, j));
        }
    }
}

/// The history of one session, in the order in which it was said.
pub struct Conversation {
    messages: Vec<Message>,
}

impl View for Conversation {
    type V = Seq<MessageView>;

    closed spec fn view(&self) -> Seq<MessageView> {
        history_view(self.messages@)
    }
}

impl Conversation {
    pub fn new() -> (c: Conversation)
        ensures
            c@ == Seq::<MessageView>::empty(),
    {
        let c = Conversation { messages: Vec::new() };
        assert(c@ =~= Seq::<MessageView>::empty());
        c
    }

    /// Puts a message behind all that are there.
    pub fn append(&mut self, message: Message)
        ensures
            final(self)@ == old(self)@.push(message@),
    {
        self.messages.push(message);
        assert(self@ =~= old(self)@.push(message@));
    }

    pub fn len(&self) -> (n: usize)
        ensures
            n == self@.len(),
    {
        self.messages.len()
    }

    pub fn get(&self, i: usize) -> (m: Option<&Message>)
        ensures
            m is Some <==> i < self@.len(),
            m matches Some(message) ==> message@ == self@[i as int],
    {
        if i < self.messages.len() {
            Some(&self.messages[i])
        } else {
            None
        }
    }

    /// The whole history, oldest message first.
    pub fn messages(&self) -> (all: &Vec<Message>)
        ensures
            history_view(all@) == self@,
    {
        &self.messages
    }

    /// Puts the results of one batch behind all that is there, as tool
    /// messages and in their order.
    pub fn append_results(&mut self, results: &Vec<ToolResult>)
        ensures
            final(self)@ == old(self)@ + as_messages(results_view(results@)),
    {
        let ghost all = as_messages(results_view(results@));
        let mut i: usize = 0;
        while i < results.len()
            invariant
                i <= results.len(),
                all == as_messages(results_view(results@)),
                self@ == old(self)@ + all.take(i as int),
            decreases results.len() - i,
        {
            let ghost before = self@;
            self.append(Message::Tool(results[i].clone()));
            proof {
                assert(all[i as int] == MessageView::Tool(results@[i as int]@));
                assert(self@ =~= old(self)@ + all.take(i + 1));
            }
            i += 1;
        }
        assert(all.take(i as int) =~= all);
    }

    /// Forgets all but the first `len` messages.
    pub(crate) fn truncate(&mut self, len: usize)
        requires
            len <= old(self)@.len(),
        ensures
            final(self)@ == old(self)@.take(len as int),
    {
        self.messages.truncate(len);
        assert(self@ =~= old(self)@.take(len as int));
    }
}

} // verus!
