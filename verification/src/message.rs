//! Messages, tool calls and tool results: what a conversation is made of.

use crate::error::{error_text, ToolError, ToolErrorView};
use crate::schema::{Arguments, ArgumentsView};
use vstd::prelude::*;

verus! {

/// Who a message is from.
#[derive(Debug, Clone, Copy, PartialEq, Eq, Structural)]
pub enum Role {
    System,
    User,
    Assistant,
    Tool,
}

/// A request of the model to run one tool.
#[derive(Debug, PartialEq, Eq)]
pub struct ToolCall {
    /// Opaque, and unlike the id of any other call of the same response.
    pub id: String,
    pub name: String,
    pub arguments: Arguments,
}

pub struct ToolCallView {
    pub id: Seq<char>,
    pub name: Seq<char>,
    pub arguments: ArgumentsView,
}

impl View for ToolCall {
    type V = ToolCallView;

    open spec fn view(&self) -> ToolCallView {
        ToolCallView { id: self.id@, name: self.name@, arguments: self.arguments@ }
    }
}

impl Clone for ToolCall {
    fn clone(&self) -> (res: Self)
        ensures
            res@ == self@,
    {
        ToolCall {
            id: self.id.clone(),
            name: self.name.clone(),
            arguments: self.arguments.clone(),
        }
    }
}

pub open spec fn calls_view(calls: Seq<ToolCall>) -> Seq<ToolCallView> {
    calls.map_values(|c: ToolCall| c@)
}

/// How one tool call ended: with content, or with a structured failure.
/// Exactly one of the two is there.
#[derive(Debug, PartialEq, Eq)]
pub enum Outcome {
    Content(String),
    Failure(ToolError),
}

pub enum OutcomeView {
    Content(Seq<char>),
    Failure(ToolErrorView),
}

impl View for Outcome {
    type V = OutcomeView;

    open spec fn view(&self) -> OutcomeView {
        match self {
            Outcome::Content(text) => OutcomeView::Content(text@),
            Outcome::Failure(error) => OutcomeView::Failure(error@),
        }
    }
}

impl Clone for Outcome {
    fn clone(&self) -> (res: Self)
        ensures
            res@ == self@,
    {
        match self {
            Outcome::Content(text) => Outcome::Content(text.clone()),
            Outcome::Failure(error) => Outcome::Failure(error.clone()),
        }
    }
}

/// The text that stands for an outcome where only text can be shown: the
/// content, or the reason of the failure.
pub open spec fn outcome_text(outcome: OutcomeView) -> Seq<char> {
    match outcome {
        OutcomeView::Content(text) => text,
        OutcomeView::Failure(error) => error_text(error),
    }
}

impl Outcome {
    pub fn text(&self) -> (text: String)
        ensures
            text@ == outcome_text(self@),
    {
        match self {
            Outcome::Content(text) => text.clone(),
            Outcome::Failure(error) => error.message(),
        }
    }
}

/// The outcome of the call whose id is `call_id`.
#[derive(Debug, PartialEq, Eq)]
pub struct ToolResult {
    pub call_id: String,
    pub outcome: Outcome,
}

pub struct ToolResultView {
    pub call_id: Seq<char>,
    pub outcome: OutcomeView,
}

impl View for ToolResult {
    type V = ToolResultView;

    open spec fn view(&self) -> ToolResultView {
        ToolResultView { call_id: self.call_id@, outcome: self.outcome@ }
    }
}

impl Clone for ToolResult {
    fn clone(&self) -> (res: Self)
        ensures
            res@ == self@,
    {
        ToolResult { call_id: self.call_id.clone(), outcome: self.outcome.clone() }
    }
}

/// One entry of the history. Only an assistant message carries tool calls,
/// and only a tool message carries a result.
#[derive(Debug, PartialEq, Eq)]
pub enum Message {
    System(String),
    User(String),
    Assistant { content: String, tool_calls: Vec<ToolCall> },
    Tool(ToolResult),
}

pub enum MessageView {
    System(Seq<char>),
    User(Seq<char>),
    Assistant { content: Seq<char>, tool_calls: Seq<ToolCallView> },
    Tool(ToolResultView),
}

impl View for Message {
    type V = MessageView;

    open spec fn view(&self) -> MessageView {
        match self {
            Message::System(text) => MessageView::System(text@),
            Message::User(text) => MessageView::User(text@),
            Message::Assistant { content, tool_calls } => MessageView::Assistant {
                content: content@,
                tool_calls: calls_view(tool_calls@),
            },
            Message::Tool(result) => MessageView::Tool(result@),
        }
    }
}

impl MessageView {
    pub open spec fn role(self) -> Role {
        match self {
            MessageView::System(_) => Role::System,
            MessageView::User(_) => Role::User,
            MessageView::Assistant { .. } => Role::Assistant,
            MessageView::Tool(_) => Role::Tool,
        }
    }

    /// The text of the message; for a tool message, the text of its outcome.
    pub open spec fn text(self) -> Seq<char> {
        match self {
            MessageView::System(text) => text,
            MessageView::User(text) => text,
            MessageView::Assistant { content, .. } => content,
            MessageView::Tool(result) => outcome_text(result.outcome),
        }
    }

    /// The tool calls that the message carries; none unless it is from the
    /// assistant.
    pub open spec fn calls(self) -> Seq<ToolCallView> {
        match self {
            MessageView::Assistant { tool_calls, .. } => tool_calls,
            _ => Seq::empty(),
        }
    }
}

impl Message {
    pub fn role(&self) -> (role: Role)
        ensures
            role == self@.role(),
    {
        match self {
            Message::System(_) => Role::System,
            Message::User(_) => Role::User,
            Message::Assistant { .. } => Role::Assistant,
            Message::Tool(_) => Role::Tool,
        }
    }

    pub fn content(&self) -> (text: String)
        ensures
            text@ == self@.text(),
    {
        match self {
            Message::System(text) => text.clone(),
            Message::User(text) => text.clone(),
            Message::Assistant { content, .. } => content.clone(),
            Message::Tool(result) => result.outcome.text(),
        }
    }

    /// The tool calls of an assistant message; `None` for every other role.
    pub fn tool_calls(&self) -> (calls: Option<&Vec<ToolCall>>)
        ensures
            calls is Some <==> self@.role() == Role::Assistant,
            calls matches Some(c) ==> calls_view(c@) == self@.calls(),
    {
        match self {
            Message::Assistant { tool_calls, .. } => Some(tool_calls),
            _ => None,
        }
    }
}

pub open spec fn history_view(messages: Seq<Message>) -> Seq<MessageView> {
    messages.map_values(|m: Message| m@)
}

} // verus!
