//! The failures that the loop distinguishes.

use vstd::prelude::*;
use vstd::string::*;

verus! {

/// The three ways in which a tool call ends without content. Each of them is
/// fed back to the model as the result of the call.
#[derive(Debug, Clone, Copy, PartialEq, Eq, Structural)]
pub enum ToolErrorKind {
    /// The arguments do not fit the tool's parameter schema.
    InvalidArguments,
    /// No tool of the requested name is registered.
    UnknownTool,
    /// The tool's own operation failed (network, parse, timeout).
    ToolExecutionFailure,
}

/// A structured failure of one tool call.
///
/// `detail` names the subject of the failure: the offending parameter for
/// `InvalidArguments`, the requested name for `UnknownTool`, and the reason
/// for `ToolExecutionFailure`.
#[derive(Debug, PartialEq, Eq)]
pub struct ToolError {
    pub kind: ToolErrorKind,
    pub detail: String,
}

pub struct ToolErrorView {
    pub kind: ToolErrorKind,
    pub detail: Seq<char>,
}

impl View for ToolError {
    type V = ToolErrorView;

    open spec fn view(&self) -> ToolErrorView {
        ToolErrorView { kind: self.kind, detail: self.detail@ }
    }
}

impl Clone for ToolError {
    fn clone(&self) -> (res: Self)
        ensures
            res@ == self@,
    {
        ToolError { kind: self.kind, detail: self.detail.clone() }
    }
}

/// The words that introduce the detail of an error of the given kind.
pub open spec fn kind_prefix(kind: ToolErrorKind) -> Seq<char> {
    match kind {
        ToolErrorKind::InvalidArguments => "invalid arguments: "@,
        ToolErrorKind::UnknownTool => "unknown tool: "@,
        ToolErrorKind::ToolExecutionFailure => "tool execution failed: "@,
    }
}

/// The human-readable reason of an error: the words for its kind, then its detail.
pub open spec fn error_text(e: ToolErrorView) -> Seq<char> {
    kind_prefix(e.kind) + e.detail
}

impl ToolError {
    pub fn invalid_arguments(detail: String) -> (e: ToolError)
        ensures
            e@ == (ToolErrorView { kind: ToolErrorKind::InvalidArguments, detail: detail@ }),
    {
        ToolError { kind: ToolErrorKind::InvalidArguments, detail }
    }

    pub fn unknown_tool(name: String) -> (e: ToolError)
        ensures
            e@ == (ToolErrorView { kind: ToolErrorKind::UnknownTool, detail: name@ }),
    {
        ToolError { kind: ToolErrorKind::UnknownTool, detail: name }
    }

    pub fn execution_failure(reason: String) -> (e: ToolError)
        ensures
            e@ == (ToolErrorView { kind: ToolErrorKind::ToolExecutionFailure, detail: reason@ }),
    {
        ToolError { kind: ToolErrorKind::ToolExecutionFailure, detail: reason }
    }

    /// The reason as it is shown to the model.
    pub fn message(&self) -> (text: String)
        ensures
            text@ == error_text(self@),
    {
        let mut text = match self.kind {
            ToolErrorKind::InvalidArguments => String::from_str("invalid arguments: "),
            ToolErrorKind::UnknownTool => String::from_str("unknown tool: "),
            ToolErrorKind::ToolExecutionFailure => String::from_str("tool execution failed: "),
        };
        text.append(self.detail.as_str());
        text
    }
}

/// Registration of a tool under a name that is already taken. It can only
/// arise while the registry is filled, before any conversation begins.
#[derive(Debug, PartialEq, Eq)]
pub enum RegistryError {
    DuplicateTool(String),
}

impl RegistryError {
    /// The name that was registered twice.
    pub open spec fn name(self) -> Seq<char> {
        match self {
            RegistryError::DuplicateTool(name) => name@,
        }
    }

    pub fn message(&self) -> (text: String)
        ensures
            text@ == "duplicate tool: "@ + self.name(),
    {
        match self {
            RegistryError::DuplicateTool(name) => {
                let mut text = String::from_str("duplicate tool: ");
                text.append(name.as_str());
                text
            },
        }
    }
}

/// The backend call itself failed (connection, malformed response, timeout).
/// It is reported to the operator and never enters the conversation.
#[derive(Debug, PartialEq, Eq)]
pub struct ModelClientFailure {
    pub reason: String,
}

impl View for ModelClientFailure {
    type V = Seq<char>;

    open spec fn view(&self) -> Seq<char> {
        self.reason@
    }
}

} // verus!
