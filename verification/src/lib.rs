//! A tool-augmented conversation loop for a weather assistant.
//!
//! The crate holds the decisions of the loop: the conversation history, the
//! registry of tools that the model may ask for, the validation of the
//! arguments of a tool call, and the coordinator that moves between waiting
//! for the user, asking the model, dispatching tools and emitting the answer.
//! Talking to the model, to the network and to the console is left to the
//! program around it, which performs each [`coordinator::Action`] and hands
//! back the matching [`coordinator::Event`].
//!
//! - [`error`]: the failures that are told apart.
//! - [`schema`]: arguments, parameter schemas, and validation.
//! - [`message`] and [`conversation`]: the history and what makes it whole.
//! - [`registry`]: the tools by name.
//! - [`dispatch`]: one batch of tool calls and its results.
//! - [`sampling`]: the sampling configuration.
//! - [`coordinator`]: the state machine, its model and its laws.
//! - [`tools`]: the weather tool.

pub mod error;
pub mod schema;
pub mod message;
pub mod conversation;
pub mod registry;
pub mod dispatch;
pub mod sampling;
pub mod coordinator;
pub mod tools;
