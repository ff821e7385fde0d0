use weather_assistant::conversation::Conversation;
use weather_assistant::error::{ModelClientFailure, RegistryError, ToolError, ToolErrorKind};
use weather_assistant::message::{Message, Outcome, Role, ToolCall, ToolResult};
use weather_assistant::sampling::{SamplingConfig, MAX_TEMPERATURE_MILLI};
use weather_assistant::schema::{ArgValue, Arguments, ValueKind};

#[test]
fn tool_error_messages() {
    let invalid = ToolError::invalid_arguments("location".to_string());
    assert_eq!(invalid.kind, ToolErrorKind::InvalidArguments);
    assert_eq!(invalid.message(), "invalid arguments: location");
    let unknown = ToolError::unknown_tool("get_stock_price".to_string());
    assert_eq!(unknown.kind, ToolErrorKind::UnknownTool);
    assert_eq!(unknown.message(), "unknown tool: get_stock_price");
    let failed = ToolError::execution_failure("timeout".to_string());
    assert_eq!(failed.kind, ToolErrorKind::ToolExecutionFailure);
    assert_eq!(failed.message(), "tool execution failed: timeout");
    assert_eq!(failed.clone(), failed);
}

#[test]
fn registry_error_message() {
    let error = RegistryError::DuplicateTool("get_weather".to_string());
    assert_eq!(error.message(), "duplicate tool: get_weather");
}

#[test]
fn model_client_failure_keeps_its_reason() {
    let failure = ModelClientFailure { reason: "connection refused".to_string() };
    assert_eq!(failure.reason, "connection refused");
}

#[test]
fn sampling_config_takes_numbers_in_range() {
    let config = SamplingConfig::new(2048, 200, 256).unwrap();
    assert_eq!(config.num_ctx(), 2048);
    assert_eq!(config.temperature_milli(), 200);
    assert_eq!(config.num_predict(), 256);
    assert!(SamplingConfig::new(1, 0, 1).is_some());
    assert!(SamplingConfig::new(u64::MAX, MAX_TEMPERATURE_MILLI, i32::MAX).is_some());
}

#[test]
fn sampling_config_refuses_numbers_out_of_range() {
    assert_eq!(MAX_TEMPERATURE_MILLI, 1000);
    assert_eq!(SamplingConfig::new(0, 200, 256), None);
    assert_eq!(SamplingConfig::new(2048, 1001, 256), None);
    assert_eq!(SamplingConfig::new(2048, 200, 0), None);
    assert_eq!(SamplingConfig::new(2048, 200, -1), None);
}

#[test]
fn message_roles_contents_and_calls() {
    let call = ToolCall {
        id: "1".to_string(),
        name: "get_weather".to_string(),
        arguments: Arguments::Other(ArgValue { kind: ValueKind::Null, text: "null".to_string() }),
    };
    let system = Message::System("s".to_string());
    let user = Message::User("u".to_string());
    let assistant = Message::Assistant { content: "a".to_string(), tool_calls: vec![call.clone()] };
    let answered = Message::Tool(ToolResult {
        call_id: "1".to_string(),
        outcome: Outcome::Content("t".to_string()),
    });
    let failed = Message::Tool(ToolResult {
        call_id: "1".to_string(),
        outcome: Outcome::Failure(ToolError::unknown_tool("x".to_string())),
    });
    assert_eq!(system.role(), Role::System);
    assert_eq!(user.role(), Role::User);
    assert_eq!(assistant.role(), Role::Assistant);
    assert_eq!(answered.role(), Role::Tool);
    assert_eq!(system.content(), "s");
    assert_eq!(user.content(), "u");
    assert_eq!(assistant.content(), "a");
    assert_eq!(answered.content(), "t");
    assert_eq!(failed.content(), "unknown tool: x");
    assert_eq!(assistant.tool_calls(), Some(&vec![call]));
    assert_eq!(system.tool_calls(), None);
    assert_eq!(user.tool_calls(), None);
    assert_eq!(answered.tool_calls(), None);
}

#[test]
fn conversation_is_appended_to_in_order() {
    let mut conversation = Conversation::new();
    assert_eq!(conversation.len(), 0);
    assert!(conversation.get(0).is_none());
    conversation.append(Message::System("s".to_string()));
    conversation.append(Message::User("u".to_string()));
    let results = vec![
        ToolResult { call_id: "1".to_string(), outcome: Outcome::Content("a".to_string()) },
        ToolResult { call_id: "2".to_string(), outcome: Outcome::Content("b".to_string()) },
    ];
    conversation.append_results(&results);
    assert_eq!(conversation.len(), 4);
    assert_eq!(conversation.get(1), Some(&Message::User("u".to_string())));
    assert_eq!(conversation.get(3), Some(&Message::Tool(results[1].clone())));
    assert!(conversation.get(4).is_none());
    assert_eq!(conversation.messages().len(), 4);
    assert_eq!(conversation.messages()[2], Message::Tool(results[0].clone()));
}
