use weather_assistant::coordinator::{Action, Coordinator, Event, ModelReply, Phase};
use weather_assistant::error::{ModelClientFailure, ToolError};
use weather_assistant::message::{Message, Outcome, Role, ToolCall, ToolResult};
use weather_assistant::registry::Registry;
use weather_assistant::sampling::SamplingConfig;
use weather_assistant::schema::{ArgValue, Argument, Arguments, ValueKind};
use weather_assistant::tools::get_weather::GetWeather;
use weather_assistant::tools::Fetched;

const SYSTEM: &str = "You are helpful weather assistant.";

fn session() -> Coordinator {
    let mut registry = Registry::new();
    registry.register(GetWeather::tool_info()).unwrap();
    let sampling = SamplingConfig::new(2048, 200, 256).unwrap();
    Coordinator::new("llama3".to_string(), sampling, SYSTEM.to_string(), registry)
}

fn weather_call(id: &str, name: &str, kind: ValueKind, location: &str) -> ToolCall {
    ToolCall {
        id: id.to_string(),
        name: name.to_string(),
        arguments: Arguments::Object(vec![Argument {
            name: "location".to_string(),
            value: ArgValue { kind, text: location.to_string() },
        }]),
    }
}

fn reply(content: &str, tool_calls: Vec<ToolCall>) -> Event {
    Event::ModelReplied(ModelReply { content: content.to_string(), tool_calls })
}

fn finished(index: usize, text: &str) -> Event {
    Event::ToolFinished { index, outcome: Outcome::Content(text.to_string()) }
}

fn assistant(content: &str, tool_calls: Vec<ToolCall>) -> Message {
    Message::Assistant { content: content.to_string(), tool_calls }
}

fn tool_message(call_id: &str, text: &str) -> Message {
    Message::Tool(ToolResult {
        call_id: call_id.to_string(),
        outcome: Outcome::Content(text.to_string()),
    })
}

fn history(coordinator: &Coordinator) -> &Vec<Message> {
    coordinator.conversation().messages()
}

#[test]
fn session_begins_with_the_system_prompt_and_awaits_the_user() {
    let coordinator = session();
    assert_eq!(coordinator.phase(), Phase::AwaitingUserInput);
    assert_eq!(history(&coordinator), &vec![Message::System(SYSTEM.to_string())]);
    assert!(coordinator.pending().is_empty());
    assert!(coordinator.call(0).is_none());
}

#[test]
fn request_holds_history_descriptors_and_sampling() {
    let mut coordinator = session();
    coordinator.step(Event::UserInput("weather in Paris?".to_string()));
    let request = coordinator.request();
    assert_eq!(request.model, "llama3");
    assert_eq!(request.messages.len(), 2);
    assert_eq!(request.messages[1], Message::User("weather in Paris?".to_string()));
    assert_eq!(request.tools, &vec![GetWeather::tool_info()]);
    assert_eq!(request.sampling.num_ctx(), 2048);
    assert_eq!(request.sampling.temperature_milli(), 200);
    assert_eq!(request.sampling.num_predict(), 256);
}

#[test]
fn end_to_end_weather_in_paris() {
    let mut coordinator = session();
    let tool = GetWeather::new();

    let action = coordinator.step(Event::UserInput("weather in Paris?".to_string()));
    assert_eq!(action, Action::RequestModel);
    assert_eq!(coordinator.phase(), Phase::RequestingModel);

    let call = weather_call("call-0", "get_weather", ValueKind::Text, "Paris");
    let action = coordinator.step(reply("", vec![call.clone()]));
    assert_eq!(action, Action::InvokeTools);
    assert_eq!(coordinator.phase(), Phase::DispatchingTools);
    assert_eq!(coordinator.pending(), vec![0]);

    let pending = coordinator.call(0).unwrap();
    assert_eq!(pending, &call);
    let parameters = tool.call_from_json(&pending.arguments).unwrap();
    assert_eq!(tool.request_url(&parameters), "https://wttr.in/Paris?lang=ru&format=%C+%t");
    let answer = tool.get_weather(Fetched::Body("Partly cloudy +18°C".to_string())).unwrap();

    let action = coordinator.step(Event::ToolFinished { index: 0, outcome: Outcome::Content(answer) });
    assert_eq!(action, Action::RequestModel);
    assert_eq!(coordinator.phase(), Phase::RequestingModel);
    assert_eq!(coordinator.request().messages.len(), 4);

    let action = coordinator.step(reply("In Paris: Partly cloudy +18°C", Vec::new()));
    assert_eq!(action, Action::Emit("In Paris: Partly cloudy +18°C".to_string()));
    assert_eq!(coordinator.phase(), Phase::Emitting);

    let action = coordinator.step(Event::Emitted);
    assert_eq!(action, Action::AwaitInput);
    assert_eq!(coordinator.phase(), Phase::AwaitingUserInput);
    assert_eq!(
        history(&coordinator),
        &vec![
            Message::System(SYSTEM.to_string()),
            Message::User("weather in Paris?".to_string()),
            assistant("", vec![call]),
            tool_message("call-0", "Partly cloudy +18°C"),
            assistant("In Paris: Partly cloudy +18°C", Vec::new()),
        ]
    );
}

#[test]
fn every_call_gets_one_result_with_its_id() {
    let mut coordinator = session();
    coordinator.step(Event::UserInput("Paris, Oslo and Rome?".to_string()));
    let calls = vec![
        weather_call("a", "get_weather", ValueKind::Text, "Paris"),
        weather_call("b", "get_weather", ValueKind::Text, "Oslo"),
        weather_call("c", "get_weather", ValueKind::Text, "Rome"),
    ];
    assert_eq!(coordinator.step(reply("", calls.clone())), Action::InvokeTools);
    assert_eq!(coordinator.step(finished(0, "sunny")), Action::AwaitTools);
    assert_eq!(history(&coordinator).len(), 3);
    assert_eq!(coordinator.step(finished(1, "rain")), Action::AwaitTools);
    assert_eq!(history(&coordinator).len(), 3);
    assert_eq!(coordinator.step(finished(2, "fog")), Action::RequestModel);
    let all = history(&coordinator);
    assert_eq!(all.len(), 3 + calls.len());
    assert_eq!(all[2].tool_calls(), Some(&calls));
    for (k, call) in calls.iter().enumerate() {
        assert_eq!(all[3 + k].role(), Role::Tool);
        match &all[3 + k] {
            Message::Tool(result) => assert_eq!(result.call_id, call.id),
            other => panic!("no tool result: {:?}", other),
        }
    }
}

#[test]
fn results_are_appended_in_call_order_whatever_the_completion_order() {
    let calls = vec![
        weather_call("a", "get_weather", ValueKind::Text, "Paris"),
        weather_call("b", "get_weather", ValueKind::Text, "Oslo"),
        weather_call("c", "get_weather", ValueKind::Text, "Rome"),
    ];
    let answers = ["sunny", "rain", "fog"];
    let mut sequential = session();
    sequential.step(Event::UserInput("?".to_string()));
    sequential.step(reply("", calls.clone()));
    for index in [0, 1, 2] {
        sequential.step(finished(index, answers[index]));
    }
    let orders = [[0, 2, 1], [1, 0, 2], [1, 2, 0], [2, 0, 1], [2, 1, 0]];
    for order in orders {
        let mut concurrent = session();
        concurrent.step(Event::UserInput("?".to_string()));
        concurrent.step(reply("", calls.clone()));
        for index in order {
            concurrent.step(finished(index, answers[index]));
        }
        assert_eq!(concurrent.phase(), Phase::RequestingModel);
        assert_eq!(history(&concurrent), history(&sequential));
    }
    assert_eq!(
        history(&sequential)[3..],
        [tool_message("a", "sunny"), tool_message("b", "rain"), tool_message("c", "fog")]
    );
}

#[test]
fn unregistered_tool_yields_unknown_tool_and_the_loop_continues() {
    let mut coordinator = session();
    coordinator.step(Event::UserInput("price of ACME?".to_string()));
    let call = weather_call("x", "get_stock_price", ValueKind::Text, "ACME");
    let action = coordinator.step(reply("", vec![call.clone()]));
    assert_eq!(action, Action::RequestModel);
    assert_eq!(coordinator.phase(), Phase::RequestingModel);
    assert!(coordinator.pending().is_empty());
    let all = history(&coordinator);
    assert_eq!(all.len(), 4);
    assert_eq!(all[2], assistant("", vec![call]));
    assert_eq!(
        all[3],
        Message::Tool(ToolResult {
            call_id: "x".to_string(),
            outcome: Outcome::Failure(ToolError::unknown_tool("get_stock_price".to_string())),
        })
    );
    assert_eq!(all[3].content(), "unknown tool: get_stock_price");
    let action = coordinator.step(reply("Sorry, I can't help with this request.", Vec::new()));
    assert_eq!(action, Action::Emit("Sorry, I can't help with this request.".to_string()));
}

#[test]
fn invalid_arguments_are_fed_back_to_the_model() {
    let mut coordinator = session();
    coordinator.step(Event::UserInput("weather?".to_string()));
    let calls = vec![
        weather_call("1", "get_weather", ValueKind::Integer, "123"),
        weather_call("2", "get_weather", ValueKind::Text, "Paris"),
    ];
    assert_eq!(coordinator.step(reply("", calls)), Action::InvokeTools);
    assert_eq!(coordinator.pending(), vec![1]);
    assert_eq!(coordinator.step(finished(0, "ignored")), Action::AwaitTools);
    assert_eq!(coordinator.step(finished(1, "sunny")), Action::RequestModel);
    let all = history(&coordinator);
    assert_eq!(
        all[3],
        Message::Tool(ToolResult {
            call_id: "1".to_string(),
            outcome: Outcome::Failure(ToolError::invalid_arguments("location".to_string())),
        })
    );
    assert_eq!(all[3].content(), "invalid arguments: location");
    assert_eq!(all[4], tool_message("2", "sunny"));
}

#[test]
fn tool_failure_is_kept_inside_the_conversation() {
    let mut coordinator = session();
    coordinator.step(Event::UserInput("weather?".to_string()));
    coordinator.step(reply("", vec![weather_call("1", "get_weather", ValueKind::Text, "Paris")]));
    let failure = Outcome::Failure(ToolError::execution_failure("timeout".to_string()));
    let action = coordinator.step(Event::ToolFinished { index: 0, outcome: failure.clone() });
    assert_eq!(action, Action::RequestModel);
    let all = history(&coordinator);
    assert_eq!(all[3], Message::Tool(ToolResult { call_id: "1".to_string(), outcome: failure }));
    assert_eq!(all[3].content(), "tool execution failed: timeout");
}

#[test]
fn model_failure_discards_the_turn() {
    let mut coordinator = session();
    coordinator.step(Event::UserInput("first".to_string()));
    coordinator.step(reply("answer", Vec::new()));
    coordinator.step(Event::Emitted);
    let before: Vec<Message> = history(&coordinator).iter().map(clone_message).collect();
    assert_eq!(before.len(), 3);

    coordinator.step(Event::UserInput("second".to_string()));
    coordinator.step(reply("", vec![weather_call("1", "get_weather", ValueKind::Text, "Paris")]));
    coordinator.step(finished(0, "sunny"));
    assert_eq!(history(&coordinator).len(), 6);
    let action = coordinator.step(Event::ModelFailed("connection refused".to_string()));
    assert_eq!(
        action,
        Action::ReportFailure(ModelClientFailure { reason: "connection refused".to_string() })
    );
    assert_eq!(coordinator.phase(), Phase::AwaitingUserInput);
    assert_eq!(history(&coordinator), &before);

    assert_eq!(coordinator.step(Event::UserInput("third".to_string())), Action::RequestModel);
    assert_eq!(history(&coordinator).len(), 4);
    assert_eq!(history(&coordinator)[3], Message::User("third".to_string()));
}

fn clone_message(message: &Message) -> Message {
    match message {
        Message::System(text) => Message::System(text.clone()),
        Message::User(text) => Message::User(text.clone()),
        Message::Assistant { content, tool_calls } => {
            Message::Assistant { content: content.clone(), tool_calls: tool_calls.clone() }
        }
        Message::Tool(result) => Message::Tool(result.clone()),
    }
}

#[test]
fn model_failure_on_the_first_request_leaves_the_system_prompt_only() {
    let mut coordinator = session();
    coordinator.step(Event::UserInput("hello".to_string()));
    let action = coordinator.step(Event::ModelFailed("timeout".to_string()));
    assert_eq!(action, Action::ReportFailure(ModelClientFailure { reason: "timeout".to_string() }));
    assert_eq!(history(&coordinator), &vec![Message::System(SYSTEM.to_string())]);
    assert_eq!(coordinator.phase(), Phase::AwaitingUserInput);
}

#[test]
fn model_timeout_is_a_model_failure() {
    let mut coordinator = session();
    coordinator.step(Event::UserInput("hello".to_string()));
    let action = coordinator.step(Event::ModelTimedOut);
    assert_eq!(action, Action::ReportFailure(ModelClientFailure { reason: "timeout".to_string() }));
    assert_eq!(history(&coordinator), &vec![Message::System(SYSTEM.to_string())]);
    assert_eq!(coordinator.phase(), Phase::AwaitingUserInput);
}

#[test]
fn tool_timeout_is_a_failure_of_the_tool() {
    let mut coordinator = session();
    coordinator.step(Event::UserInput("weather?".to_string()));
    let calls = vec![
        weather_call("1", "get_weather", ValueKind::Text, "Paris"),
        weather_call("2", "get_weather", ValueKind::Text, "Oslo"),
    ];
    coordinator.step(reply("", calls));
    assert_eq!(coordinator.step(Event::ToolTimedOut { index: 1 }), Action::AwaitTools);
    assert_eq!(coordinator.step(finished(1, "too late")), Action::AwaitTools);
    assert_eq!(coordinator.step(finished(0, "sunny")), Action::RequestModel);
    let all = history(&coordinator);
    assert_eq!(all[3], tool_message("1", "sunny"));
    assert_eq!(
        all[4],
        Message::Tool(ToolResult {
            call_id: "2".to_string(),
            outcome: Outcome::Failure(ToolError::execution_failure("timeout".to_string())),
        })
    );
    assert_eq!(all[4].content(), "tool execution failed: timeout");
}

#[test]
fn reply_without_content_and_calls_is_a_model_failure() {
    let mut coordinator = session();
    coordinator.step(Event::UserInput("hello".to_string()));
    let action = coordinator.step(reply("", Vec::new()));
    assert_eq!(
        action,
        Action::ReportFailure(ModelClientFailure { reason: "malformed response".to_string() })
    );
    assert_eq!(coordinator.phase(), Phase::AwaitingUserInput);
    assert_eq!(history(&coordinator).len(), 1);
}

#[test]
fn reply_with_repeated_call_ids_is_a_model_failure() {
    let mut coordinator = session();
    coordinator.step(Event::UserInput("hello".to_string()));
    let calls = vec![
        weather_call("1", "get_weather", ValueKind::Text, "Paris"),
        weather_call("2", "get_weather", ValueKind::Text, "Oslo"),
        weather_call("1", "get_weather", ValueKind::Text, "Rome"),
    ];
    let action = coordinator.step(reply("text", calls));
    assert_eq!(
        action,
        Action::ReportFailure(ModelClientFailure { reason: "malformed response".to_string() })
    );
    assert_eq!(history(&coordinator).len(), 1);
}

#[test]
fn is_sound_tells_sound_replies_apart() {
    let call = |id: &str| weather_call(id, "get_weather", ValueKind::Text, "Paris");
    let sound = |content: &str, tool_calls: Vec<ToolCall>| {
        ModelReply { content: content.to_string(), tool_calls }.is_sound()
    };
    assert!(sound("text", Vec::new()));
    assert!(sound("", vec![call("1")]));
    assert!(sound("text", vec![call("1"), call("2")]));
    assert!(!sound("", Vec::new()));
    assert!(!sound("text", vec![call("1"), call("1")]));
}

#[test]
fn events_out_of_place_are_ignored() {
    let mut coordinator = session();
    assert_eq!(coordinator.step(Event::Emitted), Action::Ignored);
    assert_eq!(coordinator.step(reply("text", Vec::new())), Action::Ignored);
    assert_eq!(coordinator.step(Event::ModelFailed("x".to_string())), Action::Ignored);
    assert_eq!(coordinator.step(Event::ModelTimedOut), Action::Ignored);
    assert_eq!(coordinator.step(finished(0, "late")), Action::Ignored);
    assert_eq!(coordinator.step(Event::ToolTimedOut { index: 0 }), Action::Ignored);
    assert_eq!(coordinator.phase(), Phase::AwaitingUserInput);
    assert_eq!(history(&coordinator).len(), 1);

    coordinator.step(Event::UserInput("a".to_string()));
    assert_eq!(coordinator.step(Event::UserInput("b".to_string())), Action::Ignored);
    assert_eq!(coordinator.step(finished(0, "late")), Action::Ignored);
    assert_eq!(history(&coordinator).len(), 2);

    coordinator.step(reply("", vec![weather_call("1", "get_weather", ValueKind::Text, "Paris")]));
    assert_eq!(coordinator.step(Event::ModelFailed("x".to_string())), Action::Ignored);
    assert_eq!(coordinator.step(Event::UserInput("c".to_string())), Action::Ignored);
    assert_eq!(coordinator.phase(), Phase::DispatchingTools);
    assert_eq!(history(&coordinator).len(), 3);
}

#[test]
fn outcomes_for_calls_that_are_not_pending_change_nothing() {
    let mut coordinator = session();
    coordinator.step(Event::UserInput("a".to_string()));
    let calls = vec![
        weather_call("1", "get_weather", ValueKind::Text, "Paris"),
        weather_call("2", "get_weather", ValueKind::Text, "Oslo"),
    ];
    coordinator.step(reply("", calls));
    assert_eq!(coordinator.step(finished(7, "no such call")), Action::AwaitTools);
    assert_eq!(coordinator.step(finished(0, "first")), Action::AwaitTools);
    assert_eq!(coordinator.step(finished(0, "second")), Action::AwaitTools);
    assert_eq!(coordinator.pending(), vec![1]);
    assert_eq!(coordinator.step(finished(1, "rain")), Action::RequestModel);
    assert_eq!(history(&coordinator)[3], tool_message("1", "first"));
    assert_eq!(history(&coordinator)[4], tool_message("2", "rain"));
}

#[test]
fn reply_with_text_and_calls_keeps_both() {
    let mut coordinator = session();
    coordinator.step(Event::UserInput("weather in Oslo?".to_string()));
    let call = weather_call("0", "get_weather", ValueKind::Text, "Oslo");
    let action = coordinator.step(reply("Let me look.", vec![call.clone()]));
    assert_eq!(action, Action::InvokeTools);
    assert_eq!(history(&coordinator)[2], assistant("Let me look.", vec![call.clone()]));
    assert_eq!(coordinator.call(0), Some(&call));
    assert_eq!(coordinator.call(1), None);
    assert_eq!(coordinator.step(finished(0, "rain")), Action::RequestModel);
    assert_eq!(coordinator.call(0), None);
}

#[test]
fn registry_of_the_session_is_the_one_it_began_with() {
    let mut coordinator = session();
    assert_eq!(coordinator.registry().descriptors(), &vec![GetWeather::tool_info()]);
    coordinator.step(Event::UserInput("a".to_string()));
    coordinator.step(reply("b", Vec::new()));
    coordinator.step(Event::Emitted);
    assert_eq!(coordinator.registry().len(), 1);
    assert_eq!(coordinator.request().model, "llama3");
}

#[test]
fn two_turns_follow_each_other() {
    let mut coordinator = session();
    for (question, answer) in [("a?", "a!"), ("b?", "b!")] {
        assert_eq!(coordinator.step(Event::UserInput(question.to_string())), Action::RequestModel);
        assert_eq!(coordinator.step(reply(answer, Vec::new())), Action::Emit(answer.to_string()));
        assert_eq!(coordinator.step(Event::Emitted), Action::AwaitInput);
    }
    assert_eq!(
        history(&coordinator),
        &vec![
            Message::System(SYSTEM.to_string()),
            Message::User("a?".to_string()),
            assistant("a!", Vec::new()),
            Message::User("b?".to_string()),
            assistant("b!", Vec::new()),
        ]
    );
}
