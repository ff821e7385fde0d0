use weather_assistant::dispatch::{resolve_call, Batch};
use weather_assistant::error::ToolError;
use weather_assistant::message::{Outcome, ToolCall, ToolResult};
use weather_assistant::registry::Registry;
use weather_assistant::schema::{ArgValue, Argument, Arguments, ValueKind};
use weather_assistant::tools::get_weather::GetWeather;

fn weather_registry() -> Registry {
    let mut registry = Registry::new();
    registry.register(GetWeather::tool_info()).unwrap();
    registry
}

fn call(id: &str, name: &str, kind: ValueKind, location: &str) -> ToolCall {
    ToolCall {
        id: id.to_string(),
        name: name.to_string(),
        arguments: Arguments::Object(vec![Argument {
            name: "location".to_string(),
            value: ArgValue { kind, text: location.to_string() },
        }]),
    }
}

fn content(text: &str) -> Outcome {
    Outcome::Content(text.to_string())
}

fn three_calls() -> Vec<ToolCall> {
    vec![
        call("a", "get_weather", ValueKind::Text, "Paris"),
        call("b", "get_weather", ValueKind::Text, "Oslo"),
        call("c", "get_weather", ValueKind::Text, "Rome"),
    ]
}

#[test]
fn resolve_call_leaves_a_fitting_call_to_the_tool() {
    let registry = weather_registry();
    assert_eq!(resolve_call(&registry, &call("1", "get_weather", ValueKind::Text, "Paris")), None);
}

#[test]
fn resolve_call_settles_an_unknown_tool() {
    let registry = weather_registry();
    let settled = resolve_call(&registry, &call("1", "get_stock_price", ValueKind::Text, "X"));
    assert_eq!(
        settled,
        Some(Outcome::Failure(ToolError::unknown_tool("get_stock_price".to_string())))
    );
    assert_eq!(settled.unwrap().text(), "unknown tool: get_stock_price");
}

#[test]
fn resolve_call_settles_invalid_arguments() {
    let registry = weather_registry();
    let settled = resolve_call(&registry, &call("1", "get_weather", ValueKind::Integer, "123"));
    assert_eq!(
        settled,
        Some(Outcome::Failure(ToolError::invalid_arguments("location".to_string())))
    );
}

#[test]
fn open_batch_has_one_slot_for_each_call() {
    let registry = weather_registry();
    let calls = vec![
        call("a", "get_weather", ValueKind::Text, "Paris"),
        call("b", "get_stock_price", ValueKind::Text, "X"),
        call("c", "get_weather", ValueKind::Boolean, "true"),
        call("d", "get_weather", ValueKind::Text, "Oslo"),
    ];
    let batch = Batch::open(&registry, &calls);
    assert_eq!(batch.len(), 4);
    assert_eq!(batch.pending(), vec![0, 3]);
    assert!(batch.is_pending(0));
    assert!(!batch.is_pending(1));
    assert!(!batch.is_pending(4));
    assert!(!batch.is_complete());
}

#[test]
fn empty_batch_is_complete() {
    let batch = Batch::empty();
    assert_eq!(batch.len(), 0);
    assert!(batch.is_complete());
    assert!(batch.pending().is_empty());
    assert_eq!(batch.results(&Vec::new()), Some(Vec::new()));
    assert_eq!(batch.results(&three_calls()), None);
}

#[test]
fn deliver_keeps_the_first_outcome_of_a_call_only() {
    let registry = weather_registry();
    let calls = three_calls();
    let mut batch = Batch::open(&registry, &calls);
    assert!(batch.deliver(1, content("first")));
    assert!(!batch.deliver(1, content("second")));
    assert!(!batch.deliver(3, content("no such call")));
    assert_eq!(batch.pending(), vec![0, 2]);
    assert!(batch.deliver(0, content("x")));
    assert!(batch.deliver(2, content("y")));
    assert!(batch.is_complete());
    let results = batch.results(&calls).unwrap();
    assert_eq!(results[1], ToolResult { call_id: "b".to_string(), outcome: content("first") });
}

#[test]
fn results_are_in_call_order_for_every_completion_order() {
    let registry = weather_registry();
    let calls = three_calls();
    let outcomes = [content("sunny"), content("rain"), content("fog")];
    let expected = vec![
        ToolResult { call_id: "a".to_string(), outcome: content("sunny") },
        ToolResult { call_id: "b".to_string(), outcome: content("rain") },
        ToolResult { call_id: "c".to_string(), outcome: content("fog") },
    ];
    let orders = [[0, 1, 2], [0, 2, 1], [1, 0, 2], [1, 2, 0], [2, 0, 1], [2, 1, 0]];
    for order in orders {
        let mut batch = Batch::open(&registry, &calls);
        for index in order {
            assert!(!batch.is_complete());
            assert_eq!(batch.results(&calls), None);
            assert!(batch.deliver(index, outcomes[index].clone()));
        }
        assert!(batch.is_complete());
        assert_eq!(batch.results(&calls).as_ref(), Some(&expected));
    }
}

#[test]
fn settled_calls_keep_their_failure_whatever_is_delivered() {
    let registry = weather_registry();
    let calls = vec![
        call("a", "nope", ValueKind::Text, "Paris"),
        call("b", "get_weather", ValueKind::Text, "Oslo"),
    ];
    let mut batch = Batch::open(&registry, &calls);
    assert!(!batch.deliver(0, content("late")));
    assert!(batch.deliver(1, content("rain")));
    assert_eq!(
        batch.results(&calls),
        Some(vec![
            ToolResult {
                call_id: "a".to_string(),
                outcome: Outcome::Failure(ToolError::unknown_tool("nope".to_string())),
            },
            ToolResult { call_id: "b".to_string(), outcome: content("rain") },
        ])
    );
}
