use weather_assistant::error::RegistryError;
use weather_assistant::registry::{Registry, ToolDescriptor};
use weather_assistant::tools::GetWeather;

fn tool(name: &str, description: &str) -> ToolDescriptor {
    ToolDescriptor {
        name: name.to_string(),
        description: description.to_string(),
        parameter_schema: Vec::new(),
    }
}

#[test]
fn new_registry_is_empty() {
    let registry = Registry::new();
    assert_eq!(registry.len(), 0);
    assert!(registry.descriptors().is_empty());
    assert!(registry.lookup(&"get_weather".to_string()).is_none());
}

#[test]
fn register_then_lookup() {
    let mut registry = Registry::new();
    assert_eq!(registry.register(GetWeather::tool_info()), Ok(()));
    let found = registry.lookup(&"get_weather".to_string());
    assert_eq!(found, Some(&GetWeather::tool_info()));
}

#[test]
fn lookup_of_unregistered_name_is_none() {
    let mut registry = Registry::new();
    registry.register(GetWeather::tool_info()).unwrap();
    assert!(registry.lookup(&"get_stock_price".to_string()).is_none());
    assert!(registry.lookup(&"Get_Weather".to_string()).is_none());
    assert!(registry.lookup(&String::new()).is_none());
}

#[test]
fn registering_two_tools_with_the_same_name_fails_with_duplicate_tool() {
    let mut registry = Registry::new();
    assert_eq!(registry.register(tool("get_weather", "first")), Ok(()));
    let second = registry.register(tool("get_weather", "second"));
    assert_eq!(second, Err(RegistryError::DuplicateTool("get_weather".to_string())));
    assert_eq!(second.unwrap_err().message(), "duplicate tool: get_weather");
    assert_eq!(registry.len(), 1);
    assert_eq!(registry.descriptors()[0].description, "first");
}

#[test]
fn descriptors_come_in_registration_order() {
    let mut registry = Registry::new();
    registry.register(tool("c", "")).unwrap();
    registry.register(tool("a", "")).unwrap();
    registry.register(tool("b", "")).unwrap();
    assert!(registry.register(tool("a", "again")).is_err());
    let names: Vec<&str> = registry.descriptors().iter().map(|d| d.name.as_str()).collect();
    assert_eq!(names, vec!["c", "a", "b"]);
    assert_eq!(registry.len(), 3);
}

#[test]
fn position_is_the_place_in_registration_order() {
    let mut registry = Registry::new();
    registry.register(tool("c", "")).unwrap();
    registry.register(tool("a", "")).unwrap();
    registry.register(tool("b", "")).unwrap();
    assert_eq!(registry.position(&"c".to_string()), Some(0));
    assert_eq!(registry.position(&"a".to_string()), Some(1));
    assert_eq!(registry.position(&"b".to_string()), Some(2));
    assert_eq!(registry.position(&"d".to_string()), None);
}
