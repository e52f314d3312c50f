use anthropic_messages::error::ApiError;
use anthropic_messages::json::Json;
use anthropic_messages::tool_names::{AnthropicToolKind, AnthropicToolNameMap, ToolName};
use anthropic_messages::tools::{
    anthropic_tool_choice, anthropic_tool_name, anthropic_tools, function_tool_to_anthropic,
};
use anthropic_messages::value::{document, value_of};
use serde_json::Value;

fn json(text: &str) -> Value {
    serde_json::from_str(text).expect("valid JSON")
}

fn list(text: &str) -> Vec<Json> {
    json(text)
        .as_array()
        .expect("array")
        .iter()
        .map(document)
        .collect()
}

fn refusal(tools: &str) -> String {
    match anthropic_tools(&list(tools)) {
        Ok(_) => panic!("expected a refusal"),
        Err(ApiError::Stream(message)) => message,
    }
}

fn taken(tools: &str) -> (Vec<Value>, AnthropicToolNameMap) {
    let (tools, names) = anthropic_tools(&list(tools)).expect("tools");
    (tools.iter().map(value_of).collect(), names)
}

#[test]
fn flat_names() {
    assert_eq!(anthropic_tool_name("functions", "shell"), "shell");
    assert_eq!(anthropic_tool_name("mcp", "read"), "mcp__read");
    assert_eq!(anthropic_tool_name("", "read"), "__read");
}

#[test]
fn shown_names() {
    assert_eq!(ToolName::plain("read").shown(), "read");
    assert_eq!(ToolName::namespaced("mcp", "read").shown(), "mcpread");
    assert_eq!(
        ToolName::new(Some("mcp".to_string()), "read".to_string()),
        ToolName::namespaced("mcp", "read")
    );
    assert!(!ToolName::plain("read").same(&ToolName::namespaced("mcp", "read")));
}

#[test]
fn names_lead_back() {
    let (_, names) = taken(
        r#"[{"type":"namespace","name":"mcp","tools":[{"type":"custom","name":"read"}]},
            {"type":"function","name":"shell"}]"#,
    );
    let read = ToolName::namespaced("mcp", "read");
    assert_eq!(names.anthropic_name(&read), Some("mcp__read"));
    assert_eq!(names.tool_name("mcp__read"), read);
    assert_eq!(names.tool_kind("mcp__read"), AnthropicToolKind::Custom);
    assert_eq!(names.tool_kind("shell"), AnthropicToolKind::Function);
    assert_eq!(names.anthropic_name(&ToolName::plain("read")), None);
    assert_eq!(names.tool_name("read"), ToolName::plain("read"));
    assert_eq!(names.tool_kind("read"), AnthropicToolKind::Function);
}

#[test]
fn colliding_names_are_refused() {
    assert_eq!(
        refusal(
            r#"[{"type":"namespace","name":"a","tools":[{"type":"function","name":"b__c"}]},
                {"type":"namespace","name":"a__b","tools":[{"type":"function","name":"c"}]}]"#
        ),
        "Anthropic tool name collision for a__b__c"
    );
}

#[test]
fn a_second_name_for_a_tool_is_refused_and_changes_nothing() {
    let mut names = AnthropicToolNameMap::default();
    let tool = || ToolName::namespaced("mcp", "read");
    assert!(names
        .insert("one".to_string(), tool(), AnthropicToolKind::Function)
        .is_ok());
    assert_eq!(
        names.insert("two".to_string(), tool(), AnthropicToolKind::Custom),
        Err(ApiError::Stream(
            "multiple Anthropic tool names map to mcpread".to_string()
        ))
    );
    assert_eq!(names.anthropic_name(&tool()), Some("one"));
    assert_eq!(names.tool_name("two"), ToolName::plain("two"));
    assert!(names
        .insert("one".to_string(), tool(), AnthropicToolKind::Custom)
        .is_ok());
    assert_eq!(names.tool_kind("one"), AnthropicToolKind::Custom);
}

#[test]
fn a_tool_listed_twice_is_sent_twice_under_one_name() {
    let (tools, names) = taken(
        r#"[{"type":"function","name":"a","description":"first"},
            {"type":"custom","name":"a","description":"second"}]"#,
    );
    assert_eq!(tools.len(), 2);
    assert_eq!(tools[0]["name"], "a");
    assert_eq!(tools[1]["name"], "a");
    assert_eq!(names.tool_kind("a"), AnthropicToolKind::Custom);
}

#[test]
fn namespace_members_are_functions_or_custom_tools() {
    for member in [r#"{"type":"namespace","name":"x"}"#, r#"{"name":"x"}"#, "7"] {
        assert_eq!(
            refusal(&format!(
                r#"[{{"type":"namespace","name":"mcp","tools":[{member}]}}]"#
            )),
            "Anthropic Messages only supports function-compatible namespace tools"
        );
    }
}

#[test]
fn what_is_no_tool_is_passed_over() {
    let (tools, _) = taken(
        r#"[{"type":"function"}, {"type":"custom","name":7}, {"type":"namespace","tools":[1]},
            {"type":"namespace","name":"n"}, {"type":"namespace","name":"n","tools":"t"},
            {"type":"namespace","name":"n","tools":[{"type":"function"}]},
            {"type":"local_shell","name":"l"}, {"name":"m"}, null, 3]"#,
    );
    assert!(tools.is_empty());
}

#[test]
fn tool_without_details() {
    let bare = document(&json(r#"{"type":"function"}"#));
    let converted = function_tool_to_anthropic(&bare, "x").expect("tool");
    assert_eq!(
        value_of(&converted),
        json(
            r#"{"name":"x","description":"","input_schema":{"type":"object","properties":{}}}"#
        )
    );
    let odd = document(&json(r#"{"description":1,"parameters":null}"#));
    let converted = function_tool_to_anthropic(&odd, "y").expect("tool");
    assert_eq!(
        value_of(&converted),
        json(r#"{"name":"y","description":"","input_schema":null}"#)
    );
}

#[test]
fn choices() {
    assert!(anthropic_tool_choice("none", true).is_none());
    for (choice, kind) in [
        ("auto", "auto"),
        ("required", "any"),
        ("any", "any"),
        ("", "auto"),
    ] {
        let json = value_of(&anthropic_tool_choice(choice, false).expect("choice"));
        assert_eq!(json["type"], kind);
        assert_eq!(json["disable_parallel_tool_use"], true);
    }
}

#[test]
fn tools_come_out_in_order() {
    let (tools, _) = taken(
        r#"[{"type":"custom","name":"z"}, {"type":"function"},
            {"type":"namespace","name":"n","tools":[
                {"type":"function","name":"y"}, {"type":"custom"}, {"type":"custom","name":"x"}
            ]},
            {"type":"other","name":"o"}, {"type":"function","name":"a"}]"#,
    );
    let names: Vec<&str> = tools
        .iter()
        .map(|tool| tool["name"].as_str().expect("name"))
        .collect();
    assert_eq!(names, ["z", "n__y", "n__x", "a"]);
    assert!(tools.iter().all(|tool| tool.get("cache_control").is_none()));
}

#[test]
fn a_copy_of_the_names_is_a_map_of_its_own() {
    let (_, mut names) = taken(r#"[{"type":"custom","name":"a"}]"#);
    let copy = names.clone();
    assert_eq!(copy.tool_kind("a"), AnthropicToolKind::Custom);
    assert_eq!(copy.anthropic_name(&ToolName::plain("a")), Some("a"));
    assert!(names
        .insert(
            "b".to_string(),
            ToolName::namespaced("m", "b"),
            AnthropicToolKind::Function
        )
        .is_ok());
    assert_eq!(copy.tool_name("b"), ToolName::plain("b"));
}
