use anthropic_messages::error::ApiError;
use anthropic_messages::instructions::ANTHROPIC_MESSAGES_SHELL_RELIABILITY_INSTRUCTIONS;
use anthropic_messages::json::Json;
use anthropic_messages::protocol::{
    ContentItem, FunctionCallOutputPayload, Reasoning, ReasoningEffort, ResponseItem,
    ResponsesApiRequest, TextControls, TextFormat,
};
use anthropic_messages::request::{
    anthropic_messages_request, append_system_text, function_call_input,
    messages_request_with_tools, AnthropicMessagesRequest, AnthropicPromptCaching,
};
use anthropic_messages::tool_names::ToolName;
use anthropic_messages::value::{document, value_of};
use serde_json::Value;

fn json(text: &str) -> Value {
    serde_json::from_str(text).expect("valid JSON")
}

fn request(input: Vec<ResponseItem>, tools: Option<&str>) -> ResponsesApiRequest {
    ResponsesApiRequest {
        model: "anthropic/sonnet-5".to_string(),
        instructions: "Base instructions".to_string(),
        input,
        tools: tools.map(|tools| tools.to_string()),
        tool_choice: "auto".to_string(),
        parallel_tool_calls: true,
        reasoning: None,
        text: None,
        service_tier: None,
    }
}

fn message(role: &str, text: &str) -> ResponseItem {
    ResponseItem::Message {
        id: None,
        role: role.to_string(),
        content: vec![ContentItem::InputText {
            text: text.to_string(),
        }],
        phase: None,
        internal_chat_message_metadata_passthrough: None,
    }
}

fn call(name: &str, namespace: Option<&str>, arguments: &str) -> ResponseItem {
    ResponseItem::FunctionCall {
        id: None,
        name: name.to_string(),
        namespace: namespace.map(|namespace| namespace.to_string()),
        arguments: arguments.to_string(),
        encrypted_function_args: None,
        call_id: "toolu_123".to_string(),
        internal_chat_message_metadata_passthrough: None,
    }
}

fn made(request: ResponsesApiRequest, caching: AnthropicPromptCaching) -> AnthropicMessagesRequest {
    anthropic_messages_request(request, caching).expect("convert request")
}

fn body(request: ResponsesApiRequest, caching: AnthropicPromptCaching) -> Value {
    value_of(&made(request, caching).body)
}

fn refusal(request: ResponsesApiRequest) -> String {
    match anthropic_messages_request(request, AnthropicPromptCaching::Disabled) {
        Ok(_) => panic!("expected a refusal"),
        Err(ApiError::Stream(message)) => message,
    }
}

fn system(lead: &str) -> String {
    format!("{lead}\n\n{ANTHROPIC_MESSAGES_SHELL_RELIABILITY_INSTRUCTIONS}")
}

fn set(value: &mut Value, key: &str, field: Value) {
    value[key] = field;
}

#[test]
fn converts_messages_and_function_tools() {
    let tools = r#"[
        {
            "type": "function",
            "name": "shell",
            "description": "Run a shell command.",
            "parameters": { "type": "object", "properties": { "command": { "type": "string" } } }
        }
    ]"#;
    let actual = body(
        request(
            vec![
                message("developer", "Provider-specific instructions"),
                message("user", "Inspect the repository"),
                message("assistant", ""),
                call("shell", None, r#"{"command":"pwd"}"#),
            ],
            Some(tools),
        ),
        AnthropicPromptCaching::Disabled,
    );

    let mut expected = json(
        r#"{
            "model": "anthropic/sonnet-5",
            "max_tokens": 8192,
            "stream": true,
            "messages": [
                { "role": "user", "content": [{ "type": "text", "text": "Inspect the repository" }] },
                { "role": "assistant", "content": [{ "type": "tool_use", "id": "toolu_123", "name": "shell", "input": { "command": "pwd" } }] }
            ],
            "tools": [{
                "name": "shell",
                "description": "Run a shell command.",
                "input_schema": { "type": "object", "properties": { "command": { "type": "string" } } }
            }],
            "tool_choice": { "type": "auto", "disable_parallel_tool_use": false }
        }"#,
    );
    set(
        &mut expected,
        "system",
        Value::String(system("Base instructions\n\nProvider-specific instructions")),
    );
    assert_eq!(actual, expected);
}

#[test]
fn appends_user_continuation_after_assistant_prefill() {
    let actual = body(
        request(
            vec![
                message("user", "Inspect the repository"),
                message("assistant", "Continue"),
            ],
            None,
        ),
        AnthropicPromptCaching::Disabled,
    );

    assert_eq!(
        actual["messages"],
        json(
            r#"[
                {
                    "role": "user",
                    "content": [{ "type": "text", "text": "Inspect the repository" }]
                },
                {
                    "role": "assistant",
                    "content": [{ "type": "text", "text": "Continue" }]
                },
                {
                    "role": "user",
                    "content": [{ "type": "text", "text": "Continue." }]
                }
            ]"#
        )
    );
}

#[test]
fn adds_prompt_cache_breakpoints_when_enabled() {
    let tools = r#"[
        {
            "type": "function",
            "name": "shell",
            "description": "Run a shell command.",
            "parameters": { "type": "object" }
        },
        {
            "type": "function",
            "name": "read_file",
            "description": "Read a file.",
            "parameters": { "type": "object" }
        }
    ]"#;
    let actual = body(
        request(vec![message("user", "Inspect the repository")], Some(tools)),
        AnthropicPromptCaching::SystemAndTools,
    );

    let mut expected = json(
        r#"{
            "model": "anthropic/sonnet-5",
            "max_tokens": 8192,
            "stream": true,
            "system": [{
                "type": "text",
                "text": "",
                "cache_control": { "type": "ephemeral" }
            }],
            "messages": [
                { "role": "user", "content": [{ "type": "text", "text": "Inspect the repository" }] }
            ],
            "tools": [
                {
                    "name": "shell",
                    "description": "Run a shell command.",
                    "input_schema": { "type": "object" }
                },
                {
                    "name": "read_file",
                    "description": "Read a file.",
                    "input_schema": { "type": "object" },
                    "cache_control": { "type": "ephemeral" }
                }
            ],
            "tool_choice": { "type": "auto", "disable_parallel_tool_use": false }
        }"#,
    );
    set(
        &mut expected["system"][0],
        "text",
        Value::String(format!(
            "Base instructions\n\n{ANTHROPIC_MESSAGES_SHELL_RELIABILITY_INSTRUCTIONS}"
        )),
    );
    assert_eq!(actual, expected);
}

#[test]
fn adds_rolling_history_cache_checkpoint_before_latest_message() {
    let actual = body(
        request(
            vec![
                message("user", "First question"),
                message("assistant", "First answer"),
                message("user", "Second question"),
            ],
            None,
        ),
        AnthropicPromptCaching::RollingHistory,
    );

    let mut expected = json(
        r#"{
            "model": "anthropic/sonnet-5",
            "max_tokens": 8192,
            "stream": true,
            "system": [{
                "type": "text",
                "text": "",
                "cache_control": { "type": "ephemeral" }
            }],
            "messages": [
                { "role": "user", "content": [{ "type": "text", "text": "First question" }] },
                { "role": "assistant", "content": [{
                    "type": "text",
                    "text": "First answer",
                    "cache_control": { "type": "ephemeral" }
                }] },
                { "role": "user", "content": [{ "type": "text", "text": "Second question" }] }
            ]
        }"#,
    );
    set(
        &mut expected["system"][0],
        "text",
        Value::String(format!(
            "Base instructions\n\n{ANTHROPIC_MESSAGES_SHELL_RELIABILITY_INSTRUCTIONS}"
        )),
    );
    assert_eq!(actual, expected);
}

#[test]
fn adds_shell_reliability_instructions_for_messages_models() {
    let first_body = body(
        request(vec![message("user", "Inspect the repository")], None),
        AnthropicPromptCaching::Disabled,
    );
    assert_eq!(
        first_body["system"],
        format!("Base instructions\n\n{ANTHROPIC_MESSAGES_SHELL_RELIABILITY_INSTRUCTIONS}")
    );

    let mut second_request = request(vec![message("user", "Inspect the repository")], None);
    second_request.model = "custom/model".to_string();
    let second_body = body(second_request, AnthropicPromptCaching::Disabled);
    assert_eq!(
        second_body["system"],
        format!("Base instructions\n\n{ANTHROPIC_MESSAGES_SHELL_RELIABILITY_INSTRUCTIONS}")
    );
}

#[test]
fn preserves_namespaced_tool_identity() {
    let tools = r#"[
        {
            "type": "namespace",
            "name": "mcp__figma",
            "description": "Figma tools",
            "tools": [{
                "type": "function",
                "name": "get_figma_data",
                "description": "Read Figma data.",
                "parameters": { "type": "object" }
            }]
        }
    ]"#;
    let request = made(
        request(
            vec![call(
                "get_figma_data",
                Some("mcp__figma"),
                r#"{"fileKey":"design"}"#,
            )],
            Some(tools),
        ),
        AnthropicPromptCaching::Disabled,
    );
    let sent = value_of(&request.body);

    assert_eq!(
        sent["tools"],
        json(
            r#"[{
                "name": "mcp__figma__get_figma_data",
                "description": "Read Figma data.",
                "input_schema": { "type": "object" }
            }]"#
        )
    );
    assert_eq!(
        sent["messages"][0]["content"][0]["name"],
        "mcp__figma__get_figma_data"
    );
    assert_eq!(
        sent["tool_choice"],
        json(r#"{ "type": "auto", "disable_parallel_tool_use": false }"#)
    );
    assert_eq!(
        request
            .tool_name_map
            .tool_name("mcp__figma__get_figma_data"),
        ToolName::namespaced("mcp__figma", "get_figma_data")
    );
}

#[test]
fn maps_tool_choice_and_parallel_tool_calls() {
    let tools = r#"[
        {
            "type": "function",
            "name": "shell",
            "description": "Run a shell command.",
            "parameters": { "type": "object" }
        }
    ]"#;
    let mut no_parallel_request = request(Vec::new(), Some(tools));
    no_parallel_request.parallel_tool_calls = false;
    let no_parallel_body = body(no_parallel_request, AnthropicPromptCaching::Disabled);
    assert_eq!(
        no_parallel_body["tool_choice"],
        json(r#"{ "type": "auto", "disable_parallel_tool_use": true }"#)
    );

    let mut no_tools_request = request(Vec::new(), Some(tools));
    no_tools_request.tool_choice = "none".to_string();
    let no_tools_body = body(no_tools_request, AnthropicPromptCaching::Disabled);
    assert!(no_tools_body.get("tools").is_none());
    assert!(no_tools_body.get("tool_choice").is_none());
}

#[test]
fn maps_reasoning_structured_output_and_service_tier() {
    let mut request = request(Vec::new(), None);
    request.reasoning = Some(Reasoning {
        effort: Some(ReasoningEffort::High),
    });
    request.text = Some(TextControls {
        format: Some(TextFormat {
            strict: true,
            schema: document(&json(
                r#"{"type": "object", "properties": {"ok": {"type": "boolean"}}}"#,
            )),
            name: "result".to_string(),
        }),
    });
    request.service_tier = Some("priority".to_string());

    let body = body(request, AnthropicPromptCaching::Disabled);

    assert_eq!(body["max_tokens"], 9216);
    assert_eq!(
        body["thinking"],
        json(r#"{"type": "enabled", "budget_tokens": 8192}"#)
    );
    assert_eq!(
        body["output_config"],
        json(
            r#"{
                "format": {
                    "type": "json_schema",
                    "schema": {"type": "object", "properties": {"ok": {"type": "boolean"}}}
                }
            }"#
        )
    );
    assert_eq!(body["service_tier"], "priority");
}

#[test]
fn converts_responses_lite_additional_tools() {
    let mut request = request(
        vec![ResponseItem::AdditionalTools {
            tools: vec![document(&json(
                r#"{
                    "type": "namespace",
                    "name": "functions",
                    "tools": [{
                        "type": "function",
                        "name": "shell",
                        "description": "Run a command.",
                        "parameters": {"type": "object"}
                    }]
                }"#,
            ))],
        }],
        None,
    );
    request.input.push(message("user", "run it"));

    let body = body(request, AnthropicPromptCaching::Disabled);
    assert_eq!(
        body["tools"],
        json(
            r#"[{
                "name": "shell",
                "description": "Run a command.",
                "input_schema": {"type": "object"}
            }]"#
        )
    );
}

#[test]
fn converts_custom_tools_to_function_compatible_tools() {
    let tools = r#"[
        {
            "type": "custom",
            "name": "custom_echo",
            "description": "Echo a custom payload.",
            "format": {
                "type": "grammar",
                "syntax": "lark",
                "definition": "start: /.+/"
            }
        }
    ]"#;
    let body = body(
        request(Vec::new(), Some(tools)),
        AnthropicPromptCaching::Disabled,
    );

    assert_eq!(
        body["tools"],
        json(
            r#"[{
                "name": "custom_echo",
                "description": "Echo a custom payload.",
                "input_schema": {
                    "type": "object",
                    "properties": { "input": { "type": "string" } },
                    "required": ["input"],
                    "additionalProperties": false
                }
            }]"#
        )
    );
}

#[test]
fn tool_list_that_is_no_json_is_refused() {
    let message = refusal(request(Vec::new(), Some("[")));
    let reason = serde_json::from_str::<Value>("[").unwrap_err().to_string();
    assert_eq!(
        message,
        format!("failed to serialize Responses tools: {reason}")
    );
}

#[test]
fn tool_list_that_is_no_array_holds_no_tools() {
    let body = body(
        request(Vec::new(), Some(r#"{"type":"web_search"}"#)),
        AnthropicPromptCaching::Disabled,
    );
    assert!(body.get("tools").is_none());
    assert!(body.get("tool_choice").is_none());
}

#[test]
fn hosted_search_is_refused_even_where_no_tool_may_be_used() {
    for kind in ["web_search", "tool_search"] {
        let tools = format!(r#"[{{"type":"{kind}"}}]"#);
        let mut request = request(Vec::new(), Some(&tools));
        request.tool_choice = "none".to_string();
        assert_eq!(
            refusal(request),
            "Anthropic Messages does not support hosted search tools"
        );
    }
}

#[test]
fn request_with_a_parsed_tool_list() {
    let listed = vec![document(&json(r#"{"type":"function","name":"a"}"#))];
    let made = messages_request_with_tools(
        request(Vec::new(), Some("[")),
        listed,
        AnthropicPromptCaching::Disabled,
    )
    .expect("convert request");
    assert_eq!(
        value_of(&made.body)["tools"],
        json(
            r#"[{
                "name": "a",
                "description": "",
                "input_schema": { "type": "object", "properties": {} }
            }]"#
        )
    );
}

#[test]
fn required_and_any_choices_force_a_tool() {
    let tools = r#"[{"type":"function","name":"a"}]"#;
    for choice in ["required", "any"] {
        let mut request = request(Vec::new(), Some(tools));
        request.tool_choice = choice.to_string();
        let body = body(request, AnthropicPromptCaching::Disabled);
        assert_eq!(body["tool_choice"]["type"], "any");
    }
}

#[test]
fn calls_and_results_take_turns() {
    let output = |text: &str| FunctionCallOutputPayload {
        serialized: Some(Json::string(text)),
    };
    let body = body(
        request(
            vec![
                message("user", "go"),
                message("user", "on"),
                call("shell", None, "no JSON"),
                ResponseItem::CustomToolCall {
                    id: None,
                    status: None,
                    call_id: "c2".to_string(),
                    name: "echo".to_string(),
                    namespace: None,
                    input: "hello".to_string(),
                    internal_chat_message_metadata_passthrough: None,
                },
                ResponseItem::FunctionCallOutput {
                    call_id: Some("toolu_123".to_string()),
                    output: output("done"),
                },
                ResponseItem::FunctionCallOutput {
                    call_id: None,
                    output: output("lost"),
                },
                ResponseItem::CustomToolCallOutput {
                    call_id: "c2".to_string(),
                    output: output(" "),
                },
                ResponseItem::Other,
                message("tool", "unknown role"),
            ],
            None,
        ),
        AnthropicPromptCaching::RollingHistory,
    );
    assert_eq!(
        body["messages"],
        json(
            r#"[
                { "role": "user", "content": [
                    { "type": "text", "text": "go" },
                    { "type": "text", "text": "on" }
                ] },
                { "role": "assistant", "content": [
                    { "type": "tool_use", "id": "toolu_123", "name": "shell", "input": {} },
                    { "type": "tool_use", "id": "c2", "name": "echo", "input": { "input": "hello" } }
                ] },
                { "role": "user", "content": [
                    { "type": "tool_result", "tool_use_id": "toolu_123", "content": "done",
                      "cache_control": { "type": "ephemeral" } },
                    { "type": "tool_result", "tool_use_id": "c2",
                      "content": "Tool completed with no output." }
                ] }
            ]"#
        )
    );
}

#[test]
fn assistant_turn_that_calls_a_tool_is_no_prefill() {
    let body = body(
        request(vec![message("user", "go"), call("shell", None, "{}")], None),
        AnthropicPromptCaching::Disabled,
    );
    let messages = body["messages"].as_array().expect("messages");
    assert_eq!(messages.len(), 2);
    assert_eq!(messages[1]["role"], "assistant");
}

#[test]
fn a_latest_message_that_says_nothing_leaves_no_checkpoint() {
    let body = body(
        request(
            vec![
                message("user", "First question"),
                message("assistant", "First answer"),
                message("user", "  "),
            ],
            None,
        ),
        AnthropicPromptCaching::RollingHistory,
    );
    assert_eq!(
        body["messages"],
        json(
            r#"[
                { "role": "user", "content": [{ "type": "text", "text": "First question" }] },
                { "role": "assistant", "content": [{ "type": "text", "text": "First answer" }] },
                { "role": "user", "content": [{ "type": "text", "text": "Continue." }] }
            ]"#
        )
    );
}

#[test]
fn blank_instructions_leave_only_those_for_the_shell() {
    let mut request = request(vec![message("system", "\n"), message("user", "go")], None);
    request.instructions = String::new();
    let body = body(request, AnthropicPromptCaching::Disabled);
    assert_eq!(
        body["system"],
        ANTHROPIC_MESSAGES_SHELL_RELIABILITY_INSTRUCTIONS
    );
}

#[test]
fn system_text_gets_a_paragraph_of_its_own() {
    let mut system = "  ".to_string();
    append_system_text(&mut system, "first");
    assert_eq!(system, "  first");
    append_system_text(&mut system, "\u{3000}");
    assert_eq!(system, "  first");
    append_system_text(&mut system, "second");
    assert_eq!(system, "  first\n\nsecond");
}

#[test]
fn arguments_that_are_no_json_become_an_empty_object() {
    assert_eq!(
        value_of(&function_call_input(Err("reason".to_string()))),
        json("{}")
    );
    assert_eq!(value_of(&function_call_input(Ok(Json::Null))), Value::Null);
}

#[test]
fn history_is_the_start_of_a_longer_history() {
    let items = || {
        vec![
            message("user", "a"),
            call("shell", None, "{}"),
            ResponseItem::FunctionCallOutput {
                call_id: Some("toolu_123".to_string()),
                output: FunctionCallOutputPayload {
                    serialized: Some(Json::string("b")),
                },
            },
        ]
    };
    let short = body(request(items(), None), AnthropicPromptCaching::Disabled);
    let mut longer = items();
    longer.push(message("user", "c"));
    let long = body(request(longer, None), AnthropicPromptCaching::Disabled);
    assert_eq!(short["messages"][0], long["messages"][0]);
    assert_eq!(short["messages"][1], long["messages"][1]);
    assert_eq!(
        short["messages"][2]["content"][0],
        long["messages"][2]["content"][0]
    );
    assert_eq!(long["messages"][2]["content"][1]["text"], "c");
}

#[test]
fn items_that_are_passed_over_bring_only_their_tools() {
    let brought = r#"{"type":"function","name":"brought"}"#;
    let listed = r#"{"type":"function","name":"listed"}"#;
    let lost = FunctionCallOutputPayload {
        serialized: Some(Json::string("lost")),
    };
    let with = body(
        request(
            vec![
                message("critic", "unheard"),
                message("user", "go"),
                ResponseItem::FunctionCallOutput {
                    call_id: None,
                    output: lost,
                },
                ResponseItem::AdditionalTools {
                    tools: vec![document(&json(brought))],
                },
                ResponseItem::WebSearchCall,
            ],
            Some(&format!("[{listed}]")),
        ),
        AnthropicPromptCaching::RollingHistory,
    );
    let without = body(
        request(
            vec![message("user", "go")],
            Some(&format!("[{listed},{brought}]")),
        ),
        AnthropicPromptCaching::RollingHistory,
    );
    assert_eq!(with, without);
}

#[test]
fn without_caching_nothing_is_marked() {
    let items = || {
        vec![
            message("user", "go"),
            call("shell", None, "{}"),
            message("assistant", "on"),
            message("user", "more"),
        ]
    };
    let tools = r#"[{"type":"function","name":"shell","cache_control":{}}]"#;
    let marks = |caching| {
        body(request(items(), Some(tools)), caching)
            .to_string()
            .matches("cache_control")
            .count()
    };
    assert_eq!(marks(AnthropicPromptCaching::Disabled), 0);
    assert_eq!(marks(AnthropicPromptCaching::SystemAndTools), 2);
    assert_eq!(marks(AnthropicPromptCaching::RollingHistory), 3);
}
