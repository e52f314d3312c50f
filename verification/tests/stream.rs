use anthropic_messages::error::ApiError;
use anthropic_messages::events::{
    AnthropicContentBlock, AnthropicDelta, AnthropicError, AnthropicEvent, AnthropicMessage,
    AnthropicUsage, ResponseEvent, TokenUsage,
};
use anthropic_messages::json::Json;
use anthropic_messages::protocol::{
    ContentItem, ReasoningItemContent, ResponseItem, ResponseItemId, ResponsesApiRequest,
};
use anthropic_messages::request::{anthropic_messages_request, AnthropicPromptCaching};
use anthropic_messages::stream::{
    custom_tool_input, free_text_of, MessagesStream, StreamAction, StreamInput,
};
use anthropic_messages::tool_names::{AnthropicToolKind, AnthropicToolNameMap, ToolName};
use anthropic_messages::value::{document, value_of};
use serde_json::Value;

fn text(value: &Value, key: &str) -> Option<String> {
    value.get(key).and_then(Value::as_str).map(str::to_string)
}

fn tokens(value: &Value, key: &str) -> i64 {
    value.get(key).and_then(Value::as_i64).unwrap_or(0)
}

fn usage(value: &Value) -> AnthropicUsage {
    AnthropicUsage {
        input_tokens: tokens(value, "input_tokens"),
        output_tokens: tokens(value, "output_tokens"),
        cache_read_input_tokens: tokens(value, "cache_read_input_tokens"),
        cache_creation_input_tokens: tokens(value, "cache_creation_input_tokens"),
    }
}

/// The event in the data line of a server-sent event.
fn event(sse: &str) -> AnthropicEvent {
    let data = sse
        .lines()
        .find_map(|line| line.strip_prefix("data: "))
        .expect("data line");
    let value: Value = serde_json::from_str(data).expect("valid JSON");
    AnthropicEvent {
        kind: text(&value, "type").expect("type"),
        message: value.get("message").map(|message| AnthropicMessage {
            id: text(message, "id").expect("id"),
            usage: usage(&message["usage"]),
        }),
        index: value
            .get("index")
            .and_then(Value::as_u64)
            .map(|index| index as usize),
        content_block: value.get("content_block").map(|block| AnthropicContentBlock {
            kind: text(block, "type").expect("type"),
            text: text(block, "text"),
            id: text(block, "id"),
            name: text(block, "name"),
            input: block.get("input").map(document),
            thinking: text(block, "thinking"),
        }),
        delta: value.get("delta").map(|delta| AnthropicDelta {
            kind: text(delta, "type").expect("type"),
            text: text(delta, "text"),
            thinking: text(delta, "thinking"),
            partial_json: text(delta, "partial_json"),
            stop_reason: text(delta, "stop_reason"),
        }),
        usage: value.get("usage").map(usage),
        error: value.get("error").map(|error| AnthropicError {
            kind: text(error, "type").expect("type"),
            message: text(error, "message").expect("message"),
        }),
    }
}

fn run_all(events: &[&str], names: AnthropicToolNameMap) -> Vec<Result<ResponseEvent, ApiError>> {
    let mut stream = MessagesStream::new(names);
    let mut sent = Vec::new();
    for (count, sse) in events.iter().enumerate() {
        let StreamAction { send, done } =
            stream.advance(StreamInput::Event(event(sse)), &format!("{count}"));
        sent.extend(send);
        if done {
            return sent;
        }
    }
    panic!("expected the stream to end");
}

fn run(events: &[&str], names: AnthropicToolNameMap) -> Vec<ResponseEvent> {
    run_all(events, names)
        .into_iter()
        .map(|event| event.expect("valid stream event"))
        .collect()
}

const START: &str = "event: message_start\ndata: {\"type\":\"message_start\",\"message\":{\"id\":\"msg_123\",\"usage\":{}}}\n\n";
const STOP: &str = "event: message_stop\ndata: {\"type\":\"message_stop\"}\n\n";
const BLOCK_STOP: &str =
    "event: content_block_stop\ndata: {\"type\":\"content_block_stop\",\"index\":0}\n\n";

#[test]
fn translates_tool_use_stream_events() {
    let events = [
        "event: message_start\ndata: {\"type\":\"message_start\",\"message\":{\"id\":\"msg_123\",\"usage\":{\"input_tokens\":10,\"cache_read_input_tokens\":2,\"cache_creation_input_tokens\":4}}}\n\n",
        "event: content_block_start\ndata: {\"type\":\"content_block_start\",\"index\":0,\"content_block\":{\"type\":\"tool_use\",\"id\":\"toolu_123\",\"name\":\"shell\",\"input\":{}}}\n\n",
        "event: content_block_delta\ndata: {\"type\":\"content_block_delta\",\"index\":0,\"delta\":{\"type\":\"input_json_delta\",\"partial_json\":\"{\\\"command\\\":\\\"pwd\\\"}\"}}\n\n",
        "event: content_block_stop\ndata: {\"type\":\"content_block_stop\",\"index\":0}\n\n",
        "event: message_delta\ndata: {\"type\":\"message_delta\",\"usage\":{\"output_tokens\":3},\"delta\":{\"type\":\"text_delta\",\"stop_reason\":\"tool_use\"}}\n\n",
        "event: message_stop\ndata: {\"type\":\"message_stop\"}\n\n",
    ];
    let actual = run(&events, AnthropicToolNameMap::default());

    assert_eq!(actual.len(), 5);
    assert!(matches!(actual[0], ResponseEvent::Created { .. }));
    assert!(matches!(actual[1], ResponseEvent::OutputItemAdded(_)));
    assert!(matches!(
        actual[2],
        ResponseEvent::ToolCallInputDelta { .. }
    ));
    assert!(matches!(
        &actual[3],
        ResponseEvent::OutputItemDone(ResponseItem::FunctionCall { arguments, .. })
            if arguments == r#"{"command":"pwd"}"#
    ));
    assert!(matches!(
        actual[4],
        ResponseEvent::Completed {
            ref response_id,
            token_usage: Some(TokenUsage {
                input_tokens: 10,
                cached_input_tokens: 2,
                cache_write_input_tokens: 4,
                output_tokens: 3,
                total_tokens: 13,
                ..
            }),
            ..
        } if response_id == "msg_123"
    ));
}

#[test]
fn restores_namespaced_tool_identity_from_anthropic_name() {
    let events = [
        "event: message_start\ndata: {\"type\":\"message_start\",\"message\":{\"id\":\"msg_123\",\"usage\":{}}}\n\n",
        "event: content_block_start\ndata: {\"type\":\"content_block_start\",\"index\":0,\"content_block\":{\"type\":\"tool_use\",\"id\":\"toolu_123\",\"name\":\"mcp__figma__get_figma_data\",\"input\":{\"fileKey\":\"design\"}}}\n\n",
        "event: content_block_stop\ndata: {\"type\":\"content_block_stop\",\"index\":0}\n\n",
        "event: message_stop\ndata: {\"type\":\"message_stop\"}\n\n",
    ];
    let mut tool_name_map = AnthropicToolNameMap::default();
    tool_name_map
        .insert(
            "mcp__figma__get_figma_data".to_string(),
            ToolName::namespaced("mcp__figma", "get_figma_data"),
            AnthropicToolKind::Function,
        )
        .expect("insert tool name mapping");
    let actual = run(&events, tool_name_map);

    assert!(matches!(
        &actual[2],
        ResponseEvent::OutputItemDone(ResponseItem::FunctionCall {
            name,
            namespace,
            arguments,
            ..
        }) if name == "get_figma_data"
            && namespace.as_deref() == Some("mcp__figma")
            && arguments == r#"{"fileKey":"design"}"#
    ));
}

#[test]
fn preserves_text_in_the_completed_message() {
    let events = [
        "event: message_start\ndata: {\"type\":\"message_start\",\"message\":{\"id\":\"msg_123\",\"usage\":{}}}\n\n",
        "event: content_block_start\ndata: {\"type\":\"content_block_start\",\"index\":0,\"content_block\":{\"type\":\"text\",\"text\":\"\"}}\n\n",
        "event: content_block_delta\ndata: {\"type\":\"content_block_delta\",\"index\":0,\"delta\":{\"type\":\"text_delta\",\"text\":\"你好\"}}\n\n",
        "event: content_block_stop\ndata: {\"type\":\"content_block_stop\",\"index\":0}\n\n",
        "event: message_stop\ndata: {\"type\":\"message_stop\"}\n\n",
    ];
    let actual = run(&events, AnthropicToolNameMap::default());

    assert_eq!(actual.len(), 5);
    let added_id = match &actual[1] {
        ResponseEvent::OutputItemAdded(ResponseItem::Message { id, .. }) => id,
        _ => panic!("expected an added assistant message"),
    };
    assert!(matches!(
        &actual[2],
        ResponseEvent::OutputTextDelta(text) if text == "你好"
    ));
    match &actual[3] {
        ResponseEvent::OutputItemDone(ResponseItem::Message {
            id,
            role,
            content,
            phase,
            internal_chat_message_metadata_passthrough,
        }) => {
            assert_eq!(id, added_id);
            assert_eq!(role, "assistant");
            assert_eq!(
                content,
                &[ContentItem::OutputText {
                    text: "你好".to_string(),
                }]
            );
            assert_eq!(phase, &None);
            assert!(internal_chat_message_metadata_passthrough.is_none());
        }
        _ => panic!("expected a completed assistant message"),
    }
    assert!(matches!(actual[4], ResponseEvent::Completed { .. }));
}

#[test]
fn translates_function_compatible_custom_tool_events() {
    let events = [
        "event: message_start\ndata: {\"type\":\"message_start\",\"message\":{\"id\":\"msg_123\",\"usage\":{}}}\n\n",
        "event: content_block_start\ndata: {\"type\":\"content_block_start\",\"index\":0,\"content_block\":{\"type\":\"tool_use\",\"id\":\"toolu_123\",\"name\":\"custom_echo\",\"input\":{}}}\n\n",
        "event: content_block_delta\ndata: {\"type\":\"content_block_delta\",\"index\":0,\"delta\":{\"type\":\"input_json_delta\",\"partial_json\":\"{\\\"input\\\":\\\"hello\\\"}\"}}\n\n",
        "event: content_block_stop\ndata: {\"type\":\"content_block_stop\",\"index\":0}\n\n",
        "event: message_stop\ndata: {\"type\":\"message_stop\"}\n\n",
    ];
    let mut tool_name_map = AnthropicToolNameMap::default();
    tool_name_map
        .insert(
            "custom_echo".to_string(),
            ToolName::plain("custom_echo"),
            AnthropicToolKind::Custom,
        )
        .expect("insert custom tool name mapping");
    let actual = run(&events, tool_name_map);

    assert!(matches!(
        &actual[1],
        ResponseEvent::OutputItemAdded(ResponseItem::CustomToolCall { input, .. })
            if input.is_empty()
    ));
    assert!(matches!(
        &actual[3],
        ResponseEvent::OutputItemDone(ResponseItem::CustomToolCall { input, .. })
            if input == "hello"
    ));
}

#[test]
fn translates_thinking_blocks_to_reasoning_events() {
    let events = [
        "event: message_start\ndata: {\"type\":\"message_start\",\"message\":{\"id\":\"msg_123\",\"usage\":{}}}\n\n",
        "event: content_block_start\ndata: {\"type\":\"content_block_start\",\"index\":0,\"content_block\":{\"type\":\"thinking\",\"thinking\":\"\"}}\n\n",
        "event: content_block_delta\ndata: {\"type\":\"content_block_delta\",\"index\":0,\"delta\":{\"type\":\"thinking_delta\",\"thinking\":\"先检查工具\"}}\n\n",
        "event: content_block_stop\ndata: {\"type\":\"content_block_stop\",\"index\":0}\n\n",
        "event: message_stop\ndata: {\"type\":\"message_stop\"}\n\n",
    ];
    let actual = run(&events, AnthropicToolNameMap::default());

    assert!(matches!(
        actual[1],
        ResponseEvent::OutputItemAdded(ResponseItem::Reasoning { .. })
    ));
    assert!(matches!(
        &actual[2],
        ResponseEvent::ReasoningContentDelta { delta, content_index: 0 } if delta == "先检查工具"
    ));
    assert!(matches!(
        &actual[3],
        ResponseEvent::OutputItemDone(ResponseItem::Reasoning { content: Some(content), .. })
            if content.iter().any(|item| matches!(item, ReasoningItemContent::ReasoningText { text } if text == "先检查工具"))
    ));
    assert!(matches!(actual[4], ResponseEvent::Completed { .. }));
}

fn completed_end_turn_for_stop_reason(stop_reason: Option<&str>) -> Option<bool> {
    let mut events = vec![START.to_string()];
    if let Some(stop_reason) = stop_reason {
        events.push(format!(
            "event: message_delta\ndata: {{\"type\":\"message_delta\",\"delta\":{{\"type\":\"message_delta\",\"stop_reason\":\"{stop_reason}\"}}}}\n\n"
        ));
    }
    events.push(STOP.to_string());
    let events: Vec<&str> = events.iter().map(|event| event.as_str()).collect();
    for event in run(&events, AnthropicToolNameMap::default()) {
        if let ResponseEvent::Completed { end_turn, .. } = event {
            return end_turn;
        }
    }
    panic!("expected a completed event");
}

#[test]
fn only_explicit_tool_use_requests_anthropic_follow_up() {
    assert_eq!(
        completed_end_turn_for_stop_reason(Some("end_turn")),
        Some(true)
    );
    assert_eq!(
        completed_end_turn_for_stop_reason(Some("tool_use")),
        Some(false)
    );
    assert_eq!(completed_end_turn_for_stop_reason(Some("max_tokens")), None);
    assert_eq!(
        completed_end_turn_for_stop_reason(Some("stop_sequence")),
        None
    );
    assert_eq!(completed_end_turn_for_stop_reason(Some("pause_turn")), None);
    assert_eq!(
        completed_end_turn_for_stop_reason(Some("unknown_reason")),
        None
    );
    assert_eq!(completed_end_turn_for_stop_reason(None), None);
}

fn error_of(input: StreamInput) -> String {
    let mut stream = MessagesStream::new(AnthropicToolNameMap::default());
    let action = stream.advance(input, "0");
    assert!(action.done);
    match action.send {
        Some(Err(ApiError::Stream(message))) => message,
        _ => panic!("expected an error"),
    }
}

#[test]
fn failures_end_the_stream() {
    assert_eq!(
        error_of(StreamInput::Closed),
        "stream closed before message_stop"
    );
    assert_eq!(
        error_of(StreamInput::IdleTimeout),
        "idle timeout waiting for SSE"
    );
    assert_eq!(error_of(StreamInput::Failed("reset".to_string())), "reset");
    assert_eq!(
        error_of(StreamInput::Event(event(
            "data: {\"type\":\"error\",\"error\":{\"type\":\"overloaded_error\",\"message\":\"Overloaded\"}}"
        ))),
        "overloaded_error: Overloaded"
    );
    assert_eq!(
        error_of(StreamInput::Event(event("data: {\"type\":\"error\"}"))),
        "Anthropic Messages API returned an error"
    );
}

#[test]
fn unreadable_and_unknown_events_are_passed_over() {
    let mut stream = MessagesStream::new(AnthropicToolNameMap::default());
    for input in [
        StreamInput::Unreadable,
        StreamInput::Event(event("data: {\"type\":\"ping\"}")),
        StreamInput::Event(event("data: {\"type\":\"content_block_stop\",\"index\":7}")),
        StreamInput::Event(event("data: {\"type\":\"content_block_start\",\"index\":0}")),
        StreamInput::Event(event(
            "data: {\"type\":\"content_block_start\",\"index\":0,\"content_block\":{\"type\":\"image\"}}",
        )),
        StreamInput::Event(event(
            "data: {\"type\":\"content_block_start\",\"index\":0,\"content_block\":{\"type\":\"tool_use\",\"id\":\"t\"}}",
        )),
        StreamInput::Event(event(
            "data: {\"type\":\"content_block_delta\",\"index\":0,\"delta\":{\"type\":\"text_delta\",\"text\":\"x\"}}",
        )),
    ] {
        let action = stream.advance(input, "0");
        assert!(action.send.is_none());
        assert!(!action.done);
    }
}

#[test]
fn interleaved_blocks_keep_their_own_deltas() {
    let events = [
        START,
        "data: {\"type\":\"content_block_start\",\"index\":0,\"content_block\":{\"type\":\"text\",\"text\":\"a\"}}",
        "data: {\"type\":\"content_block_start\",\"index\":1,\"content_block\":{\"type\":\"thinking\",\"thinking\":\"x\"}}",
        "data: {\"type\":\"content_block_delta\",\"index\":0,\"delta\":{\"type\":\"text_delta\",\"text\":\"b\"}}",
        "data: {\"type\":\"content_block_delta\",\"index\":1,\"delta\":{\"type\":\"thinking_delta\",\"thinking\":\"y\"}}",
        "data: {\"type\":\"content_block_delta\",\"index\":0,\"delta\":{\"type\":\"thinking_delta\",\"thinking\":\"no\"}}",
        "data: {\"type\":\"content_block_delta\",\"index\":0,\"delta\":{\"type\":\"text_delta\",\"text\":\"c\"}}",
        "data: {\"type\":\"content_block_stop\",\"index\":1}",
        BLOCK_STOP,
        BLOCK_STOP,
        STOP,
    ];
    let actual = run(&events, AnthropicToolNameMap::default());
    assert_eq!(actual.len(), 9);
    match &actual[6] {
        ResponseEvent::OutputItemDone(ResponseItem::Reasoning { id, content, .. }) => {
            assert_eq!(id, &Some(ResponseItemId::new("rs", "2")));
            assert_eq!(
                content,
                &Some(vec![ReasoningItemContent::ReasoningText {
                    text: "xy".to_string()
                }])
            );
        }
        _ => panic!("expected reasoning"),
    }
    match &actual[7] {
        ResponseEvent::OutputItemDone(ResponseItem::Message { id, content, .. }) => {
            assert_eq!(id, &Some(ResponseItemId::new("msg", "1")));
            assert_eq!(
                content,
                &[ContentItem::OutputText {
                    text: "abc".to_string()
                }]
            );
        }
        _ => panic!("expected a message"),
    }
}

#[test]
fn call_without_input_gets_an_empty_object_and_a_new_identifier() {
    let events = [
        "data: {\"type\":\"content_block_start\",\"index\":0,\"content_block\":{\"type\":\"tool_use\",\"id\":\"t\",\"name\":\"shell\"}}",
        "data: {\"type\":\"content_block_delta\",\"index\":0,\"delta\":{\"type\":\"input_json_delta\",\"partial_json\":\" \\n\"}}",
        BLOCK_STOP,
        STOP,
    ];
    let actual = run(&events, AnthropicToolNameMap::default());
    match &actual[0] {
        ResponseEvent::OutputItemAdded(ResponseItem::FunctionCall { id, arguments, .. }) => {
            assert_eq!(id, &Some(ResponseItemId::new("fc", "0")));
            assert_eq!(arguments, "");
        }
        _ => panic!("expected a call"),
    }
    match &actual[1] {
        ResponseEvent::ToolCallInputDelta {
            item_id,
            call_id,
            delta,
        } => {
            assert_eq!(item_id, "t");
            assert_eq!(call_id.as_deref(), Some("t"));
            assert_eq!(delta, " \n");
        }
        _ => panic!("expected a delta"),
    }
    match &actual[2] {
        ResponseEvent::OutputItemDone(ResponseItem::FunctionCall {
            id,
            name,
            namespace,
            arguments,
            call_id,
            ..
        }) => {
            assert_eq!(id, &Some(ResponseItemId::new("fc", "2")));
            assert_eq!(name, "shell");
            assert_eq!(namespace, &None);
            assert_eq!(arguments, "{}");
            assert_eq!(call_id, "t");
        }
        _ => panic!("expected a call"),
    }
    match &actual[3] {
        ResponseEvent::Completed { response_id, .. } => assert_eq!(response_id, "anthropic-message"),
        _ => panic!("expected a completion"),
    }
}

#[test]
fn input_of_a_call_is_written_compactly() {
    let events = [
        "data: {\"type\":\"content_block_start\",\"index\":0,\"content_block\":{\"type\":\"tool_use\",\"id\":\"t\",\"name\":\"shell\",\"input\":{\"b\": [1, 2.5, null], \"a\": true}}}",
        BLOCK_STOP,
        STOP,
    ];
    let actual = run(&events, AnthropicToolNameMap::default());
    match &actual[1] {
        ResponseEvent::OutputItemDone(ResponseItem::FunctionCall { arguments, .. }) => {
            assert_eq!(arguments, r#"{"a":true,"b":[1,2.5,null]}"#)
        }
        _ => panic!("expected a call"),
    }
}

#[test]
fn free_text_is_the_field_input() {
    assert_eq!(custom_tool_input(r#"{"input":"hi"}"#.to_string()), "hi");
    assert_eq!(
        custom_tool_input(r#"{"input":1}"#.to_string()),
        r#"{"input":1}"#
    );
    assert_eq!(custom_tool_input("plain".to_string()), "plain");
    assert_eq!(
        free_text_of(
            Ok(Json::object().with("input", Json::string("x"))),
            "y".to_string()
        ),
        "x"
    );
    assert_eq!(free_text_of(Ok(Json::Null), "y".to_string()), "y");
    assert_eq!(free_text_of(Err("no".to_string()), "y".to_string()), "y");
}

#[test]
fn usage_is_that_of_the_start_and_of_the_last_delta() {
    let events = [
        "data: {\"type\":\"message_start\",\"message\":{\"id\":\"m\",\"usage\":{\"input_tokens\":5,\"output_tokens\":1}}}",
        "data: {\"type\":\"message_delta\",\"usage\":{\"input_tokens\":99,\"output_tokens\":7}}",
        "data: {\"type\":\"message_delta\",\"usage\":{\"output_tokens\":9},\"delta\":{\"type\":\"x\"}}",
        STOP,
    ];
    let actual = run(&events, AnthropicToolNameMap::default());
    match &actual[1] {
        ResponseEvent::Completed {
            token_usage,
            usage_metadata,
            end_turn,
            ..
        } => {
            assert_eq!(
                token_usage,
                &Some(TokenUsage {
                    input_tokens: 5,
                    cached_input_tokens: 0,
                    cache_write_input_tokens: 0,
                    output_tokens: 9,
                    reasoning_output_tokens: 0,
                    total_tokens: 14,
                    codex_rollout_budget_units: None,
                })
            );
            assert!(usage_metadata.is_none());
            assert_eq!(end_turn, &None);
        }
        _ => panic!("expected a completion"),
    }
}

#[test]
fn totals_that_do_not_fit_are_told_beforehand() {
    let mut stream = MessagesStream::new(AnthropicToolNameMap::default());
    assert!(stream.total_fits());
    stream.advance(
        StreamInput::Event(event(
            "data: {\"type\":\"message_start\",\"message\":{\"id\":\"m\",\"usage\":{\"input_tokens\":9223372036854775807,\"output_tokens\":1}}}",
        )),
        "0",
    );
    assert!(!stream.total_fits());
}

#[test]
fn a_call_goes_back_as_it_came() {
    let tools = r#"[
        {"type":"namespace","name":"mcp","tools":[
            {"type":"function","name":"read"}, {"type":"custom","name":"echo"}
        ]}
    ]"#;
    let request = |input| ResponsesApiRequest {
        model: "m".to_string(),
        instructions: String::new(),
        input,
        tools: Some(tools.to_string()),
        tool_choice: "auto".to_string(),
        parallel_tool_calls: true,
        reasoning: None,
        text: None,
        service_tier: None,
    };
    for (name, input) in [
        ("mcp__read", "{\"path\":[\"a\",1]}"),
        ("mcp__echo", "{\"input\":\"hello\"}"),
        ("unknown", "{}"),
    ] {
        let first = anthropic_messages_request(request(Vec::new()), AnthropicPromptCaching::Disabled)
            .expect("request");
        let start = format!(
            "data: {{\"type\":\"content_block_start\",\"index\":0,\"content_block\":{{\"type\":\"tool_use\",\"id\":\"t1\",\"name\":\"{name}\",\"input\":{input}}}}}"
        );
        let events = [start.as_str(), BLOCK_STOP, STOP];
        let mut items = Vec::new();
        for event in run(&events, first.tool_name_map) {
            if let ResponseEvent::OutputItemDone(item) = event {
                items.push(item);
            }
        }
        let next = anthropic_messages_request(request(items), AnthropicPromptCaching::Disabled)
            .expect("request");
        let block = value_of(&next.body)["messages"][0]["content"][0].clone();
        assert_eq!(block["type"], "tool_use");
        assert_eq!(block["id"], "t1");
        assert_eq!(block["name"], name);
        assert_eq!(
            block["input"],
            serde_json::from_str::<Value>(input).expect("valid JSON")
        );
    }
}

#[test]
fn empty_deltas_are_sent_on() {
    let events = [
        "data: {\"type\":\"content_block_start\",\"index\":0,\"content_block\":{\"type\":\"text\"}}",
        "data: {\"type\":\"content_block_delta\",\"index\":0,\"delta\":{\"type\":\"text_delta\",\"text\":\"\"}}",
        "data: {\"type\":\"content_block_delta\",\"index\":0,\"delta\":{\"type\":\"text_delta\"}}",
        STOP,
    ];
    let actual = run(&events, AnthropicToolNameMap::default());
    assert_eq!(actual.len(), 3);
    assert!(matches!(&actual[1], ResponseEvent::OutputTextDelta(text) if text.is_empty()));
}

#[test]
fn a_delta_that_tells_nothing_changes_nothing() {
    let mut stream = MessagesStream::new(AnthropicToolNameMap::default());
    let action = stream.advance(
        StreamInput::Event(event(
            "data: {\"type\":\"message_delta\",\"delta\":{\"type\":\"x\"}}",
        )),
        "0",
    );
    assert!(action.send.is_none());
    assert!(!action.done);
    let action = stream.advance(StreamInput::Event(event(STOP)), "1");
    assert!(matches!(
        action.send,
        Some(Ok(ResponseEvent::Completed { end_turn: None, .. }))
    ));
}
