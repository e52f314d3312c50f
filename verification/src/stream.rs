//! The stream of an answer: each event of the Messages API becomes at most one
//! event that the session reads.

use crate::error::ApiError;
use crate::events::{AnthropicDelta, AnthropicError, AnthropicEvent};
use crate::events::{AnthropicUsage, ResponseEvent, ResponseEventView, TokenUsage};
use crate::json::{json_view, object_view, Json, JsonView};
use crate::protocol::{ContentItem, ContentItemView, ItemIdView, ReasoningItemContent};
use crate::protocol::{ResponseItem, ResponseItemId, ResponseItemView};
use crate::text::{blank, copy_text, is_blank, same_text, text_view};
use crate::tool_names::{kind_named, tool_named, AnthropicToolKind, AnthropicToolNameMap};
use crate::tool_names::{BoundTool, ToolName, ToolNameView};
use crate::value::{json_to_text, parse, parsed, written};
use std::collections::HashMap;
use vstd::prelude::*;

verus! {

broadcast use vstd::std_specs::hash::group_hash_axioms;

/// What the assistant said.
pub open spec fn assistant_item(unique: Seq<char>, text: Seq<char>) -> ResponseItemView {
    ResponseItemView::Message {
        id: Some(ItemIdView { prefix: "msg"@, unique }),
        role: "assistant"@,
        content: seq![ContentItemView::OutputText { text }],
        phase: None,
        metadata: None,
    }
}

/// What the assistant thought.
pub open spec fn reasoning_item(unique: Seq<char>, text: Seq<char>) -> ResponseItemView {
    ResponseItemView::Reasoning {
        id: Some(ItemIdView { prefix: "rs"@, unique }),
        summary: Seq::empty(),
        content: Some(seq![text]),
        encrypted_content: None,
        metadata: None,
    }
}

/// The free text that the input of a custom tool stands for: the field `input`
/// of the document, and the input as it is where there is no such text.
pub open spec fn free_text(
    document: Result<JsonView, Seq<char>>,
    input: Seq<char>,
) -> Seq<char> {
    match document {
        Ok(document) => match document.text_field("input"@) {
            Some(text) => text,
            None => input,
        },
        Err(_) => input,
    }
}

/// A tool call of the assistant.
pub open spec fn tool_call_item(
    unique: Seq<char>,
    call_id: Seq<char>,
    tool: ToolNameView,
    kind: AnthropicToolKind,
    input: Seq<char>,
) -> ResponseItemView {
    match kind {
        AnthropicToolKind::Function => ResponseItemView::FunctionCall {
            id: Some(ItemIdView { prefix: "fc"@, unique }),
            name: tool.name,
            namespace: tool.namespace,
            arguments: input,
            encrypted_function_args: None,
            call_id,
            metadata: None,
        },
        AnthropicToolKind::Custom => ResponseItemView::CustomToolCall {
            id: Some(ItemIdView { prefix: "ctc"@, unique }),
            status: None,
            call_id,
            name: tool.name,
            namespace: tool.namespace,
            input: free_text(parsed(input), input),
            metadata: None,
        },
    }
}

/// What the assistant said.
pub fn assistant_message(unique: &str, text: String) -> (item: ResponseItem)
    ensures
        item@ == assistant_item(unique@, text@),
{
    let mut content: Vec<ContentItem> = Vec::new();
    content.push(ContentItem::OutputText { text });
    let item = ResponseItem::Message {
        id: Some(ResponseItemId::new("msg", unique)),
        role: "assistant".to_string(),
        content,
        phase: None,
        internal_chat_message_metadata_passthrough: None,
    };
    assert(item@ =~= assistant_item(unique@, text@));
    item
}

/// What the assistant thought.
pub fn reasoning_message(unique: &str, text: String) -> (item: ResponseItem)
    ensures
        item@ == reasoning_item(unique@, text@),
{
    let mut content: Vec<ReasoningItemContent> = Vec::new();
    content.push(ReasoningItemContent::ReasoningText { text });
    let item = ResponseItem::Reasoning {
        id: Some(ResponseItemId::new("rs", unique)),
        summary: Vec::new(),
        content: Some(content),
        encrypted_content: None,
        internal_chat_message_metadata_passthrough: None,
    };
    assert(item@->Reasoning_content->0 =~= seq![text@]);
    assert(item@ =~= reasoning_item(unique@, text@));
    item
}

/// The free text that the input of a custom tool stands for, from what it
/// parses to.
pub fn free_text_of(document: Result<Json, String>, input: String) -> (text: String)
    ensures
        text@ == free_text(
            match document {
                Ok(json) => Ok(json@),
                Err(message) => Err(message@),
            },
            input@,
        ),
{
    match document {
        Ok(document) => match document.get_str("input") {
            Some(text) => text.to_string(),
            None => input,
        },
        Err(_) => input,
    }
}

/// The free text that the input of a custom tool stands for.
pub fn custom_tool_input(input: String) -> (text: String)
    ensures
        text@ == free_text(parsed(input@), input@),
{
    free_text_of(parse(input.as_str()), input)
}

/// A call of a function tool.
pub fn function_call(unique: &str, call_id: &str, tool_name: &ToolName, arguments: String) -> (item:
    ResponseItem)
    ensures
        item@ == tool_call_item(
            unique@,
            call_id@,
            tool_name@,
            AnthropicToolKind::Function,
            arguments@,
        ),
{
    ResponseItem::FunctionCall {
        id: Some(ResponseItemId::new("fc", unique)),
        name: tool_name.name.clone(),
        namespace: copy_text(&tool_name.namespace),
        arguments,
        encrypted_function_args: None,
        call_id: call_id.to_string(),
        internal_chat_message_metadata_passthrough: None,
    }
}

/// A tool call of the assistant.
pub fn tool_call(
    unique: &str,
    call_id: &str,
    tool_name: &ToolName,
    kind: AnthropicToolKind,
    input: String,
) -> (item: ResponseItem)
    ensures
        item@ == tool_call_item(unique@, call_id@, tool_name@, kind, input@),
{
    match kind {
        AnthropicToolKind::Function => function_call(unique, call_id, tool_name, input),
        AnthropicToolKind::Custom => ResponseItem::CustomToolCall {
            id: Some(ResponseItemId::new("ctc", unique)),
            status: None,
            call_id: call_id.to_string(),
            name: tool_name.name.clone(),
            namespace: copy_text(&tool_name.namespace),
            input: custom_tool_input(input),
            internal_chat_message_metadata_passthrough: None,
        },
    }
}

/// A content block that has started and not yet stopped.
#[derive(Debug)]
enum ActiveContentBlock {
    Text { unique: String, text: String },
    ToolUse { id: String, tool_name: ToolName, kind: AnthropicToolKind, input: String },
    Reasoning { unique: String, text: String },
}

/// A content block that has started and not yet stopped, with what it holds so
/// far.
#[allow(inconsistent_fields)]
pub enum BlockView {
    Text { unique: Seq<char>, text: Seq<char> },
    ToolUse { id: Seq<char>, tool: ToolNameView, kind: AnthropicToolKind, input: Seq<char> },
    Reasoning { unique: Seq<char>, text: Seq<char> },
}

impl View for ActiveContentBlock {
    type V = BlockView;

    closed spec fn view(&self) -> BlockView {
        match self {
            ActiveContentBlock::Text { unique, text } => BlockView::Text {
                unique: unique@,
                text: text@,
            },
            ActiveContentBlock::ToolUse { id, tool_name, kind, input } => BlockView::ToolUse {
                id: id@,
                tool: tool_name@,
                kind: *kind,
                input: input@,
            },
            ActiveContentBlock::Reasoning { unique, text } => BlockView::Reasoning {
                unique: unique@,
                text: text@,
            },
        }
    }
}

/// What the stream hands over next.
#[derive(Debug)]
pub enum StreamInput {
    /// An event.
    Event(AnthropicEvent),
    /// An event that could not be read.
    Unreadable,
    /// The transport failed.
    Failed(String),
    /// The stream ended.
    Closed,
    /// Nothing came in time.
    IdleTimeout,
}

/// What is to be done: an event to send, if any, and whether the stream is over.
#[derive(Debug)]
pub struct StreamAction {
    pub send: Option<Result<ResponseEvent, ApiError>>,
    pub done: bool,
}

/// What is to be done: an event or the message of an error to send, if any, and
/// whether the stream is over.
#[verifier::ext_equal]
pub struct ActionView {
    pub send: Option<Result<ResponseEventView, Seq<char>>>,
    pub done: bool,
}

impl View for StreamAction {
    type V = ActionView;

    open spec fn view(&self) -> ActionView {
        ActionView {
            send: match self.send {
                Some(Ok(event)) => Some(Ok(event@)),
                Some(Err(error)) => Some(Err(error@)),
                None => None,
            },
            done: self.done,
        }
    }
}

impl ActionView {
    /// Nothing to send; go on.
    pub open spec fn nothing() -> ActionView {
        ActionView { send: None, done: false }
    }

    /// Send an event; go on.
    pub open spec fn event(event: ResponseEventView) -> ActionView {
        ActionView { send: Some(Ok(event)), done: false }
    }

    /// Send an error; stop.
    pub open spec fn error(message: Seq<char>) -> ActionView {
        ActionView { send: Some(Err(message)), done: true }
    }
}

impl StreamAction {
    fn nothing() -> (action: StreamAction)
        ensures
            action@ == ActionView::nothing(),
    {
        StreamAction { send: None, done: false }
    }

    fn event(event: ResponseEvent) -> (action: StreamAction)
        ensures
            action@ == ActionView::event(event@),
    {
        StreamAction { send: Some(Ok(event)), done: false }
    }

    fn error(error: ApiError) -> (action: StreamAction)
        ensures
            action@ == ActionView::error(error@),
    {
        StreamAction { send: Some(Err(error)), done: true }
    }
}

/// What is known of an answer while it streams in.
#[verifier::ext_equal]
pub struct StreamView {
    pub names: Map<Seq<char>, BoundTool>,
    pub response_id: Option<Seq<char>>,
    pub usage: AnthropicUsage,
    pub stop_reason: Option<Seq<char>>,
    pub blocks: Map<usize, BlockView>,
}

/// The input that a tool call starts with: none where it is absent or empty.
pub open spec fn starting_input(input: Option<JsonView>) -> Seq<char> {
    match input {
        Some(document) => if document == JsonView::object() {
            Seq::empty()
        } else {
            written(document)
        },
        None => Seq::empty(),
    }
}

/// The text of an optional string, empty where there is none.
pub open spec fn text_or_empty(text: Option<String>) -> Seq<char> {
    match text {
        Some(text) => text@,
        None => Seq::empty(),
    }
}

/// The input of a complete tool call: an empty object where none came.
pub open spec fn complete_input(input: Seq<char>) -> Seq<char> {
    if blank(input) {
        "{}"@
    } else {
        input
    }
}

/// The item that a complete block makes. What was said or thought keeps the
/// identifier that it started with; a call gets a new one.
pub open spec fn block_item(block: BlockView, unique: Seq<char>) -> ResponseItemView {
    match block {
        BlockView::Text { unique, text } => assistant_item(unique, text),
        BlockView::ToolUse { id, tool, kind, input } => tool_call_item(
            unique,
            id,
            tool,
            kind,
            complete_input(input),
        ),
        BlockView::Reasoning { unique, text } => reasoning_item(unique, text),
    }
}

/// Whether a stop reason says that the turn is over: only `end_turn` says that
/// it is and only `tool_use` that it is not.
pub open spec fn end_turn_of(stop_reason: Option<Seq<char>>) -> Option<bool> {
    match stop_reason {
        Some(reason) => if reason == "end_turn"@ {
            Some(true)
        } else if reason == "tool_use"@ {
            Some(false)
        } else {
            None
        },
        None => None,
    }
}

/// The tokens of a turn.
pub open spec fn token_usage_of(usage: AnthropicUsage) -> TokenUsage {
    TokenUsage {
        input_tokens: usage.input_tokens,
        cached_input_tokens: usage.cache_read_input_tokens,
        cache_write_input_tokens: usage.cache_creation_input_tokens,
        output_tokens: usage.output_tokens,
        reasoning_output_tokens: 0,
        total_tokens: (usage.input_tokens + usage.output_tokens) as i64,
        codex_rollout_budget_units: None,
    }
}

impl StreamView {
    /// Nothing known yet.
    pub open spec fn start(names: Map<Seq<char>, BoundTool>) -> StreamView {
        StreamView {
            names,
            response_id: None,
            usage: AnthropicUsage::nothing(),
            stop_reason: None,
            blocks: Map::empty(),
        }
    }

    /// The answer starts.
    pub open spec fn message_start(self, event: AnthropicEvent) -> (StreamView, ActionView) {
        let next = match event.message {
            Some(message) => StreamView {
                response_id: Some(message.id@),
                usage: message.usage,
                ..self
            },
            None => self,
        };
        (next, ActionView::event(ResponseEventView::Created { response_id: next.response_id }))
    }

    /// A block starts and is added as an item.
    pub open spec fn open_block(
        self,
        index: usize,
        block: BlockView,
        item: ResponseItemView,
    ) -> (StreamView, ActionView) {
        (
            StreamView { blocks: self.blocks.insert(index, block), ..self },
            ActionView::event(ResponseEventView::OutputItemAdded(item)),
        )
    }

    /// A block starts. Blocks of an unknown kind, and calls without an
    /// identifier or a name, are passed over.
    pub open spec fn block_start(self, event: AnthropicEvent, unique: Seq<char>) -> (
        StreamView,
        ActionView,
    ) {
        match (event.index, event.content_block) {
            (Some(index), Some(block)) => if block.kind@ == "text"@ {
                let text = text_or_empty(block.text);
                self.open_block(
                    index,
                    BlockView::Text { unique, text },
                    assistant_item(unique, text),
                )
            } else if block.kind@ == "tool_use"@ {
                match (text_view(block.id), text_view(block.name)) {
                    (Some(id), Some(name)) => {
                        let input = starting_input(json_view(block.input));
                        let tool = tool_named(self.names, name);
                        let kind = kind_named(self.names, name);
                        self.open_block(
                            index,
                            BlockView::ToolUse { id, tool, kind, input },
                            tool_call_item(unique, id, tool, kind, input),
                        )
                    },
                    _ => (self, ActionView::nothing()),
                }
            } else if block.kind@ == "thinking"@ {
                let text = text_or_empty(block.thinking);
                self.open_block(
                    index,
                    BlockView::Reasoning { unique, text },
                    reasoning_item(unique, text),
                )
            } else {
                (self, ActionView::nothing())
            },
            _ => (self, ActionView::nothing()),
        }
    }

    /// A block grows. Only what fits the kind of the block counts.
    pub open spec fn block_delta(self, event: AnthropicEvent) -> (StreamView, ActionView) {
        match (event.index, event.delta) {
            (Some(index), Some(delta)) => if self.blocks.contains_key(index) {
                self.grow(index, delta)
            } else {
                (self, ActionView::nothing())
            },
            _ => (self, ActionView::nothing()),
        }
    }

    /// The block at `index` grows.
    pub open spec fn grow(self, index: usize, delta: AnthropicDelta) -> (StreamView, ActionView) {
        match self.blocks[index] {
            BlockView::Text { unique, text } => match text_view(delta.text) {
                Some(more) => if delta.kind@ == "text_delta"@ {
                    (
                        StreamView {
                            blocks: self.blocks.insert(
                                index,
                                BlockView::Text { unique, text: text + more },
                            ),
                            ..self
                        },
                        ActionView::event(ResponseEventView::OutputTextDelta(more)),
                    )
                } else {
                    (self, ActionView::nothing())
                },
                None => (self, ActionView::nothing()),
            },
            BlockView::ToolUse { id, tool, kind, input } => match text_view(delta.partial_json) {
                Some(more) => if delta.kind@ == "input_json_delta"@ {
                    (
                        StreamView {
                            blocks: self.blocks.insert(
                                index,
                                BlockView::ToolUse { id, tool, kind, input: input + more },
                            ),
                            ..self
                        },
                        ActionView::event(
                            ResponseEventView::ToolCallInputDelta {
                                item_id: id,
                                call_id: Some(id),
                                delta: more,
                            },
                        ),
                    )
                } else {
                    (self, ActionView::nothing())
                },
                None => (self, ActionView::nothing()),
            },
            BlockView::Reasoning { unique, text } => match text_view(delta.thinking) {
                Some(more) => if delta.kind@ == "thinking_delta"@ {
                    (
                        StreamView {
                            blocks: self.blocks.insert(
                                index,
                                BlockView::Reasoning { unique, text: text + more },
                            ),
                            ..self
                        },
                        ActionView::event(
                            ResponseEventView::ReasoningContentDelta {
                                delta: more,
                                content_index: 0,
                            },
                        ),
                    )
                } else {
                    (self, ActionView::nothing())
                },
                None => (self, ActionView::nothing()),
            },
        }
    }

    /// A block is complete.
    pub open spec fn block_stop(self, event: AnthropicEvent, unique: Seq<char>) -> (
        StreamView,
        ActionView,
    ) {
        match event.index {
            Some(index) => if self.blocks.contains_key(index) {
                (
                    StreamView { blocks: self.blocks.remove(index), ..self },
                    ActionView::event(
                        ResponseEventView::OutputItemDone(block_item(self.blocks[index], unique)),
                    ),
                )
            } else {
                (self, ActionView::nothing())
            },
            None => (self, ActionView::nothing()),
        }
    }

    /// More is known of the whole answer: how much was written, and why it ends.
    pub open spec fn message_delta(self, event: AnthropicEvent) -> (StreamView, ActionView) {
        let usage = match event.usage {
            Some(usage) => AnthropicUsage { output_tokens: usage.output_tokens, ..self.usage },
            None => self.usage,
        };
        let stop_reason = match event.delta {
            Some(delta) => match text_view(delta.stop_reason) {
                Some(reason) => Some(reason),
                None => self.stop_reason,
            },
            None => self.stop_reason,
        };
        (StreamView { usage, stop_reason, ..self }, ActionView::nothing())
    }

    /// The answer is complete.
    pub open spec fn message_stop(self) -> (StreamView, ActionView) {
        (
            self,
            ActionView {
                send: Some(
                    Ok(
                        ResponseEventView::Completed {
                            response_id: match self.response_id {
                                Some(id) => id,
                                None => "anthropic-message"@,
                            },
                            token_usage: Some(token_usage_of(self.usage)),
                            usage_metadata: None,
                            end_turn: end_turn_of(self.stop_reason),
                        },
                    ),
                ),
                done: true,
            },
        )
    }

    /// The provider reports an error.
    pub open spec fn failure(error: Option<AnthropicError>) -> ActionView {
        ActionView::error(
            match error {
                Some(error) => error.kind@ + ": "@ + error.message@,
                None => "Anthropic Messages API returned an error"@,
            },
        )
    }

    /// What an event changes and calls for; `unique` tells an item that it makes
    /// from all others. Events of an unknown kind are passed over.
    pub open spec fn take(self, event: AnthropicEvent, unique: Seq<char>) -> (
        StreamView,
        ActionView,
    ) {
        let kind = event.kind@;
        if kind == "message_start"@ {
            self.message_start(event)
        } else if kind == "content_block_start"@ {
            self.block_start(event, unique)
        } else if kind == "content_block_delta"@ {
            self.block_delta(event)
        } else if kind == "content_block_stop"@ {
            self.block_stop(event, unique)
        } else if kind == "message_delta"@ {
            self.message_delta(event)
        } else if kind == "message_stop"@ {
            self.message_stop()
        } else if kind == "error"@ {
            (self, Self::failure(event.error))
        } else {
            (self, ActionView::nothing())
        }
    }

    /// What the stream hands over changes and calls for.
    pub open spec fn advance(self, input: StreamInput, unique: Seq<char>) -> (
        StreamView,
        ActionView,
    ) {
        match input {
            StreamInput::Event(event) => self.take(event, unique),
            StreamInput::Unreadable => (self, ActionView::nothing()),
            StreamInput::Failed(message) => (self, ActionView::error(message@)),
            StreamInput::Closed => (self, ActionView::error("stream closed before message_stop"@)),
            StreamInput::IdleTimeout => (self, ActionView::error("idle timeout waiting for SSE"@)),
        }
    }

    /// Whether the tokens read and written can be added up.
    pub open spec fn total_fits(self) -> bool {
        i64::MIN <= self.usage.input_tokens + self.usage.output_tokens <= i64::MAX
    }
}

/// An answer while it streams in.
#[derive(Debug)]
pub struct MessagesStream {
    tool_name_map: AnthropicToolNameMap,
    response_id: Option<String>,
    usage: AnthropicUsage,
    stop_reason: Option<String>,
    active_blocks: HashMap<usize, ActiveContentBlock>,
}

impl View for MessagesStream {
    type V = StreamView;

    closed spec fn view(&self) -> StreamView {
        StreamView {
            names: self.tool_name_map@,
            response_id: text_view(self.response_id),
            usage: self.usage,
            stop_reason: text_view(self.stop_reason),
            blocks: self.active_blocks@.map_values(|block: ActiveContentBlock| block@),
        }
    }
}

impl MessagesStream {
    pub closed spec fn well_formed(&self) -> bool {
        self.tool_name_map.well_formed()
    }

    /// Nothing has come yet.
    pub fn new(tool_name_map: AnthropicToolNameMap) -> (stream: MessagesStream)
        requires
            tool_name_map.well_formed(),
        ensures
            stream.well_formed(),
            stream@ == StreamView::start(tool_name_map@),
    {
        let stream = MessagesStream {
            tool_name_map,
            response_id: None,
            usage: AnthropicUsage::default(),
            stop_reason: None,
            active_blocks: HashMap::new(),
        };
        assert(stream@ =~= StreamView::start(tool_name_map@));
        stream
    }

    /// Whether the tokens read and written can be added up.
    pub fn total_fits(&self) -> (fits: bool)
        ensures
            fits == self@.total_fits(),
    {
        self.usage.input_tokens.checked_add(self.usage.output_tokens).is_some()
    }

    /// The answer starts.
    fn message_start(&mut self, event: AnthropicEvent) -> (action: StreamAction)
        requires
            old(self).well_formed(),
        ensures
            final(self).well_formed(),
            (final(self)@, action@) == old(self)@.message_start(event),
    {
        if let Some(message) = event.message {
            self.response_id = Some(message.id);
            self.usage = message.usage;
        }
        StreamAction::event(ResponseEvent::Created { response_id: copy_text(&self.response_id) })
    }

    /// A block starts and is added as an item.
    fn open_block(&mut self, index: usize, block: ActiveContentBlock, item: ResponseItem) -> (action:
        StreamAction)
        requires
            old(self).well_formed(),
        ensures
            final(self).well_formed(),
            (final(self)@, action@) == old(self)@.open_block(index, block@, item@),
    {
        let ghost before = self@;
        self.active_blocks.insert(index, block);
        assert(self@.blocks =~= before.blocks.insert(index, block@));
        StreamAction::event(ResponseEvent::OutputItemAdded(item))
    }

    /// A block starts.
    fn block_start(&mut self, event: AnthropicEvent, unique: &str) -> (action: StreamAction)
        requires
            old(self).well_formed(),
        ensures
            final(self).well_formed(),
            (final(self)@, action@) == old(self)@.block_start(event, unique@),
    {
        let (index, block) = match (event.index, event.content_block) {
            (Some(index), Some(block)) => (index, block),
            _ => {
                return StreamAction::nothing();
            },
        };
        if same_text(block.kind.as_str(), "text") {
            let text = block.text.unwrap_or_default();
            let item = assistant_message(unique, text.clone());
            let active = ActiveContentBlock::Text { unique: unique.to_string(), text };
            self.open_block(index, active, item)
        } else if same_text(block.kind.as_str(), "tool_use") {
            let (id, name) = match (block.id, block.name) {
                (Some(id), Some(name)) => (id, name),
                _ => {
                    return StreamAction::nothing();
                },
            };
            let input = input_text(&block.input);
            let tool_name = self.tool_name_map.tool_name(name.as_str());
            let kind = self.tool_name_map.tool_kind(name.as_str());
            let item = tool_call(unique, id.as_str(), &tool_name, kind, input.clone());
            let active = ActiveContentBlock::ToolUse { id, tool_name, kind, input };
            self.open_block(index, active, item)
        } else if same_text(block.kind.as_str(), "thinking") {
            let text = block.thinking.unwrap_or_default();
            let item = reasoning_message(unique, text.clone());
            let active = ActiveContentBlock::Reasoning { unique: unique.to_string(), text };
            self.open_block(index, active, item)
        } else {
            StreamAction::nothing()
        }
    }

    /// A block grows.
    fn block_delta(&mut self, event: AnthropicEvent) -> (action: StreamAction)
        requires
            old(self).well_formed(),
        ensures
            final(self).well_formed(),
            (final(self)@, action@) == old(self)@.block_delta(event),
    {
        let (index, delta) = match (event.index, event.delta) {
            (Some(index), Some(delta)) => (index, delta),
            _ => {
                return StreamAction::nothing();
            },
        };
        let ghost before = self@;
        let mut block = match self.active_blocks.remove(&index) {
            Some(block) => block,
            None => {
                assert(self@.blocks =~= before.blocks);
                return StreamAction::nothing();
            },
        };
        let ghost was = block@;
        assert(before.blocks[index] == was);
        let mut action = StreamAction::nothing();
        match &mut block {
            ActiveContentBlock::Text { text, .. } => {
                if same_text(delta.kind.as_str(), "text_delta") {
                    if let Some(more) = delta.text {
                        text.append(more.as_str());
                        action = StreamAction::event(ResponseEvent::OutputTextDelta(more));
                    }
                }
            },
            ActiveContentBlock::ToolUse { id, input, .. } => {
                if same_text(delta.kind.as_str(), "input_json_delta") {
                    if let Some(more) = delta.partial_json {
                        input.append(more.as_str());
                        action = StreamAction::event(
                            ResponseEvent::ToolCallInputDelta {
                                item_id: id.clone(),
                                call_id: Some(id.clone()),
                                delta: more,
                            },
                        );
                    }
                }
            },
            ActiveContentBlock::Reasoning { text, .. } => {
                if same_text(delta.kind.as_str(), "thinking_delta") {
                    if let Some(more) = delta.thinking {
                        text.append(more.as_str());
                        action = StreamAction::event(
                            ResponseEvent::ReasoningContentDelta { delta: more, content_index: 0 },
                        );
                    }
                }
            },
        }
        self.active_blocks.insert(index, block);
        proof {
            assert(self@.blocks =~= before.blocks.insert(index, block@));
            if block@ == was {
                assert(before.blocks.insert(index, was) =~= before.blocks);
            }
        }
        action
    }

    /// A block is complete.
    fn block_stop(&mut self, event: AnthropicEvent, unique: &str) -> (action: StreamAction)
        requires
            old(self).well_formed(),
        ensures
            final(self).well_formed(),
            (final(self)@, action@) == old(self)@.block_stop(event, unique@),
    {
        let index = match event.index {
            Some(index) => index,
            None => {
                return StreamAction::nothing();
            },
        };
        let ghost before = self@;
        let block = match self.active_blocks.remove(&index) {
            Some(block) => block,
            None => {
                assert(self@.blocks =~= before.blocks);
                return StreamAction::nothing();
            },
        };
        assert(before.blocks[index] == block@);
        assert(self@.blocks =~= before.blocks.remove(index));
        let item = match block {
            ActiveContentBlock::Text { unique, text } => assistant_message(unique.as_str(), text),
            ActiveContentBlock::ToolUse { id, tool_name, kind, input } => {
                let input = if is_blank(input.as_str()) {
                    "{}".to_string()
                } else {
                    input
                };
                tool_call(unique, id.as_str(), &tool_name, kind, input)
            },
            ActiveContentBlock::Reasoning { unique, text } => reasoning_message(
                unique.as_str(),
                text,
            ),
        };
        StreamAction::event(ResponseEvent::OutputItemDone(item))
    }

    /// More is known of the whole answer.
    fn message_delta(&mut self, event: AnthropicEvent) -> (action: StreamAction)
        requires
            old(self).well_formed(),
        ensures
            final(self).well_formed(),
            (final(self)@, action@) == old(self)@.message_delta(event),
    {
        if let Some(usage) = event.usage {
            self.usage.output_tokens = usage.output_tokens;
        }
        if let Some(delta) = event.delta {
            if let Some(reason) = delta.stop_reason {
                self.stop_reason = Some(reason);
            }
        }
        StreamAction::nothing()
    }

    /// The answer is complete.
    fn message_stop(&self) -> (action: StreamAction)
        requires
            self@.total_fits(),
        ensures
            (self@, action@) == self@.message_stop(),
    {
        let response_id = match &self.response_id {
            Some(id) => id.clone(),
            None => "anthropic-message".to_string(),
        };
        let token_usage = TokenUsage {
            input_tokens: self.usage.input_tokens,
            cached_input_tokens: self.usage.cache_read_input_tokens,
            cache_write_input_tokens: self.usage.cache_creation_input_tokens,
            output_tokens: self.usage.output_tokens,
            reasoning_output_tokens: 0,
            total_tokens: self.usage.input_tokens + self.usage.output_tokens,
            codex_rollout_budget_units: None,
        };
        StreamAction {
            send: Some(
                Ok(
                    ResponseEvent::Completed {
                        response_id,
                        token_usage: Some(token_usage),
                        usage_metadata: None,
                        end_turn: end_turn(&self.stop_reason),
                    },
                ),
            ),
            done: true,
        }
    }

    /// Takes what the stream hands over and says what is to be done; `unique`
    /// tells an item that is made from all others.
    pub fn advance(&mut self, input: StreamInput, unique: &str) -> (action: StreamAction)
        requires
            old(self).well_formed(),
            input matches StreamInput::Event(event) && event.kind@ == "message_stop"@ ==> old(
                self,
            )@.total_fits(),
        ensures
            final(self).well_formed(),
            (final(self)@, action@) == old(self)@.advance(input, unique@),
    {
        let event = match input {
            StreamInput::Event(event) => event,
            StreamInput::Unreadable => {
                return StreamAction::nothing();
            },
            StreamInput::Failed(message) => {
                return StreamAction::error(ApiError::Stream(message));
            },
            StreamInput::Closed => {
                return StreamAction::error(
                    ApiError::Stream("stream closed before message_stop".to_string()),
                );
            },
            StreamInput::IdleTimeout => {
                return StreamAction::error(
                    ApiError::Stream("idle timeout waiting for SSE".to_string()),
                );
            },
        };
        if same_text(event.kind.as_str(), "message_start") {
            self.message_start(event)
        } else if same_text(event.kind.as_str(), "content_block_start") {
            self.block_start(event, unique)
        } else if same_text(event.kind.as_str(), "content_block_delta") {
            self.block_delta(event)
        } else if same_text(event.kind.as_str(), "content_block_stop") {
            self.block_stop(event, unique)
        } else if same_text(event.kind.as_str(), "message_delta") {
            self.message_delta(event)
        } else if same_text(event.kind.as_str(), "message_stop") {
            self.message_stop()
        } else if same_text(event.kind.as_str(), "error") {
            match event.error {
                Some(error) => {
                    let mut message = error.kind;
                    message.append(": ");
                    message.append(error.message.as_str());
                    StreamAction::error(ApiError::Stream(message))
                },
                None => StreamAction::error(
                    ApiError::Stream("Anthropic Messages API returned an error".to_string()),
                ),
            }
        } else {
            StreamAction::nothing()
        }
    }
}

/// The input that a tool call starts with.
fn input_text(input: &Option<Json>) -> (text: String)
    ensures
        text@ == starting_input(json_view(*input)),
{
    match input {
        Some(Json::Object(entries)) => {
            if entries.len() == 0 {
                assert(object_view(entries@) =~= Map::empty());
                String::new()
            } else {
                assert(object_view(entries@).contains_key(entries@.last().0@));
                json_to_text(input.as_ref().unwrap())
            }
        },
        Some(json) => json_to_text(json),
        None => String::new(),
    }
}

/// Whether a stop reason says that the turn is over.
fn end_turn(stop_reason: &Option<String>) -> (end_turn: Option<bool>)
    ensures
        end_turn == end_turn_of(text_view(*stop_reason)),
{
    match stop_reason {
        Some(reason) => if same_text(reason.as_str(), "end_turn") {
            Some(true)
        } else if same_text(reason.as_str(), "tool_use") {
            Some(false)
        } else {
            None
        },
        None => None,
    }
}

} // verus!
