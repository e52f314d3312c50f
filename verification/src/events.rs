//! What a stream carries: the events of the Messages API, and those that the
//! session reads.

use crate::json::{json_view, Json, JsonView};
use crate::protocol::{ResponseItem, ResponseItemView};
use crate::text::text_view;
use vstd::prelude::*;

verus! {

/// An event of the Messages API. Which fields it has depends on its kind.
#[derive(Debug)]
pub struct AnthropicEvent {
    pub kind: String,
    pub message: Option<AnthropicMessage>,
    pub index: Option<usize>,
    pub content_block: Option<AnthropicContentBlock>,
    pub delta: Option<AnthropicDelta>,
    pub usage: Option<AnthropicUsage>,
    pub error: Option<AnthropicError>,
}

#[derive(Debug)]
pub struct AnthropicMessage {
    pub id: String,
    pub usage: AnthropicUsage,
}

/// How many tokens were read and written.
#[derive(Debug, Clone, Copy, PartialEq, Eq, Structural)]
pub struct AnthropicUsage {
    pub input_tokens: i64,
    pub output_tokens: i64,
    pub cache_read_input_tokens: i64,
    pub cache_creation_input_tokens: i64,
}

impl AnthropicUsage {
    pub open spec fn nothing() -> AnthropicUsage {
        AnthropicUsage {
            input_tokens: 0,
            output_tokens: 0,
            cache_read_input_tokens: 0,
            cache_creation_input_tokens: 0,
        }
    }
}

impl Default for AnthropicUsage {
    fn default() -> (usage: Self)
        ensures
            usage == AnthropicUsage::nothing(),
    {
        AnthropicUsage {
            input_tokens: 0,
            output_tokens: 0,
            cache_read_input_tokens: 0,
            cache_creation_input_tokens: 0,
        }
    }
}

#[derive(Debug)]
pub struct AnthropicContentBlock {
    pub kind: String,
    pub text: Option<String>,
    pub id: Option<String>,
    pub name: Option<String>,
    pub input: Option<Json>,
    pub thinking: Option<String>,
}

#[derive(Debug)]
pub struct AnthropicDelta {
    pub kind: String,
    pub text: Option<String>,
    pub thinking: Option<String>,
    pub partial_json: Option<String>,
    pub stop_reason: Option<String>,
}

#[derive(Debug)]
pub struct AnthropicError {
    pub kind: String,
    pub message: String,
}

/// The tokens of a turn.
#[derive(Debug, Clone, Copy, PartialEq, Eq, Structural)]
pub struct TokenUsage {
    pub input_tokens: i64,
    pub cached_input_tokens: i64,
    pub cache_write_input_tokens: i64,
    pub output_tokens: i64,
    pub reasoning_output_tokens: i64,
    pub total_tokens: i64,
    pub codex_rollout_budget_units: Option<i64>,
}

/// An event that the session reads.
#[allow(inconsistent_fields)]
#[derive(Debug)]
pub enum ResponseEvent {
    Created { response_id: Option<String> },
    OutputItemAdded(ResponseItem),
    OutputTextDelta(String),
    ToolCallInputDelta { item_id: String, call_id: Option<String>, delta: String },
    ReasoningContentDelta { delta: String, content_index: i64 },
    OutputItemDone(ResponseItem),
    Completed {
        response_id: String,
        token_usage: Option<TokenUsage>,
        usage_metadata: Option<Json>,
        end_turn: Option<bool>,
    },
}

#[allow(inconsistent_fields)]
#[verifier::ext_equal]
pub enum ResponseEventView {
    Created { response_id: Option<Seq<char>> },
    OutputItemAdded(ResponseItemView),
    OutputTextDelta(Seq<char>),
    ToolCallInputDelta { item_id: Seq<char>, call_id: Option<Seq<char>>, delta: Seq<char> },
    ReasoningContentDelta { delta: Seq<char>, content_index: i64 },
    OutputItemDone(ResponseItemView),
    Completed {
        response_id: Seq<char>,
        token_usage: Option<TokenUsage>,
        usage_metadata: Option<JsonView>,
        end_turn: Option<bool>,
    },
}

impl View for ResponseEvent {
    type V = ResponseEventView;

    open spec fn view(&self) -> ResponseEventView {
        match self {
            ResponseEvent::Created { response_id } => ResponseEventView::Created {
                response_id: text_view(*response_id),
            },
            ResponseEvent::OutputItemAdded(item) => ResponseEventView::OutputItemAdded(item@),
            ResponseEvent::OutputTextDelta(text) => ResponseEventView::OutputTextDelta(text@),
            ResponseEvent::ToolCallInputDelta { item_id, call_id, delta } => {
                ResponseEventView::ToolCallInputDelta {
                    item_id: item_id@,
                    call_id: text_view(*call_id),
                    delta: delta@,
                }
            },
            ResponseEvent::ReasoningContentDelta { delta, content_index } => {
                ResponseEventView::ReasoningContentDelta {
                    delta: delta@,
                    content_index: *content_index,
                }
            },
            ResponseEvent::OutputItemDone(item) => ResponseEventView::OutputItemDone(item@),
            ResponseEvent::Completed { response_id, token_usage, usage_metadata, end_turn } => {
                ResponseEventView::Completed {
                    response_id: response_id@,
                    token_usage: *token_usage,
                    usage_metadata: json_view(*usage_metadata),
                    end_turn: *end_turn,
                }
            },
        }
    }
}

} // verus!
