//! The provider-neutral side: the items of a conversation and the request that
//! asks for the next turn.

use crate::json::{array_view, json_view, Json, JsonView};
use crate::text::text_view;
use vstd::prelude::*;

verus! {

/// A part of a message.
#[derive(Debug, PartialEq, Eq)]
pub enum ContentItem {
    InputText { text: String },
    OutputText { text: String },
    InputImage { image_url: String },
    InputAudio,
}

pub enum ContentItemView {
    InputText { text: Seq<char> },
    OutputText { text: Seq<char> },
    InputImage { image_url: Seq<char> },
    InputAudio,
}

impl View for ContentItem {
    type V = ContentItemView;

    open spec fn view(&self) -> ContentItemView {
        match self {
            ContentItem::InputText { text } => ContentItemView::InputText { text: text@ },
            ContentItem::OutputText { text } => ContentItemView::OutputText { text: text@ },
            ContentItem::InputImage { image_url } => ContentItemView::InputImage {
                image_url: image_url@,
            },
            ContentItem::InputAudio => ContentItemView::InputAudio,
        }
    }
}

/// The parts of a message.
pub open spec fn content_view(content: Seq<ContentItem>) -> Seq<ContentItemView> {
    Seq::new(content.len(), |i: int| content[i]@)
}

/// A part of what a model thought.
#[derive(Debug, PartialEq, Eq)]
pub enum ReasoningItemContent {
    ReasoningText { text: String },
}

impl View for ReasoningItemContent {
    type V = Seq<char>;

    open spec fn view(&self) -> Seq<char> {
        match self {
            ReasoningItemContent::ReasoningText { text } => text@,
        }
    }
}

/// The identifier of an item: what kind of item it is, and what tells it from
/// the others of that kind.
#[derive(Debug, PartialEq, Eq)]
pub struct ResponseItemId {
    pub prefix: String,
    pub unique: String,
}

pub struct ItemIdView {
    pub prefix: Seq<char>,
    pub unique: Seq<char>,
}

impl View for ResponseItemId {
    type V = ItemIdView;

    open spec fn view(&self) -> ItemIdView {
        ItemIdView { prefix: self.prefix@, unique: self.unique@ }
    }
}

pub open spec fn id_view(id: Option<ResponseItemId>) -> Option<ItemIdView> {
    match id {
        Some(id) => Some(id@),
        None => None,
    }
}

impl Clone for ResponseItemId {
    fn clone(&self) -> (copy: Self)
        ensures
            copy@ == self@,
    {
        ResponseItemId { prefix: self.prefix.clone(), unique: self.unique.clone() }
    }
}

impl ResponseItemId {
    pub fn new(prefix: &str, unique: &str) -> (id: ResponseItemId)
        ensures
            id@ == (ItemIdView { prefix: prefix@, unique: unique@ }),
    {
        ResponseItemId { prefix: prefix.to_string(), unique: unique.to_string() }
    }
}

/// What a tool handed back, as the JSON document that it serializes to; `None`
/// where it could not be serialized.
#[derive(Debug)]
pub struct FunctionCallOutputPayload {
    pub serialized: Option<Json>,
}

/// An item of a conversation.
#[allow(inconsistent_fields)]
#[derive(Debug)]
pub enum ResponseItem {
    Message {
        id: Option<ResponseItemId>,
        role: String,
        content: Vec<ContentItem>,
        phase: Option<String>,
        internal_chat_message_metadata_passthrough: Option<Json>,
    },
    Reasoning {
        id: Option<ResponseItemId>,
        summary: Vec<String>,
        content: Option<Vec<ReasoningItemContent>>,
        encrypted_content: Option<String>,
        internal_chat_message_metadata_passthrough: Option<Json>,
    },
    FunctionCall {
        id: Option<ResponseItemId>,
        name: String,
        namespace: Option<String>,
        arguments: String,
        encrypted_function_args: Option<String>,
        call_id: String,
        internal_chat_message_metadata_passthrough: Option<Json>,
    },
    CustomToolCall {
        id: Option<ResponseItemId>,
        status: Option<String>,
        call_id: String,
        name: String,
        namespace: Option<String>,
        input: String,
        internal_chat_message_metadata_passthrough: Option<Json>,
    },
    FunctionCallOutput { call_id: Option<String>, output: FunctionCallOutputPayload },
    CustomToolCallOutput { call_id: String, output: FunctionCallOutputPayload },
    AdditionalTools { tools: Vec<Json> },
    AgentMessage,
    LocalShellCall,
    ToolSearchCall,
    ToolSearchOutput,
    WebSearchCall,
    ImageGenerationCall,
    Compaction,
    CompactionTrigger,
    ContextCompaction,
    ConfigurationUpdate,
    Other,
}

/// What an item says. Items that no Messages request is made of are all alike.
#[allow(inconsistent_fields)]
#[verifier::ext_equal]
pub enum ResponseItemView {
    Message {
        id: Option<ItemIdView>,
        role: Seq<char>,
        content: Seq<ContentItemView>,
        phase: Option<Seq<char>>,
        metadata: Option<JsonView>,
    },
    Reasoning {
        id: Option<ItemIdView>,
        summary: Seq<Seq<char>>,
        content: Option<Seq<Seq<char>>>,
        encrypted_content: Option<Seq<char>>,
        metadata: Option<JsonView>,
    },
    FunctionCall {
        id: Option<ItemIdView>,
        name: Seq<char>,
        namespace: Option<Seq<char>>,
        arguments: Seq<char>,
        encrypted_function_args: Option<Seq<char>>,
        call_id: Seq<char>,
        metadata: Option<JsonView>,
    },
    CustomToolCall {
        id: Option<ItemIdView>,
        status: Option<Seq<char>>,
        call_id: Seq<char>,
        name: Seq<char>,
        namespace: Option<Seq<char>>,
        input: Seq<char>,
        metadata: Option<JsonView>,
    },
    FunctionCallOutput { call_id: Option<Seq<char>>, output: Option<JsonView> },
    CustomToolCallOutput { call_id: Seq<char>, output: Option<JsonView> },
    AdditionalTools { tools: Seq<JsonView> },
    Unread,
}

impl View for ResponseItem {
    type V = ResponseItemView;

    open spec fn view(&self) -> ResponseItemView {
        match self {
            ResponseItem::Message {
                id,
                role,
                content,
                phase,
                internal_chat_message_metadata_passthrough,
            } => ResponseItemView::Message {
                id: id_view(*id),
                role: role@,
                content: content_view(content@),
                phase: text_view(*phase),
                metadata: json_view(*internal_chat_message_metadata_passthrough),
            },
            ResponseItem::Reasoning {
                id,
                summary,
                content,
                encrypted_content,
                internal_chat_message_metadata_passthrough,
            } => ResponseItemView::Reasoning {
                id: id_view(*id),
                summary: Seq::new(summary@.len(), |i: int| summary@[i]@),
                content: match content {
                    Some(content) => Some(Seq::new(content@.len(), |i: int| content@[i]@)),
                    None => None,
                },
                encrypted_content: text_view(*encrypted_content),
                metadata: json_view(*internal_chat_message_metadata_passthrough),
            },
            ResponseItem::FunctionCall {
                id,
                name,
                namespace,
                arguments,
                encrypted_function_args,
                call_id,
                internal_chat_message_metadata_passthrough,
            } => ResponseItemView::FunctionCall {
                id: id_view(*id),
                name: name@,
                namespace: text_view(*namespace),
                arguments: arguments@,
                encrypted_function_args: text_view(*encrypted_function_args),
                call_id: call_id@,
                metadata: json_view(*internal_chat_message_metadata_passthrough),
            },
            ResponseItem::CustomToolCall {
                id,
                status,
                call_id,
                name,
                namespace,
                input,
                internal_chat_message_metadata_passthrough,
            } => ResponseItemView::CustomToolCall {
                id: id_view(*id),
                status: text_view(*status),
                call_id: call_id@,
                name: name@,
                namespace: text_view(*namespace),
                input: input@,
                metadata: json_view(*internal_chat_message_metadata_passthrough),
            },
            ResponseItem::FunctionCallOutput { call_id, output } => {
                ResponseItemView::FunctionCallOutput {
                    call_id: text_view(*call_id),
                    output: json_view(output.serialized),
                }
            },
            ResponseItem::CustomToolCallOutput { call_id, output } => {
                ResponseItemView::CustomToolCallOutput {
                    call_id: call_id@,
                    output: json_view(output.serialized),
                }
            },
            ResponseItem::AdditionalTools { tools } => ResponseItemView::AdditionalTools {
                tools: array_view(tools@),
            },
            _ => ResponseItemView::Unread,
        }
    }
}

/// The items of a conversation.
pub open spec fn items_view(items: Seq<ResponseItem>) -> Seq<ResponseItemView> {
    Seq::new(items.len(), |i: int| items[i]@)
}

/// How much a model is to think before it answers.
#[derive(Debug, PartialEq, Eq)]
pub enum ReasoningEffort {
    Off,
    Minimal,
    Low,
    Medium,
    High,
    XHigh,
    Max,
    Ultra,
    Persistent,
    Custom(String),
}

#[derive(Debug, PartialEq, Eq)]
pub struct Reasoning {
    pub effort: Option<ReasoningEffort>,
}

/// The form that an answer is to have.
#[derive(Debug)]
pub struct TextFormat {
    pub name: String,
    pub strict: bool,
    pub schema: Json,
}

#[derive(Debug)]
pub struct TextControls {
    pub format: Option<TextFormat>,
}

/// A request for the next turn of a conversation.
#[derive(Debug)]
pub struct ResponsesApiRequest {
    pub model: String,
    pub instructions: String,
    pub input: Vec<ResponseItem>,
    /// The offered tools, as the text of a JSON array.
    pub tools: Option<String>,
    pub tool_choice: String,
    pub parallel_tool_calls: bool,
    pub reasoning: Option<Reasoning>,
    pub text: Option<TextControls>,
    pub service_tier: Option<String>,
}

} // verus!
