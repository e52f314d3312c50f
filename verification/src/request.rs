//! The request to the Messages API.

use crate::content::{content_blocks, content_text, content_to_anthropic, joined, text_block};
use crate::content::{text_block_json, texts, tool_output, tool_output_to_anthropic};
use crate::error::ApiError;
use crate::json::{array_view, json_view, lemma_array_view, Json, JsonView};
use crate::instructions::ANTHROPIC_MESSAGES_SHELL_RELIABILITY_INSTRUCTIONS;
use crate::messages::{add_history_cache_checkpoint, append_message, append_place, appended};
use crate::messages::{checkpointed, ephemeral, ephemeral_json, messages_view, place_view};
use crate::messages::{Message, MessageContentStart, MessageView, Place};
use crate::protocol::{items_view, ResponseItem, ResponseItemView, ResponsesApiRequest};
use crate::protocol::TextControls;
use crate::reasoning::{anthropic_max_tokens, anthropic_thinking, max_tokens, thinking};
use crate::text::{blank, copy_text, is_blank, same_text, text_view};
use crate::tool_names::{flat_name, AnthropicToolNameMap, BoundTool, ToolName, ToolNameView};
use crate::tools::{anthropic_tool_choice, anthropic_tools, tool_choice, tool_set, ToolSet};
use crate::value::{number, number_of, parse, parsed};
use vstd::prelude::*;

verus! {

/// What the user says where the assistant spoke last.
pub const ANTHROPIC_MESSAGES_CONTINUATION_PROMPT: &'static str = "Continue.";

/// Controls whether a request marks what the provider may cache.
///
/// A gateway that does not know `cache_control` needs `Disabled`.
#[derive(Debug, Clone, Copy, PartialEq, Eq, Structural)]
pub enum AnthropicPromptCaching {
    Disabled,
    SystemAndTools,
    RollingHistory,
}

/// The system prompt after `text` has been added, in a paragraph of its own.
/// Blank text adds nothing.
pub open spec fn system_appended(system: Seq<char>, text: Seq<char>) -> Seq<char> {
    if blank(text) {
        system
    } else if blank(system) {
        system + text
    } else {
        system + "\n\n"@ + text
    }
}

/// Adds `text` to the system prompt, in a paragraph of its own.
pub fn append_system_text(system: &mut String, text: &str)
    ensures
        final(system)@ == system_appended(old(system)@, text@),
{
    if is_blank(text) {
        return;
    }
    if !is_blank(system.as_str()) {
        system.append("\n\n");
    }
    system.append(text);
}

/// The form of the answer, where one is asked for.
pub open spec fn output_config(text: Option<TextControls>) -> Option<JsonView> {
    match text {
        Some(TextControls { format: Some(format) }) => Some(
            JsonView::object().with(
                "format"@,
                JsonView::object().with("type"@, JsonView::String("json_schema"@)).with(
                    "schema"@,
                    format.schema@,
                ),
            ),
        ),
        _ => None,
    }
}

/// The form of the answer, where one is asked for.
pub fn anthropic_output_config(text: &Option<TextControls>) -> (json: Option<Json>)
    ensures
        json_view(json) == output_config(*text),
{
    match text {
        Some(text) => match &text.format {
            Some(format) => Some(
                Json::object().with(
                    "format",
                    Json::object().with("type", Json::string("json_schema")).with(
                        "schema",
                        format.schema.copy(),
                    ),
                ),
            ),
            None => None,
        },
        None => None,
    }
}

/// The tools that a parsed tool list holds; what is no list holds none.
pub open spec fn listed_tools(document: JsonView) -> Seq<JsonView> {
    match document.items() {
        Some(items) => items,
        None => Seq::empty(),
    }
}

/// The tools that the items of a conversation bring, in their order.
pub open spec fn additional_tools(items: Seq<ResponseItemView>) -> Seq<JsonView>
    decreases items.len(),
{
    if items.len() == 0 {
        Seq::empty()
    } else {
        let front = additional_tools(items.drop_last());
        match items.last() {
            ResponseItemView::AdditionalTools { tools } => front + tools,
            _ => front,
        }
    }
}

/// The input of a function call: its arguments, or an empty object where they
/// are no JSON.
pub open spec fn call_input(arguments: Result<JsonView, Seq<char>>) -> JsonView {
    match arguments {
        Ok(input) => input,
        Err(_) => JsonView::object(),
    }
}

/// The input of a function call, from what its arguments parse to.
pub fn function_call_input(arguments: Result<Json, String>) -> (input: Json)
    ensures
        input@ == call_input(
            match arguments {
                Ok(json) => Ok(json@),
                Err(message) => Err(message@),
            },
        ),
{
    match arguments {
        Ok(input) => input,
        Err(_) => Json::object(),
    }
}

/// The block with which the assistant calls a tool.
pub open spec fn tool_use(
    names: Map<Seq<char>, BoundTool>,
    call_id: Seq<char>,
    tool: ToolNameView,
    input: JsonView,
) -> JsonView {
    let name = match flat_name(names, tool) {
        Some(name) => name,
        None => tool.name,
    };
    JsonView::object().with("type"@, JsonView::String("tool_use"@)).with(
        "id"@,
        JsonView::String(call_id),
    ).with("name"@, JsonView::String(name)).with("input"@, input)
}

/// The block with which the assistant calls a tool.
fn tool_use_json(
    names: &AnthropicToolNameMap,
    call_id: &str,
    tool: &ToolName,
    input: Json,
) -> (block: Json)
    requires
        names.well_formed(),
    ensures
        block@ == tool_use(names@, call_id@, tool@, input@),
{
    let name = match names.anthropic_name(tool) {
        Some(name) => name,
        None => tool.name.as_str(),
    };
    Json::object().with("type", Json::string("tool_use")).with("id", Json::string(call_id)).with(
        "name",
        Json::string(name),
    ).with("input", input)
}

/// The block with which the user hands back what a tool produced.
pub open spec fn tool_result(call_id: Seq<char>, content: JsonView) -> JsonView {
    JsonView::object().with("type"@, JsonView::String("tool_result"@)).with(
        "tool_use_id"@,
        JsonView::String(call_id),
    ).with("content"@, content)
}

/// The block with which the user hands back what a tool produced.
fn tool_result_json(call_id: &str, content: Json) -> (block: Json)
    ensures
        block@ == tool_result(call_id@, content@),
{
    Json::object().with("type", Json::string("tool_result")).with(
        "tool_use_id",
        Json::string(call_id),
    ).with("content", content)
}

/// What someone says in a conversation.
#[verifier::ext_equal]
pub struct Utterance {
    pub role: Seq<char>,
    pub content: Seq<JsonView>,
}

/// What an item adds to the system prompt: developer and system messages go there.
pub open spec fn system_text(item: ResponseItemView) -> Option<Seq<char>> {
    match item {
        ResponseItemView::Message { role, content, .. } => if role == "developer"@ || role
            == "system"@ {
            Some(joined(texts(content), "\n"@))
        } else {
            None
        },
        _ => None,
    }
}

/// What is said by an item: users and assistants speak; calls are the assistant's
/// and results the user's.
pub open spec fn utterance(
    item: ResponseItemView,
    names: Map<Seq<char>, BoundTool>,
) -> Option<Utterance> {
    match item {
        ResponseItemView::Message { role, content, .. } => if role == "user"@ || role
            == "assistant"@ {
            Some(Utterance { role, content: content_blocks(content) })
        } else {
            None
        },
        ResponseItemView::FunctionCall { name, namespace, arguments, call_id, .. } => {
            let tool = ToolNameView { name, namespace };
            let input = call_input(parsed(arguments));
            let content = seq![tool_use(names, call_id, tool, input)];
            Some(Utterance { role: "assistant"@, content })
        },
        ResponseItemView::CustomToolCall { name, namespace, call_id, input, .. } => {
            let tool = ToolNameView { name, namespace };
            let input = JsonView::object().with("input"@, JsonView::String(input));
            let content = seq![tool_use(names, call_id, tool, input)];
            Some(Utterance { role: "assistant"@, content })
        },
        ResponseItemView::FunctionCallOutput { call_id: Some(call_id), output } => {
            let content = seq![tool_result(call_id, tool_output(output))];
            Some(Utterance { role: "user"@, content })
        },
        ResponseItemView::CustomToolCallOutput { call_id, output } => {
            let content = seq![tool_result(call_id, tool_output(output))];
            Some(Utterance { role: "user"@, content })
        },
        _ => None,
    }
}

/// A conversation as the Messages API has it: the system prompt, the turns, and
/// where the latest content starts.
#[verifier::ext_equal]
pub struct Conversation {
    pub system: Seq<char>,
    pub messages: Seq<MessageView>,
    pub latest: Option<Place>,
}

impl Conversation {
    /// The conversation after `role` has said `content`.
    pub open spec fn say(self, role: Seq<char>, content: Seq<JsonView>) -> Conversation {
        Conversation {
            system: self.system,
            messages: appended(self.messages, role, content),
            latest: append_place(self.messages, role, content),
        }
    }

    /// The conversation after one more item. An item that neither adds to the
    /// system prompt nor says anything is passed over.
    pub open spec fn take(
        self,
        item: ResponseItemView,
        names: Map<Seq<char>, BoundTool>,
    ) -> Conversation {
        match system_text(item) {
            Some(text) => Conversation { system: system_appended(self.system, text), ..self },
            None => match utterance(item, names) {
                Some(said) => self.say(said.role, said.content),
                None => self,
            },
        }
    }
}

/// The conversation that the items make, one after the other.
pub open spec fn conversation(
    instructions: Seq<char>,
    items: Seq<ResponseItemView>,
    names: Map<Seq<char>, BoundTool>,
) -> Conversation
    decreases items.len(),
{
    if items.len() == 0 {
        Conversation { system: instructions, messages: Seq::empty(), latest: None }
    } else {
        conversation(instructions, items.drop_last(), names).take(items.last(), names)
    }
}

/// Whether a turn calls a tool.
pub open spec fn calls_tool(content: Seq<JsonView>) -> bool {
    exists|i: int|
        0 <= i < content.len() && (#[trigger] content[i]).text_field("type"@) == Some(
            "tool_use"@,
        )
}

/// Whether the assistant spoke last and waits for no tool. A provider may refuse
/// to go on from there.
pub open spec fn ends_with_prefill(messages: Seq<MessageView>) -> bool {
    &&& messages.len() > 0
    &&& messages.last().role == "assistant"@
    &&& !calls_tool(messages.last().content)
}

/// The conversation with the turn handed to the user, where it ends with one of
/// the assistant that calls no tool.
pub open spec fn continued(messages: Seq<MessageView>) -> Seq<MessageView> {
    if ends_with_prefill(messages) {
        appended(messages, "user"@, seq![text_block(ANTHROPIC_MESSAGES_CONTINUATION_PROMPT@)])
    } else {
        messages
    }
}

/// A turn as JSON.
pub open spec fn message_json(message: MessageView) -> JsonView {
    JsonView::object().with("role"@, JsonView::String(message.role)).with(
        "content"@,
        JsonView::Array(message.content),
    )
}

/// The turns as JSON.
pub open spec fn messages_json(messages: Seq<MessageView>) -> Seq<JsonView> {
    Seq::new(messages.len(), |i: int| message_json(messages[i]))
}

/// The system prompt as JSON, marked for the cache where there is one.
pub open spec fn system_json(system: Seq<char>, prompt_caching: AnthropicPromptCaching) -> JsonView {
    match prompt_caching {
        AnthropicPromptCaching::Disabled => JsonView::String(system),
        _ => JsonView::Array(seq![text_block(system).with("cache_control"@, ephemeral())]),
    }
}

/// The tools, with the last one marked for the cache where there is one.
pub open spec fn cached_tools(
    tools: Seq<JsonView>,
    prompt_caching: AnthropicPromptCaching,
) -> Seq<JsonView> {
    match prompt_caching {
        AnthropicPromptCaching::Disabled => tools,
        _ => if tools.len() > 0 {
            tools.drop_last().push(tools.last().with("cache_control"@, ephemeral()))
        } else {
            tools
        },
    }
}

/// The document with `key` set, where there is something to set it to.
pub open spec fn with_some(document: JsonView, key: Seq<char>, value: Option<JsonView>) -> JsonView {
    match value {
        Some(value) => document.with(key, value),
        None => document,
    }
}

/// The system prompt of a request.
pub open spec fn request_system(talk: Conversation) -> Seq<char> {
    system_appended(talk.system, ANTHROPIC_MESSAGES_SHELL_RELIABILITY_INSTRUCTIONS@)
}

/// The turns of a request.
pub open spec fn request_messages(
    talk: Conversation,
    prompt_caching: AnthropicPromptCaching,
) -> Seq<MessageView> {
    match prompt_caching {
        AnthropicPromptCaching::RollingHistory => checkpointed(
            continued(talk.messages),
            talk.latest,
        ),
        _ => continued(talk.messages),
    }
}

/// The tools of a request: none where the model may use none.
pub open spec fn request_tools(
    request: ResponsesApiRequest,
    set: ToolSet,
    prompt_caching: AnthropicPromptCaching,
) -> Seq<JsonView> {
    match tool_choice(request.tool_choice@, request.parallel_tool_calls) {
        Some(_) => cached_tools(set.tools, prompt_caching),
        None => Seq::empty(),
    }
}

/// The body of a request.
pub open spec fn request_body(
    request: ResponsesApiRequest,
    set: ToolSet,
    prompt_caching: AnthropicPromptCaching,
) -> JsonView {
    let talk = conversation(request.instructions@, items_view(request.input@), set.names);
    let system = request_system(talk);
    let tools = request_tools(request, set, prompt_caching);
    let body = JsonView::object().with("model"@, JsonView::String(request.model@)).with(
        "max_tokens"@,
        JsonView::Number(number_of(max_tokens(request.reasoning))),
    ).with("stream"@, JsonView::Bool(true)).with(
        "messages"@,
        JsonView::Array(messages_json(request_messages(talk, prompt_caching))),
    );
    let body = if blank(system) {
        body
    } else {
        body.with("system"@, system_json(system, prompt_caching))
    };
    let body = with_some(body, "thinking"@, thinking(request.reasoning));
    let body = with_some(body, "output_config"@, output_config(request.text));
    let body = match text_view(request.service_tier) {
        Some(tier) => body.with("service_tier"@, JsonView::String(tier)),
        None => body,
    };
    if tools.len() == 0 {
        body
    } else {
        with_some(
            body.with("tools"@, JsonView::Array(tools)),
            "tool_choice"@,
            tool_choice(request.tool_choice@, request.parallel_tool_calls),
        )
    }
}

/// A request: its body, and the names that lead back from what is answered.
#[verifier::ext_equal]
pub struct RequestView {
    pub body: JsonView,
    pub names: Map<Seq<char>, BoundTool>,
}

/// The request whose tool list holds `listed`, or why there is none.
pub open spec fn request_with_tools(
    request: ResponsesApiRequest,
    listed: Seq<JsonView>,
    prompt_caching: AnthropicPromptCaching,
) -> Result<RequestView, Seq<char>> {
    match tool_set(listed + additional_tools(items_view(request.input@))) {
        Ok(set) => Ok(
            RequestView {
                body: request_body(request, set, prompt_caching),
                names: set.names,
            },
        ),
        Err(message) => Err(message),
    }
}

/// The request, or why there is none.
pub open spec fn messages_request(
    request: ResponsesApiRequest,
    prompt_caching: AnthropicPromptCaching,
) -> Result<RequestView, Seq<char>> {
    match text_view(request.tools) {
        Some(text) => match parsed(text) {
            Ok(document) => request_with_tools(request, listed_tools(document), prompt_caching),
            Err(message) => Err("failed to serialize Responses tools: "@ + message),
        },
        None => request_with_tools(request, Seq::empty(), prompt_caching),
    }
}

/// Whether `place` is that of a block.
pub open spec fn is_block(messages: Seq<MessageView>, place: Place) -> bool {
    &&& 0 <= place.message < messages.len()
    &&& 0 <= place.block < messages[place.message].content.len()
}

/// The latest content of a conversation is in it.
pub proof fn lemma_latest_in_conversation(
    instructions: Seq<char>,
    items: Seq<ResponseItemView>,
    names: Map<Seq<char>, BoundTool>,
)
    ensures
        conversation(instructions, items, names).latest matches Some(latest) ==> is_block(
            conversation(instructions, items, names).messages,
            latest,
        ),
    decreases items.len(),
{
    if items.len() > 0 {
        lemma_latest_in_conversation(instructions, items.drop_last(), names);
    }
}

/// The tools that a parsed tool list holds, and those that the items bring.
fn gather_tools(listed: Vec<Json>, items: &Vec<ResponseItem>) -> (tools: Vec<Json>)
    ensures
        array_view(tools@) == array_view(listed@) + additional_tools(items_view(items@)),
{
    let mut tools = listed;
    let ghost all = items_view(items@);
    let mut at: usize = 0;
    assert(array_view(tools@) =~= array_view(listed@) + additional_tools(all.take(0)));
    while at < items.len()
        invariant
            at <= items@.len(),
            all == items_view(items@),
            array_view(tools@) == array_view(listed@) + additional_tools(all.take(at as int)),
        decreases items@.len() - at,
    {
        assert(all.take(at + 1).drop_last() =~= all.take(at as int));
        if let ResponseItem::AdditionalTools { tools: brought } = &items[at] {
            let ghost before = array_view(tools@);
            let ghost new = array_view(brought@);
            let mut next: usize = 0;
            proof {
                lemma_array_view(brought@);
                assert(before =~= before + new.take(0));
            }
            while next < brought.len()
                invariant
                    next <= brought@.len(),
                    new == array_view(brought@),
                    new.len() == brought@.len(),
                    array_view(tools@) == before + new.take(next as int),
                decreases brought@.len() - next,
            {
                let ghost kept = tools@;
                tools.push(brought[next].copy());
                proof {
                    lemma_array_view(brought@);
                    assert(tools@.drop_last() =~= kept);
                    assert(new.take(next + 1) =~= new.take(next as int).push(new[next as int]));
                    assert(array_view(tools@) =~= before + new.take(next + 1));
                }
                next = next + 1;
            }
            proof {
                assert(new.take(next as int) =~= new);
                assert(array_view(tools@) =~= array_view(listed@) + additional_tools(
                    all.take(at + 1),
                ));
            }
        }
        at = at + 1;
    }
    assert(all.take(at as int) =~= all);
    tools
}

/// The tools that a parsed tool list holds; what is no list holds none.
pub fn tools_in(document: Json) -> (tools: Vec<Json>)
    ensures
        array_view(tools@) == listed_tools(document@),
{
    match document {
        Json::Array(items) => items,
        _ => Vec::new(),
    }
}

/// A conversation that is being put together.
struct Draft {
    system: String,
    messages: Vec<Message>,
    latest: Option<MessageContentStart>,
}

impl View for Draft {
    type V = Conversation;

    closed spec fn view(&self) -> Conversation {
        Conversation {
            system: self.system@,
            messages: messages_view(self.messages@),
            latest: place_view(self.latest),
        }
    }
}

impl Draft {
    /// `role` says `content`.
    fn say(&mut self, role: &str, content: Vec<Json>)
        ensures
            final(self)@ == old(self)@.say(role@, array_view(content@)),
    {
        self.latest = append_message(&mut self.messages, role, content);
    }

    /// `role` says one block.
    fn say_block(&mut self, role: &str, block: Json)
        ensures
            final(self)@ == old(self)@.say(role@, seq![block@]),
    {
        let mut content: Vec<Json> = Vec::new();
        content.push(block);
        proof {
            lemma_array_view(content@);
            assert(array_view(content@) =~= seq![block@]);
        }
        self.say(role, content);
    }

    /// Takes one more item.
    fn take(&mut self, item: &ResponseItem, names: &AnthropicToolNameMap)
        requires
            names.well_formed(),
        ensures
            final(self)@ == old(self)@.take(item@, names@),
    {
        match item {
            ResponseItem::Message { role, content, .. } => {
                if same_text(role.as_str(), "developer") || same_text(role.as_str(), "system") {
                    let text = content_text(content);
                    append_system_text(&mut self.system, text.as_str());
                } else if same_text(role.as_str(), "user") || same_text(role.as_str(), "assistant") {
                    let blocks = content_to_anthropic(content);
                    self.say(role.as_str(), blocks);
                }
            },
            ResponseItem::FunctionCall { name, namespace, arguments, call_id, .. } => {
                let input = function_call_input(parse(arguments.as_str()));
                let tool = ToolName::new(copy_text(namespace), name.clone());
                let block = tool_use_json(names, call_id.as_str(), &tool, input);
                self.say_block("assistant", block);
            },
            ResponseItem::CustomToolCall { name, namespace, call_id, input, .. } => {
                let input = Json::object().with("input", Json::string(input.as_str()));
                let tool = ToolName::new(copy_text(namespace), name.clone());
                let block = tool_use_json(names, call_id.as_str(), &tool, input);
                self.say_block("assistant", block);
            },
            ResponseItem::FunctionCallOutput { call_id: Some(call_id), output } => {
                let content = tool_output_to_anthropic(output);
                self.say_block("user", tool_result_json(call_id.as_str(), content));
            },
            ResponseItem::CustomToolCallOutput { call_id, output } => {
                let content = tool_output_to_anthropic(output);
                self.say_block("user", tool_result_json(call_id.as_str(), content));
            },
            _ => {},
        }
    }
}

/// Whether a turn calls a tool.
fn has_tool_use(content: &Vec<Json>) -> (calls: bool)
    ensures
        calls == calls_tool(array_view(content@)),
{
    proof {
        lemma_array_view(content@);
    }
    let mut at: usize = 0;
    while at < content.len()
        invariant
            at <= content@.len(),
            array_view(content@).len() == content@.len(),
            forall|i: int|
                0 <= i < at ==> (#[trigger] array_view(content@)[i]).text_field("type"@) != Some(
                    "tool_use"@,
                ),
        decreases content@.len() - at,
    {
        proof {
            lemma_array_view(content@);
            assert(array_view(content@)[at as int] == content@[at as int]@);
        }
        if let Some(kind) = content[at].get_str("type") {
            if same_text(kind, "tool_use") {
                return true;
            }
        }
        at = at + 1;
    }
    false
}

/// Hands the turn to the user, where the assistant has it and calls no tool.
fn hand_over(messages: &mut Vec<Message>)
    ensures
        messages_view(final(messages)@) == continued(messages_view(old(messages)@)),
{
    if messages.len() == 0 {
        return;
    }
    let last: usize = messages.len() - 1;
    assert(messages_view(messages@).last() == messages@[last as int]@);
    if same_text(messages[last].role.as_str(), "assistant") && !has_tool_use(
        &messages[last].content,
    ) {
        let mut content: Vec<Json> = Vec::new();
        content.push(text_block_json(ANTHROPIC_MESSAGES_CONTINUATION_PROMPT));
        proof {
            lemma_array_view(content@);
            assert(array_view(content@) =~= seq![
                text_block(ANTHROPIC_MESSAGES_CONTINUATION_PROMPT@),
            ]);
        }
        append_message(messages, "user", content);
    }
}

/// The turns as JSON.
fn messages_to_json(messages: Vec<Message>) -> (json: Json)
    ensures
        json@ == JsonView::Array(messages_json(messages_view(messages@))),
{
    let ghost all = messages_view(messages@);
    let ghost turns = messages@;
    let mut list: Vec<Json> = Vec::new();
    for message in it: messages
        invariant
            it.seq() == turns,
            all == messages_view(turns),
            list@.len() == it.index(),
            forall|i: int| 0 <= i < list@.len() ==> (#[trigger] list@[i])@ == message_json(all[i]),
    {
        assert(all[it.index()] == message@);
        list.push(
            Json::object().with("role", Json::String(message.role)).with(
                "content",
                Json::Array(message.content),
            ),
        );
    }
    proof {
        lemma_array_view(list@);
        assert(array_view(list@) =~= messages_json(all));
    }
    Json::Array(list)
}

/// The system prompt as JSON, marked for the cache where there is one.
fn system_to_json(system: String, prompt_caching: AnthropicPromptCaching) -> (json: Json)
    ensures
        json@ == system_json(system@, prompt_caching),
{
    match prompt_caching {
        AnthropicPromptCaching::Disabled => Json::String(system),
        _ => Json::single(
            text_block_json(system.as_str()).with("cache_control", ephemeral_json()),
        ),
    }
}

/// Marks the last tool for the cache, where there is one.
fn mark_last_tool(tools: &mut Vec<Json>, prompt_caching: AnthropicPromptCaching)
    ensures
        array_view(final(tools)@) == cached_tools(array_view(old(tools)@), prompt_caching),
{
    proof {
        lemma_array_view(tools@);
    }
    match prompt_caching {
        AnthropicPromptCaching::Disabled => {},
        _ => {
            if tools.len() > 0 {
                let ghost before = tools@;
                let mut last = tools.pop().unwrap();
                last.insert("cache_control", ephemeral_json());
                tools.push(last);
                assert(tools@.drop_last() =~= before.drop_last());
                assert(array_view(before).drop_last() =~= array_view(before.drop_last()));
            }
        },
    }
}

/// A request to the Messages API, and the names that lead back from what it
/// answers.
#[derive(Debug)]
pub struct AnthropicMessagesRequest {
    pub body: Json,
    pub tool_name_map: AnthropicToolNameMap,
}

impl View for AnthropicMessagesRequest {
    type V = RequestView;

    open spec fn view(&self) -> RequestView {
        RequestView { body: self.body@, names: self.tool_name_map@ }
    }
}

/// The request whose tool list holds `listed`.
pub fn messages_request_with_tools(
    request: ResponsesApiRequest,
    listed: Vec<Json>,
    prompt_caching: AnthropicPromptCaching,
) -> (result: Result<AnthropicMessagesRequest, ApiError>)
    ensures
        match result {
            Ok(made) => {
                &&& made.tool_name_map.well_formed()
                &&& request_with_tools(request, array_view(listed@), prompt_caching) matches Ok(view)
                &&& view == made@
            },
            Err(error) => {
                &&& request_with_tools(request, array_view(listed@), prompt_caching) matches Err(
                    message,
                )
                &&& message == error@
            },
        },
{
    let choice = anthropic_tool_choice(request.tool_choice.as_str(), request.parallel_tool_calls);
    let gathered = gather_tools(listed, &request.input);
    let (mut tools, tool_name_map) = match anthropic_tools(&gathered) {
        Ok(pair) => pair,
        Err(error) => {
            return Err(error);
        },
    };
    let ghost set = tool_set(array_view(gathered@))->Ok_0;
    let ghost names = tool_name_map@;
    if choice.is_none() {
        tools.clear();
    }
    let mut draft = Draft {
        system: request.instructions.clone(),
        messages: Vec::new(),
        latest: None,
    };
    let ghost all = items_view(request.input@);
    let mut at: usize = 0;
    proof {
        assert(all.take(0) =~= Seq::empty());
        assert(draft@ =~= conversation(request.instructions@, all.take(0), names));
    }
    while at < request.input.len()
        invariant
            at <= request.input@.len(),
            all == items_view(request.input@),
            names == tool_name_map@,
            tool_name_map.well_formed(),
            draft@ == conversation(request.instructions@, all.take(at as int), names),
        decreases request.input@.len() - at,
    {
        assert(all.take(at + 1).drop_last() =~= all.take(at as int));
        draft.take(&request.input[at], &tool_name_map);
        at = at + 1;
    }
    let ghost talk = conversation(request.instructions@, all, names);
    proof {
        assert(all.take(at as int) =~= all);
        lemma_latest_in_conversation(request.instructions@, all, names);
    }
    let Draft { mut system, mut messages, latest } = draft;
    hand_over(&mut messages);
    append_system_text(&mut system, ANTHROPIC_MESSAGES_SHELL_RELIABILITY_INSTRUCTIONS);
    if let AnthropicPromptCaching::RollingHistory = prompt_caching {
        add_history_cache_checkpoint(&mut messages, latest);
    }
    assert(messages_view(messages@) == request_messages(talk, prompt_caching));
    assert(system@ == request_system(talk));
    let mut body = Json::object().with("model", Json::string(request.model.as_str())).with(
        "max_tokens",
        Json::Number(number(anthropic_max_tokens(&request.reasoning))),
    ).with("stream", Json::Bool(true)).with("messages", messages_to_json(messages));
    if !is_blank(system.as_str()) {
        body.insert("system", system_to_json(system, prompt_caching));
    }
    if let Some(thinking) = anthropic_thinking(&request.reasoning) {
        body.insert("thinking", thinking);
    }
    if let Some(output_config) = anthropic_output_config(&request.text) {
        body.insert("output_config", output_config);
    }
    if let Some(service_tier) = &request.service_tier {
        body.insert("service_tier", Json::string(service_tier.as_str()));
    }
    proof {
        lemma_array_view(tools@);
    }
    if tools.len() > 0 {
        mark_last_tool(&mut tools, prompt_caching);
        body.insert("tools", Json::Array(tools));
        if let Some(choice) = choice {
            body.insert("tool_choice", choice);
        }
    }
    assert(body@ == request_body(request, set, prompt_caching));
    Ok(AnthropicMessagesRequest { body, tool_name_map })
}

/// The request to the Messages API for the next turn of a conversation.
pub fn anthropic_messages_request(
    request: ResponsesApiRequest,
    prompt_caching: AnthropicPromptCaching,
) -> (result: Result<AnthropicMessagesRequest, ApiError>)
    ensures
        match result {
            Ok(made) => {
                &&& made.tool_name_map.well_formed()
                &&& messages_request(request, prompt_caching) matches Ok(view)
                &&& view == made@
            },
            Err(error) => {
                &&& messages_request(request, prompt_caching) matches Err(message)
                &&& message == error@
            },
        },
{
    let listed = match &request.tools {
        Some(text) => match parse(text.as_str()) {
            Ok(document) => tools_in(document),
            Err(message) => {
                return Err(
                    ApiError::stream("failed to serialize Responses tools: ", message.as_str()),
                );
            },
        },
        None => Vec::new(),
    };
    messages_request_with_tools(request, listed, prompt_caching)
}

} // verus!
