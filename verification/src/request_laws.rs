//! What holds of every request.

use crate::content::{content_blocks, image_block, text_block};
use crate::instructions::lemma_instructions_are_not_blank;
use crate::instructions::ANTHROPIC_MESSAGES_SHELL_RELIABILITY_INSTRUCTIONS;
use crate::json::JsonView;
use crate::messages::{appended, checkpoint, checkpointed, ephemeral, last_block, marked};
use crate::messages::{reachable, speaks_last, MessageView, Place};
use crate::protocol::{items_view, ContentItemView, Reasoning};
use crate::protocol::{ResponseItemView, ResponsesApiRequest};
use crate::reasoning::{max_tokens, thinking, thinking_budget, DEFAULT_ANTHROPIC_MAX_TOKENS};
use crate::request::{additional_tools, cached_tools, calls_tool, continued, conversation};
use crate::request::{ends_with_prefill, is_block, lemma_latest_in_conversation, messages_json};
use crate::request::{output_config, request_body, request_messages, request_system};
use crate::request::{request_tools, request_with_tools, system_json, tool_result, tool_use};
use crate::request::{utterance, AnthropicPromptCaching, Conversation};
use crate::request::ANTHROPIC_MESSAGES_CONTINUATION_PROMPT;
use crate::text::{blank, text_view, white_space};
use crate::tool_laws::{law_tools_come_out_in_order, sent_members, sent_tools};
use crate::tool_names::{BoundTool, ToolNameView};
use crate::tools::{function_tool, tool_choice, tool_set, ToolSet};
use crate::value::number_of;
use vstd::prelude::*;

verus! {

/// Whether a turn is one of the user or of the assistant, and says something.
pub open spec fn is_turn(message: MessageView) -> bool {
    &&& message.role == "user"@ || message.role == "assistant"@
    &&& message.content.len() > 0
}

/// Whether a conversation is made of turns that change hands each time.
pub open spec fn takes_turns(messages: Seq<MessageView>) -> bool {
    &&& forall|i: int| 0 <= i < messages.len() ==> is_turn(#[trigger] messages[i])
    &&& forall|i: int, j: int|
        #![trigger messages[i], messages[j]]
        0 <= i && j == i + 1 && j < messages.len() ==> messages[i].role != messages[j].role
}

proof fn lemma_append_takes_turns(
    messages: Seq<MessageView>,
    role: Seq<char>,
    content: Seq<JsonView>,
)
    requires
        takes_turns(messages),
        role == "user"@ || role == "assistant"@,
    ensures
        takes_turns(appended(messages, role, content)),
{
    if content.len() > 0 {
        let next = appended(messages, role, content);
        let kept = next.len() - 1;
        assert forall|i: int| 0 <= i < next.len() implies is_turn(#[trigger] next[i]) by {
            if i < kept {
                assert(next[i] == messages[i]);
            }
        }
        assert forall|i: int, j: int|
            #![trigger next[i], next[j]]
            0 <= i && j == i + 1 && j < next.len() implies next[i].role != next[j].role by {
            assert(next[i] == messages[i]);
            if j < kept {
                assert(next[j] == messages[j]);
            } else if speaks_last(messages, role) {
                assert(messages[j].role == role);
            } else {
                assert(messages.last() == messages[i]);
            }
        }
    }
}

pub proof fn lemma_conversation_takes_turns(
    instructions: Seq<char>,
    items: Seq<ResponseItemView>,
    names: Map<Seq<char>, BoundTool>,
)
    ensures
        takes_turns(conversation(instructions, items, names).messages),
    decreases items.len(),
{
    if items.len() > 0 {
        lemma_conversation_takes_turns(instructions, items.drop_last(), names);
        let front = conversation(instructions, items.drop_last(), names);
        if let Some(said) = utterance(items.last(), names) {
            lemma_append_takes_turns(front.messages, said.role, said.content);
        }
    }
}

/// Whether two conversations differ at most in what one block holds.
pub open spec fn same_but_for(
    left: Seq<MessageView>,
    right: Seq<MessageView>,
    place: Place,
) -> bool {
    &&& left.len() == right.len()
    &&& forall|i: int|
        #![trigger left[i]]
        0 <= i < left.len() ==> left[i].role == right[i].role && left[i].content.len()
            == right[i].content.len()
    &&& forall|i: int, j: int|
        #![trigger left[i].content[j]]
        0 <= i < left.len() && 0 <= j < left[i].content.len() && (i != place.message || j
            != place.block) ==> left[i].content[j] == right[i].content[j]
}

proof fn lemma_marked(messages: Seq<MessageView>, place: Place)
    requires
        is_block(messages, place),
    ensures
        same_but_for(marked(messages, Some(place)), messages, place),
        marked(messages, Some(place))[place.message].content[place.block]
            == messages[place.message].content[place.block].with("cache_control"@, ephemeral()),
{
}

pub proof fn lemma_continued_takes_turns(messages: Seq<MessageView>)
    requires
        takes_turns(messages),
    ensures
        takes_turns(continued(messages)),
        messages.is_prefix_of(continued(messages)),
{
    reveal_strlit("user");
    reveal_strlit("assistant");
    if ends_with_prefill(messages) {
        let block = text_block(ANTHROPIC_MESSAGES_CONTINUATION_PROMPT@);
        lemma_append_takes_turns(messages, "user"@, seq![block]);
        assert("user"@.len() != "assistant"@.len());
        assert(!speaks_last(messages, "user"@));
    }
}

/// Whether the block at `left` stands before the one at `right`.
pub open spec fn precedes(left: Place, right: Place) -> bool {
    left.message < right.message || (left.message == right.message && left.block < right.block)
}

pub proof fn lemma_last_block(messages: Seq<MessageView>, count: int)
    requires
        takes_turns(messages),
        0 <= count <= messages.len(),
    ensures
        last_block(messages, count) == if count == 0 {
            None
        } else {
            Some(Place { message: count - 1, block: messages[count - 1].content.len() - 1 })
        },
{
    if count > 0 {
        assert(is_turn(messages[count - 1]));
    }
}

/// The checkpoint is the block right before the latest content: it stands before
/// it, and every other block that does stands before the checkpoint. Without a
/// block before the latest content there is none.
pub proof fn law_checkpoint_is_right_before_latest(messages: Seq<MessageView>, latest: Place)
    requires
        takes_turns(messages),
        is_block(messages, latest),
    ensures
        match checkpoint(messages, Some(latest)) {
            Some(place) => {
                &&& is_block(messages, place)
                &&& precedes(place, latest)
                &&& forall|other: Place| #[trigger]
                    is_block(messages, other) && precedes(other, latest) ==> other == place
                        || precedes(other, place)
            },
            None => forall|other: Place| #[trigger]
                is_block(messages, other) ==> !precedes(other, latest),
        },
{
    lemma_last_block(messages, latest.message);
    if latest.block == 0 && latest.message > 0 {
        assert(is_turn(messages[latest.message - 1]));
    }
}

/// The turns of a request alternate between user and assistant, and none is
/// empty, whatever the items were and whatever is cached.
pub proof fn law_turns_alternate(
    instructions: Seq<char>,
    items: Seq<ResponseItemView>,
    names: Map<Seq<char>, BoundTool>,
    prompt_caching: AnthropicPromptCaching,
)
    ensures
        takes_turns(
            request_messages(conversation(instructions, items, names), prompt_caching),
        ),
{
    let talk = conversation(instructions, items, names);
    lemma_conversation_takes_turns(instructions, items, names);
    lemma_continued_takes_turns(talk.messages);
    lemma_latest_in_conversation(instructions, items, names);
    let plain = continued(talk.messages);
    let sent = request_messages(talk, prompt_caching);
    if let AnthropicPromptCaching::RollingHistory = prompt_caching {
        if let Some(latest) = talk.latest {
            assert(plain[latest.message].content.len() > latest.block);
            law_checkpoint_is_right_before_latest(plain, latest);
            if let Some(place) = checkpoint(plain, talk.latest) {
                lemma_marked(plain, place);
                assert forall|i: int| 0 <= i < sent.len() implies is_turn(#[trigger] sent[i]) by {
                    assert(is_turn(plain[i]));
                }
                assert forall|i: int, j: int|
                    #![trigger sent[i], sent[j]]
                    0 <= i && j == i + 1 && j < sent.len() implies sent[i].role != sent[j].role by {
                    assert(plain[i].role != plain[j].role);
                }
            }
        }
    }
}

/// Rolling history marks the checkpoint before the latest content and nothing
/// else in the turns; without it the turns carry no mark of the request's own.
pub proof fn law_only_the_checkpoint_is_marked(
    instructions: Seq<char>,
    items: Seq<ResponseItemView>,
    names: Map<Seq<char>, BoundTool>,
)
    ensures
        ({
            let talk = conversation(instructions, items, names);
            let plain = continued(talk.messages);
            let rolling = request_messages(talk, AnthropicPromptCaching::RollingHistory);
            &&& request_messages(talk, AnthropicPromptCaching::Disabled) == plain
            &&& request_messages(talk, AnthropicPromptCaching::SystemAndTools) == plain
            &&& match checkpoint(plain, talk.latest) {
                Some(place) => {
                    &&& is_block(plain, place)
                    &&& precedes(place, talk.latest->0)
                    &&& same_but_for(rolling, plain, place)
                    &&& rolling[place.message].content[place.block]
                        == plain[place.message].content[place.block].with(
                        "cache_control"@,
                        ephemeral(),
                    )
                },
                None => rolling == plain,
            }
        }),
{
    let talk = conversation(instructions, items, names);
    lemma_conversation_takes_turns(instructions, items, names);
    lemma_continued_takes_turns(talk.messages);
    lemma_latest_in_conversation(instructions, items, names);
    let plain = continued(talk.messages);
    if let Some(latest) = talk.latest {
        assert(plain[latest.message].content.len() > latest.block);
        law_checkpoint_is_right_before_latest(plain, latest);
        if let Some(place) = checkpoint(plain, talk.latest) {
            lemma_marked(plain, place);
        }
    }
}

proof fn lemma_last_block_by_lengths(
    left: Seq<MessageView>,
    right: Seq<MessageView>,
    count: int,
)
    requires
        count <= left.len(),
        left.len() == right.len(),
        forall|i: int|
            #![trigger left[i]]
            #![trigger right[i]]
            0 <= i < left.len() ==> left[i].content.len() == right[i].content.len(),
    ensures
        last_block(left, count) == last_block(right, count),
        last_block(left, count) matches Some(place) ==> is_block(left, place),
    decreases count,
{
    if count > 0 {
        assert(left[count - 1].content.len() == right[count - 1].content.len());
        lemma_last_block_by_lengths(left, right, count - 1);
    }
}

/// A second checkpoint at the same place changes nothing more.
pub proof fn law_checkpoint_is_set_once(messages: Seq<MessageView>, latest: Option<Place>)
    requires
        reachable(messages, latest),
    ensures
        checkpointed(checkpointed(messages, latest), latest) == checkpointed(messages, latest),
{
    let once = checkpointed(messages, latest);
    if let Some(latest) = latest {
        lemma_last_block_by_lengths(messages, messages, latest.message);
        lemma_last_block_by_lengths(messages, once, latest.message);
        assert(checkpoint(once, Some(latest)) == checkpoint(messages, Some(latest)));
        if let Some(place) = checkpoint(messages, Some(latest)) {
            if place.block < messages[place.message].content.len() {
                let block = messages[place.message].content[place.block];
                let mark = block.with("cache_control"@, ephemeral());
                if let JsonView::Object(map) = block {
                    let set = map.insert("cache_control"@, ephemeral());
                    assert(set.insert("cache_control"@, ephemeral()) =~= set);
                }
                assert(mark.with("cache_control"@, ephemeral()) == mark);
                assert(checkpointed(once, Some(latest))[place.message].content
                    =~= once[place.message].content);
                assert(checkpointed(once, Some(latest)) =~= once);
            }
        }
    }
}

/// No request ends with a turn of the assistant that waits for no tool.
pub proof fn law_never_ends_with_prefill(
    instructions: Seq<char>,
    items: Seq<ResponseItemView>,
    names: Map<Seq<char>, BoundTool>,
    prompt_caching: AnthropicPromptCaching,
)
    ensures
        !ends_with_prefill(
            request_messages(conversation(instructions, items, names), prompt_caching),
        ),
{
    let talk = conversation(instructions, items, names);
    let plain = continued(talk.messages);
    let sent = request_messages(talk, prompt_caching);
    reveal_strlit("user");
    reveal_strlit("assistant");
    assert("user"@.len() != "assistant"@.len());
    assert(!ends_with_prefill(plain));
    law_only_the_checkpoint_is_marked(instructions, items, names);
    if let AnthropicPromptCaching::RollingHistory = prompt_caching {
        if let Some(place) = checkpoint(plain, talk.latest) {
            let last = plain.len() - 1;
            if calls_tool(plain[last].content) {
                let i = choose|i: int|
                    0 <= i < plain[last].content.len() && (
                    #[trigger] plain[last].content[i]).text_field("type"@) == Some("tool_use"@);
                reveal_strlit("type");
                reveal_strlit("cache_control");
                assert("type"@.len() != "cache_control"@.len());
                assert(sent[last].content[i].text_field("type"@) == Some("tool_use"@));
            }
        }
    }
}

/// What a model may write leaves room to answer after what it may think for:
/// 1024 tokens, where 64 bits hold the sum; and it is never less than what a
/// model may write that does not think.
pub proof fn law_room_to_answer(reasoning: Option<Reasoning>)
    ensures
        max_tokens(reasoning) >= DEFAULT_ANTHROPIC_MAX_TOKENS,
        thinking_budget(reasoning) matches Some(budget) ==> budget > 0 && (budget <= u64::MAX - 1024
            ==> max_tokens(reasoning) >= budget + 1024),
        thinking_budget(reasoning) is None <==> thinking(reasoning) is None,
{
}

/// Every system prompt ends with the instructions for the shell, whatever the
/// session and the developer asked for, and starts with what they did ask for.
pub proof fn law_system_ends_with_shell_instructions(talk: Conversation)
    ensures
        ANTHROPIC_MESSAGES_SHELL_RELIABILITY_INSTRUCTIONS@.is_suffix_of(request_system(talk)),
        talk.system.is_prefix_of(request_system(talk)),
        !blank(request_system(talk)),
{
    lemma_instructions_are_not_blank();
    let instructions = ANTHROPIC_MESSAGES_SHELL_RELIABILITY_INSTRUCTIONS@;
    let system = request_system(talk);
    let lead = system.len() - instructions.len();
    assert(system.skip(lead) =~= instructions);
    let i = choose|i: int| 0 <= i < instructions.len() && !white_space(#[trigger] instructions[i]);
    assert(system[lead + i] == instructions[i]);
}

/// What the body of a request holds, field by field. The system prompt is always
/// there; the tools and what the model may do with them are there together or
/// not at all, and never where the choice is `none`.
pub proof fn law_body_fields(
    request: ResponsesApiRequest,
    set: ToolSet,
    prompt_caching: AnthropicPromptCaching,
)
    ensures
        ({
            let body = request_body(request, set, prompt_caching);
            let talk = conversation(request.instructions@, items_view(request.input@), set.names);
            let tools = request_tools(request, set, prompt_caching);
            let choice = tool_choice(request.tool_choice@, request.parallel_tool_calls);
            &&& body.field("model"@) == Some(JsonView::String(request.model@))
            &&& body.field("max_tokens"@) == Some(
                JsonView::Number(number_of(max_tokens(request.reasoning))),
            )
            &&& body.field("stream"@) == Some(JsonView::Bool(true))
            &&& body.field("messages"@) == Some(
                JsonView::Array(messages_json(request_messages(talk, prompt_caching))),
            )
            &&& body.field("system"@) == Some(system_json(request_system(talk), prompt_caching))
            &&& body.field("thinking"@) == thinking(request.reasoning)
            &&& body.field("output_config"@) == output_config(request.text)
            &&& body.field("service_tier"@) == match text_view(request.service_tier) {
                Some(tier) => Some(JsonView::String(tier)),
                None => None,
            }
            &&& body.field("tools"@) == if tools.len() > 0 {
                Some(JsonView::Array(tools))
            } else {
                None
            }
            &&& body.field("tool_choice"@) == if tools.len() > 0 {
                choice
            } else {
                None
            }
            &&& body.field("tools"@) is Some <==> body.field("tool_choice"@) is Some
            &&& request.tool_choice@ == "none"@ ==> body.field("tools"@) is None
        }),
{
    reveal_strlit("model");
    reveal_strlit("max_tokens");
    reveal_strlit("stream");
    reveal_strlit("messages");
    reveal_strlit("system");
    reveal_strlit("thinking");
    reveal_strlit("output_config");
    reveal_strlit("service_tier");
    reveal_strlit("tools");
    reveal_strlit("tool_choice");
    assert("model"@.len() == 5 && "max_tokens"@.len() == 10 && "stream"@.len() == 6);
    assert("messages"@.len() == 8 && "system"@.len() == 6 && "thinking"@.len() == 8);
    assert("output_config"@.len() == 13 && "service_tier"@.len() == 12);
    assert("tools"@.len() == 5 && "tool_choice"@.len() == 11);
    assert("model"@[0] != "tools"@[0]);
    assert("stream"@[1] != "system"@[1]);
    assert("messages"@[0] != "thinking"@[0]);
    let talk = conversation(request.instructions@, items_view(request.input@), set.names);
    law_system_ends_with_shell_instructions(talk);
}

/// Whether a document bears no mark for the cache.
pub open spec fn unmarked(document: JsonView) -> bool {
    document.field("cache_control"@) is None
}

/// Whether none of the documents bears a mark.
pub open spec fn all_unmarked(documents: Seq<JsonView>) -> bool {
    forall|i: int| 0 <= i < documents.len() ==> unmarked(#[trigger] documents[i])
}

/// Whether no block of a conversation bears a mark.
pub open spec fn no_block_marked(messages: Seq<MessageView>) -> bool {
    forall|i: int| 0 <= i < messages.len() ==> all_unmarked((#[trigger] messages[i]).content)
}

/// No field of what the library builds is called like the mark.
proof fn lemma_mark_is_no_other_field()
    ensures
        forall|text: Seq<char>| unmarked(#[trigger] text_block(text)),
        forall|url: Seq<char>|
            (#[trigger] image_block(url)) matches Some(block) ==> unmarked(block),
        forall|tool: JsonView, name: Seq<char>| unmarked(#[trigger] function_tool(tool, name)),
        forall|
            names: Map<Seq<char>, BoundTool>,
            call_id: Seq<char>,
            tool: ToolNameView,
            input: JsonView,
        |
            unmarked(#[trigger] tool_use(names, call_id, tool, input)),
        forall|call_id: Seq<char>, content: JsonView|
            unmarked(#[trigger] tool_result(call_id, content)),
{
    reveal_strlit("cache_control");
    reveal_strlit("type");
    reveal_strlit("text");
    reveal_strlit("source");
    reveal_strlit("name");
    reveal_strlit("description");
    reveal_strlit("input_schema");
    reveal_strlit("id");
    reveal_strlit("input");
    reveal_strlit("tool_use_id");
    reveal_strlit("content");
    assert("cache_control"@.len() == 13 && "type"@.len() == 4 && "text"@.len() == 4);
    assert("source"@.len() == 6 && "name"@.len() == 4 && "description"@.len() == 11);
    assert("input_schema"@.len() == 12 && "id"@.len() == 2 && "input"@.len() == 5);
    assert("tool_use_id"@.len() == 11 && "content"@.len() == 7);
}

proof fn lemma_content_unmarked(content: Seq<ContentItemView>)
    ensures
        all_unmarked(content_blocks(content)),
    decreases content.len(),
{
    if content.len() > 0 {
        lemma_content_unmarked(content.drop_last());
        lemma_mark_is_no_other_field();
    }
}

proof fn lemma_append_unmarked(
    messages: Seq<MessageView>,
    role: Seq<char>,
    content: Seq<JsonView>,
)
    requires
        no_block_marked(messages),
        all_unmarked(content),
    ensures
        no_block_marked(appended(messages, role, content)),
{
    let next = appended(messages, role, content);
    assert forall|i: int| 0 <= i < next.len() implies all_unmarked(
        (#[trigger] next[i]).content,
    ) by {
        if i < messages.len() {
            assert(all_unmarked(messages[i].content));
        }
    }
}

proof fn lemma_conversation_unmarked(
    instructions: Seq<char>,
    items: Seq<ResponseItemView>,
    names: Map<Seq<char>, BoundTool>,
)
    ensures
        no_block_marked(conversation(instructions, items, names).messages),
    decreases items.len(),
{
    if items.len() > 0 {
        lemma_conversation_unmarked(instructions, items.drop_last(), names);
        lemma_mark_is_no_other_field();
        let front = conversation(instructions, items.drop_last(), names);
        if let ResponseItemView::Message { content, .. } = items.last() {
            lemma_content_unmarked(content);
        }
        if let Some(said) = utterance(items.last(), names) {
            lemma_append_unmarked(front.messages, said.role, said.content);
        }
    }
}

proof fn lemma_tools_unmarked(tools: Seq<JsonView>)
    ensures
        all_unmarked(sent_tools(tools)),
    decreases tools.len(),
{
    lemma_mark_is_no_other_field();
    if tools.len() > 0 {
        lemma_tools_unmarked(tools.drop_last());
        let tool = tools.last();
        if let (Some(namespace), Some(members)) = (tool.text_field("name"@), tool.members()) {
            lemma_members_unmarked(namespace, members);
        }
    }
}

proof fn lemma_members_unmarked(namespace: Seq<char>, members: Seq<JsonView>)
    ensures
        all_unmarked(sent_members(namespace, members)),
    decreases members.len(),
{
    lemma_mark_is_no_other_field();
    if members.len() > 0 {
        lemma_members_unmarked(namespace, members.drop_last());
    }
}

/// Nothing bears a mark until the request sets one: no tool that is listed, however
/// it was listed, and no block of the turns, whatever the items were.
pub proof fn law_nothing_is_marked_beforehand(
    tools: Seq<JsonView>,
    instructions: Seq<char>,
    items: Seq<ResponseItemView>,
    names: Map<Seq<char>, BoundTool>,
)
    ensures
        tool_set(tools) matches Ok(set) ==> all_unmarked(set.tools),
        no_block_marked(continued(conversation(instructions, items, names).messages)),
{
    law_tools_come_out_in_order(tools);
    lemma_tools_unmarked(tools);
    lemma_conversation_unmarked(instructions, items, names);
    lemma_mark_is_no_other_field();
    let messages = conversation(instructions, items, names).messages;
    let block = text_block(ANTHROPIC_MESSAGES_CONTINUATION_PROMPT@);
    lemma_append_unmarked(messages, "user"@, seq![block]);
}

/// A gateway that knows no marks gets none: without caching neither the body itself
/// nor a tool in it nor a block of its turns bears one, and the system prompt is
/// plain text.
pub proof fn law_without_caching_nothing_is_marked(
    request: ResponsesApiRequest,
    listed: Seq<JsonView>,
)
    ensures
        request_with_tools(request, listed, AnthropicPromptCaching::Disabled) matches Ok(made) ==> {
            &&& unmarked(made.body)
            &&& made.body.field("system"@) matches Some(system) && system is String
            &&& made.body.field("tools"@) matches Some(tools) ==> tools matches JsonView::Array(
                tools,
            ) && all_unmarked(tools)
            &&& exists|messages: Seq<MessageView>|
                {
                    &&& made.body.field("messages"@) == Some(
                        JsonView::Array(#[trigger] messages_json(messages)),
                    )
                    &&& no_block_marked(messages)
                }
        },
{
    let prompt_caching = AnthropicPromptCaching::Disabled;
    let items = items_view(request.input@);
    let tools = listed + additional_tools(items);
    if let Ok(set) = tool_set(tools) {
        let talk = conversation(request.instructions@, items, set.names);
        law_nothing_is_marked_beforehand(tools, request.instructions@, items, set.names);
        law_body_fields(request, set, prompt_caching);
        assert(request_messages(talk, prompt_caching) == continued(talk.messages));
        lemma_body_unmarked(request, set, prompt_caching);
    }
}

proof fn lemma_body_unmarked(
    request: ResponsesApiRequest,
    set: ToolSet,
    prompt_caching: AnthropicPromptCaching,
)
    ensures
        unmarked(request_body(request, set, prompt_caching)),
{
    reveal_strlit("cache_control");
    reveal_strlit("model");
    reveal_strlit("max_tokens");
    reveal_strlit("stream");
    reveal_strlit("messages");
    reveal_strlit("system");
    reveal_strlit("thinking");
    reveal_strlit("output_config");
    reveal_strlit("service_tier");
    reveal_strlit("tools");
    reveal_strlit("tool_choice");
    assert("cache_control"@.len() == 13 && "model"@.len() == 5 && "max_tokens"@.len() == 10);
    assert("stream"@.len() == 6 && "messages"@.len() == 8 && "system"@.len() == 6);
    assert("thinking"@.len() == 8 && "output_config"@.len() == 13);
    assert("service_tier"@.len() == 12 && "tools"@.len() == 5 && "tool_choice"@.len() == 11);
    assert("cache_control"@[0] != "output_config"@[0]);
}

/// Without caching the system prompt is plain text and the tools are as they are.
/// Otherwise a mark is set on the system prompt and on the last tool, and on no
/// other tool.
pub proof fn law_marks_on_system_and_tools(
    system: Seq<char>,
    tools: Seq<JsonView>,
    prompt_caching: AnthropicPromptCaching,
)
    ensures
        cached_tools(tools, prompt_caching).len() == tools.len(),
        forall|i: int|
            0 <= i < tools.len() - 1 ==> #[trigger] cached_tools(tools, prompt_caching)[i]
                == tools[i],
        prompt_caching == AnthropicPromptCaching::Disabled ==> {
            &&& system_json(system, prompt_caching) == JsonView::String(system)
            &&& cached_tools(tools, prompt_caching) == tools
        },
        prompt_caching != AnthropicPromptCaching::Disabled ==> {
            &&& system_json(system, prompt_caching) == JsonView::Array(
                seq![text_block(system).with("cache_control"@, ephemeral())],
            )
            &&& tools.len() > 0 ==> cached_tools(tools, prompt_caching).last()
                == tools.last().with("cache_control"@, ephemeral())
        },
{
}

/// Whether an item is passed over: it neither adds to the system prompt nor says
/// anything. Besides what no Messages request is made of, that is a result without
/// a call, and a message of anyone but the developer, the system, the user and the
/// assistant.
pub open spec fn passed_over(item: ResponseItemView) -> bool {
    match item {
        ResponseItemView::Message { role, .. } => {
            &&& role != "developer"@ && role != "system"@
            &&& role != "user"@ && role != "assistant"@
        },
        ResponseItemView::FunctionCallOutput { call_id, .. } => call_id is None,
        ResponseItemView::Reasoning { .. } => true,
        ResponseItemView::AdditionalTools { .. } => true,
        ResponseItemView::Unread => true,
        _ => false,
    }
}

/// The items that are not passed over.
pub open spec fn read_items(items: Seq<ResponseItemView>) -> Seq<ResponseItemView>
    decreases items.len(),
{
    if items.len() == 0 {
        Seq::empty()
    } else if passed_over(items.last()) {
        read_items(items.drop_last())
    } else {
        read_items(items.drop_last()).push(items.last())
    }
}

proof fn lemma_read_items(
    instructions: Seq<char>,
    items: Seq<ResponseItemView>,
    names: Map<Seq<char>, BoundTool>,
)
    ensures
        conversation(instructions, read_items(items), names) == conversation(
            instructions,
            items,
            names,
        ),
        additional_tools(read_items(items)) == Seq::<JsonView>::empty(),
    decreases items.len(),
{
    if items.len() > 0 {
        lemma_read_items(instructions, items.drop_last(), names);
        if !passed_over(items.last()) {
            assert(read_items(items).drop_last() =~= read_items(items.drop_last()));
        }
    }
}

/// Items that are passed over change nothing: the request, or its refusal, is the
/// same without them, where the tools that they bring are appended to the list.
pub proof fn law_unread_items_change_nothing(
    request: ResponsesApiRequest,
    trimmed: ResponsesApiRequest,
    listed: Seq<JsonView>,
    prompt_caching: AnthropicPromptCaching,
)
    requires
        trimmed == (ResponsesApiRequest { input: trimmed.input, ..request }),
        items_view(trimmed.input@) == read_items(items_view(request.input@)),
    ensures
        request_with_tools(request, listed, prompt_caching) == request_with_tools(
            trimmed,
            listed + additional_tools(items_view(request.input@)),
            prompt_caching,
        ),
{
    let items = items_view(request.input@);
    let all = listed + additional_tools(items);
    let names = tool_set(all)->Ok_0.names;
    lemma_read_items(request.instructions@, items, names);
    assert(all + Seq::<JsonView>::empty() =~= all);
}

/// One block, and who says it.
pub struct Saying {
    pub role: Seq<char>,
    pub block: JsonView,
}

/// What one turn says, block by block.
pub open spec fn sayings(role: Seq<char>, content: Seq<JsonView>) -> Seq<Saying> {
    Seq::new(content.len(), |i: int| Saying { role, block: content[i] })
}

/// What a conversation says, block by block.
pub open spec fn said(messages: Seq<MessageView>) -> Seq<Saying>
    decreases messages.len(),
{
    if messages.len() == 0 {
        Seq::empty()
    } else {
        said(messages.drop_last()) + sayings(messages.last().role, messages.last().content)
    }
}

/// What one item says in a conversation.
pub open spec fn item_says(item: ResponseItemView, names: Map<Seq<char>, BoundTool>) -> Seq<
    Saying,
> {
    match utterance(item, names) {
        Some(said) => sayings(said.role, said.content),
        None => Seq::empty(),
    }
}

/// What the items say, one after the other.
pub open spec fn items_say(
    items: Seq<ResponseItemView>,
    names: Map<Seq<char>, BoundTool>,
) -> Seq<Saying>
    decreases items.len(),
{
    if items.len() == 0 {
        Seq::empty()
    } else {
        items_say(items.drop_last(), names) + item_says(items.last(), names)
    }
}

pub proof fn lemma_append_says(messages: Seq<MessageView>, role: Seq<char>, content: Seq<JsonView>)
    ensures
        said(appended(messages, role, content)) == said(messages) + sayings(role, content),
{
    let next = appended(messages, role, content);
    if content.len() == 0 {
        assert(said(messages) + sayings(role, content) =~= said(messages));
    } else if speaks_last(messages, role) {
        assert(next.drop_last() =~= messages.drop_last());
        assert(sayings(role, messages.last().content + content) =~= sayings(
            role,
            messages.last().content,
        ) + sayings(role, content));
        assert(said(next) =~= said(messages) + sayings(role, content));
    } else {
        assert(next.drop_last() =~= messages);
    }
}

pub proof fn lemma_kinds_of_speakers()
    ensures
        "user"@ != "developer"@,
        "user"@ != "system"@,
        "assistant"@ != "developer"@,
        "assistant"@ != "system"@,
{
    reveal_strlit("user");
    reveal_strlit("assistant");
    reveal_strlit("developer");
    reveal_strlit("system");
    assert("user"@.len() == 4 && "assistant"@.len() == 9);
    assert("developer"@.len() == 9 && "system"@.len() == 6);
    assert("assistant"@[0] != "developer"@[0]);
}

/// A conversation says what its items say: nothing is lost, added or put in
/// another order, and nobody else says it, however the turns are drawn.
pub proof fn law_conversation_says_what_items_say(
    instructions: Seq<char>,
    items: Seq<ResponseItemView>,
    names: Map<Seq<char>, BoundTool>,
)
    ensures
        said(conversation(instructions, items, names).messages) == items_say(items, names),
    decreases items.len(),
{
    if items.len() > 0 {
        law_conversation_says_what_items_say(instructions, items.drop_last(), names);
        lemma_kinds_of_speakers();
        let front = conversation(instructions, items.drop_last(), names).messages;
        let so_far = items_say(items.drop_last(), names);
        match utterance(items.last(), names) {
            Some(said) => lemma_append_says(front, said.role, said.content),
            None => assert(so_far + Seq::empty() =~= so_far),
        }
    }
}

proof fn lemma_items_say_more(
    items: Seq<ResponseItemView>,
    more: Seq<ResponseItemView>,
    names: Map<Seq<char>, BoundTool>,
)
    ensures
        items_say(items + more, names) == items_say(items, names) + items_say(more, names),
    decreases more.len(),
{
    if more.len() == 0 {
        assert(items + more =~= items);
        assert(items_say(items, names) + items_say(more, names) =~= items_say(items, names));
    } else {
        lemma_items_say_more(items, more.drop_last(), names);
        assert((items + more).drop_last() =~= items + more.drop_last());
        assert(items_say(items + more, names) =~= items_say(items, names) + items_say(more, names));
    }
}

/// The history only grows: what a conversation said before more items came is how
/// it starts afterwards, so that a cached start stays good.
pub proof fn law_history_only_grows(
    instructions: Seq<char>,
    items: Seq<ResponseItemView>,
    more: Seq<ResponseItemView>,
    names: Map<Seq<char>, BoundTool>,
)
    ensures
        said(conversation(instructions, items, names).messages).is_prefix_of(
            said(conversation(instructions, items + more, names).messages),
        ),
{
    law_conversation_says_what_items_say(instructions, items, names);
    law_conversation_says_what_items_say(instructions, items + more, names);
    lemma_items_say_more(items, more, names);
}

} // verus!
