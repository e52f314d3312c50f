//! What each item does to a conversation, and where the checkpoint comes to stand.

use crate::content::{content_blocks, joined, text_block, texts, tool_output};
use crate::content_laws::{is_text_block, lemma_text_block, law_tool_output_comes_through};
use crate::json::{array_view, json_view, Json, JsonView};
use crate::messages::{append_place, appended, checkpoint, checkpointed, ephemeral, last_block};
use crate::messages::{marked, messages_view, place_view, reachable, speaks_last};
use crate::messages::{Message, MessageContentStart, MessageView, Place};
use crate::protocol::{content_view, items_view, ContentItem, ContentItemView, ItemIdView};
use crate::protocol::{ReasoningItemContent, ResponseItem, ResponseItemId, ResponseItemView};
use crate::request::{additional_tools, call_input, continued, conversation, is_block};
use crate::request::{lemma_latest_in_conversation, request_messages, system_text, tool_result};
use crate::request::{tool_use, utterance, Utterance};
use crate::request::{AnthropicPromptCaching, Conversation, ANTHROPIC_MESSAGES_CONTINUATION_PROMPT};
use crate::request_laws::{lemma_append_says, lemma_continued_takes_turns};
use crate::request_laws::{lemma_conversation_takes_turns, lemma_kinds_of_speakers};
use crate::request_laws::{lemma_last_block, said, sayings, Saying};
use crate::text::{blank, text_view};
use crate::tool_names::{flat_name, is_bound, BoundTool, ToolNameView};
use crate::value::parsed;
use vstd::prelude::*;

verus! {

/// What a conversation says after some items.
pub open spec fn said_after(
    instructions: Seq<char>,
    items: Seq<ResponseItemView>,
    names: Map<Seq<char>, BoundTool>,
) -> Seq<Saying> {
    said(conversation(instructions, items, names).messages)
}

proof fn lemma_one_more(
    instructions: Seq<char>,
    items: Seq<ResponseItemView>,
    item: ResponseItemView,
    names: Map<Seq<char>, BoundTool>,
)
    ensures
        conversation(instructions, items.push(item), names) == conversation(
            instructions,
            items,
            names,
        ).take(item, names),
{
    assert(items.push(item).drop_last() =~= items);
}

/// Whether `name` is the one by which the Messages API knows a tool: the flat name
/// that it is bound under, or its own where it is bound under none.
pub open spec fn goes_by(
    names: Map<Seq<char>, BoundTool>,
    tool: ToolNameView,
    name: Seq<char>,
) -> bool {
    if exists|flat: Seq<char>| #[trigger] is_bound(names, flat, tool) {
        names.contains_key(name) && names[name].name == tool
    } else {
        name == tool.name
    }
}

/// The block of a tool call, with these four fields and no other.
pub open spec fn call_block(id: Seq<char>, name: Seq<char>, input: JsonView) -> JsonView {
    JsonView::Object(
        map![
            "type"@ => JsonView::String("tool_use"@),
            "id"@ => JsonView::String(id),
            "name"@ => JsonView::String(name),
            "input"@ => input,
        ],
    )
}

/// The block of a tool result, with these three fields and no other.
pub open spec fn result_block(id: Seq<char>, content: JsonView) -> JsonView {
    JsonView::Object(
        map![
            "type"@ => JsonView::String("tool_result"@),
            "tool_use_id"@ => JsonView::String(id),
            "content"@ => content,
        ],
    )
}

proof fn lemma_call_block(
    names: Map<Seq<char>, BoundTool>,
    id: Seq<char>,
    tool: ToolNameView,
    input: JsonView,
)
    ensures
        exists|name: Seq<char>| #[trigger]
            goes_by(names, tool, name) && tool_use(names, id, tool, input) == call_block(
                id,
                name,
                input,
            ),
{
    let name = match flat_name(names, tool) {
        Some(name) => name,
        None => tool.name,
    };
    assert(goes_by(names, tool, name));
    assert(tool_use(names, id, tool, input)->Object_0 =~= call_block(id, name, input)->Object_0);
}

proof fn lemma_says_one(
    instructions: Seq<char>,
    items: Seq<ResponseItemView>,
    item: ResponseItemView,
    names: Map<Seq<char>, BoundTool>,
    role: Seq<char>,
    block: JsonView,
)
    requires
        system_text(item) is None,
        utterance(item, names) == Some(Utterance { role, content: seq![block] }),
    ensures
        said_after(instructions, items.push(item), names) == said_after(
            instructions,
            items,
            names,
        ).push(Saying { role, block }),
{
    lemma_one_more(instructions, items, item, names);
    let front = conversation(instructions, items, names).messages;
    lemma_append_says(front, role, seq![block]);
    assert(said(front) + sayings(role, seq![block]) =~= said(front).push(Saying { role, block }));
}

/// A message of the user or of the assistant says its blocks, in their order and as
/// whom it is; a message of anyone else says nothing.
pub proof fn law_message_says_its_blocks(
    instructions: Seq<char>,
    items: Seq<ResponseItemView>,
    item: ResponseItem,
    names: Map<Seq<char>, BoundTool>,
)
    requires
        item is Message,
    ensures
        said_after(instructions, items.push(item@), names) == said_after(
            instructions,
            items,
            names,
        ) + (if item->Message_role@ == "user"@ || item->Message_role@ == "assistant"@ {
            let blocks = content_blocks(content_view(item->Message_content@));
            Seq::new(
                blocks.len(),
                |i: int| Saying { role: item->Message_role@, block: blocks[i] },
            )
        } else {
            Seq::empty()
        }),
{
    lemma_one_more(instructions, items, item@, names);
    lemma_kinds_of_speakers();
    let front = conversation(instructions, items, names).messages;
    let role = item->Message_role@;
    let blocks = content_blocks(content_view(item->Message_content@));
    lemma_append_says(front, role, blocks);
    assert(said(front) + Seq::empty() =~= said(front));
    assert(sayings(role, blocks) =~= Seq::new(
        blocks.len(),
        |i: int| Saying { role, block: blocks[i] },
    ));
}

/// A call is one block of the assistant: with the identifier of the call, the name by
/// which the Messages API knows the tool, and the input. The input of a function is
/// what its arguments parse to, or an empty object where they do not; that of a custom
/// tool is an object with the text in `input`.
pub proof fn law_call_says_one_block(
    instructions: Seq<char>,
    items: Seq<ResponseItemView>,
    item: ResponseItem,
    names: Map<Seq<char>, BoundTool>,
)
    ensures
        ({
            let before = said_after(instructions, items, names);
            let after = said_after(instructions, items.push(item@), names);
            match item {
                ResponseItem::FunctionCall { name, namespace, arguments, call_id, .. } => {
                    let tool = ToolNameView { name: name@, namespace: text_view(namespace) };
                    let input = match parsed(arguments@) {
                        Ok(document) => document,
                        Err(_) => JsonView::Object(Map::empty()),
                    };
                    exists|by: Seq<char>| #[trigger]
                        goes_by(names, tool, by) && after == before.push(
                            Saying {
                                role: "assistant"@,
                                block: call_block(call_id@, by, input),
                            },
                        )
                },
                ResponseItem::CustomToolCall { name, namespace, call_id, input, .. } => {
                    let tool = ToolNameView { name: name@, namespace: text_view(namespace) };
                    let input = JsonView::Object(map!["input"@ => JsonView::String(input@)]);
                    exists|by: Seq<char>| #[trigger]
                        goes_by(names, tool, by) && after == before.push(
                            Saying {
                                role: "assistant"@,
                                block: call_block(call_id@, by, input),
                            },
                        )
                },
                _ => true,
            }
        }),
{
    match item {
        ResponseItem::FunctionCall { name, namespace, arguments, call_id, .. } => {
            let tool = ToolNameView { name: name@, namespace: text_view(namespace) };
            let input = call_input(parsed(arguments@));
            let block = tool_use(names, call_id@, tool, input);
            lemma_says_one(instructions, items, item@, names, "assistant"@, block);
            lemma_call_block(names, call_id@, tool, input);
        },
        ResponseItem::CustomToolCall { name, namespace, call_id, input, .. } => {
            let tool = ToolNameView { name: name@, namespace: text_view(namespace) };
            let input = JsonView::object().with("input"@, JsonView::String(input@));
            let block = tool_use(names, call_id@, tool, input);
            lemma_says_one(instructions, items, item@, names, "assistant"@, block);
            lemma_call_block(names, call_id@, tool, input);
        },
        _ => {},
    }
}

/// The call that an item hands a result back for, and the result.
pub open spec fn result_of(item: ResponseItem) -> Option<(Seq<char>, Option<Json>)> {
    match item {
        ResponseItem::FunctionCallOutput { call_id: Some(call_id), output } => Some(
            (call_id@, output.serialized),
        ),
        ResponseItem::CustomToolCallOutput { call_id, output } => Some(
            (call_id@, output.serialized),
        ),
        _ => None,
    }
}

/// A result, be it of a function or of a custom tool, is one block of the user: with
/// the identifier of the call, and with what the tool handed back. A text that is not
/// blank comes back as that very text.
pub proof fn law_result_carries_what_the_tool_handed_back(
    instructions: Seq<char>,
    items: Seq<ResponseItemView>,
    item: ResponseItem,
    names: Map<Seq<char>, BoundTool>,
)
    ensures
        ({
            let before = said_after(instructions, items, names);
            let after = said_after(instructions, items.push(item@), names);
            result_of(item) matches Some((call_id, output)) ==> {
                let content = tool_output(json_view(output));
                &&& after == before.push(
                    Saying { role: "user"@, block: result_block(call_id, content) },
                )
                &&& output matches Some(Json::String(text)) ==> !blank(text@) ==> after
                    == before.push(
                    Saying {
                        role: "user"@,
                        block: result_block(call_id, JsonView::String(text@)),
                    },
                )
            }
        }),
{
    if let Some((call_id, output)) = result_of(item) {
        let content = tool_output(json_view(output));
        let block = tool_result(call_id, content);
        assert(block->Object_0 =~= result_block(call_id, content)->Object_0);
        law_tool_output_comes_through(json_view(output));
        lemma_says_one(instructions, items, item@, names, "user"@, block);
    }
}

/// Whether an item is one that no turn is made of.
pub open spec fn says_nothing(item: ResponseItem) -> bool {
    match item {
        ResponseItem::Message { role, .. } => role@ != "user"@ && role@ != "assistant"@,
        ResponseItem::FunctionCallOutput { call_id, .. } => call_id is None,
        ResponseItem::FunctionCall { .. } => false,
        ResponseItem::CustomToolCall { .. } => false,
        ResponseItem::CustomToolCallOutput { .. } => false,
        _ => true,
    }
}

/// Items that no turn is made of leave the turns as they are, and the place where the
/// latest content starts.
pub proof fn law_silent_items_leave_the_turns(
    instructions: Seq<char>,
    items: Seq<ResponseItemView>,
    item: ResponseItem,
    names: Map<Seq<char>, BoundTool>,
)
    requires
        says_nothing(item),
    ensures
        ({
            let talk = conversation(instructions, items, names);
            let next = conversation(instructions, items.push(item@), names);
            next.messages == talk.messages && next.latest == talk.latest
        }),
{
    lemma_one_more(instructions, items, item@, names);
}

/// The system prompt starts with the instructions and grows by what developer and
/// system messages say that is not blank, each in a paragraph of its own. Nothing else
/// changes it.
pub proof fn law_system_prompt_grows(
    instructions: Seq<char>,
    items: Seq<ResponseItemView>,
    item: ResponseItem,
    names: Map<Seq<char>, BoundTool>,
)
    ensures
        conversation(instructions, Seq::empty(), names) == (Conversation {
            system: instructions,
            messages: Seq::empty(),
            latest: None,
        }),
        ({
            let system = conversation(instructions, items, names).system;
            let next = conversation(instructions, items.push(item@), names).system;
            match item {
                ResponseItem::Message { role, content, .. } => {
                    let text = joined(texts(content_view(content@)), "\n"@);
                    if (role@ == "developer"@ || role@ == "system"@) && !blank(text) {
                        next == if blank(system) {
                            system + text
                        } else {
                            system + "\n\n"@ + text
                        }
                    } else {
                        next == system
                    }
                },
                _ => next == system,
            }
        }),
{
    lemma_one_more(instructions, items, item@, names);
}

/// The latest content starts where the last speaker began: from there to the end stand
/// exactly the blocks that the last item to say something said. A speaker who says
/// nothing leaves no such place.
pub proof fn law_latest_is_where_the_last_speaker_began(
    instructions: Seq<char>,
    items: Seq<ResponseItemView>,
    item: ResponseItem,
    names: Map<Seq<char>, BoundTool>,
)
    ensures
        ({
            let talk = conversation(instructions, items, names);
            let next = conversation(instructions, items.push(item@), names);
            let more = said(next.messages).len() - said(talk.messages).len();
            if more > 0 {
                &&& next.latest matches Some(latest)
                &&& latest.message == next.messages.len() - 1
                &&& 0 <= latest.block == next.messages.last().content.len() - more
            } else {
                next.latest == if says_nothing(item) {
                    talk.latest
                } else {
                    None
                }
            }
        }),
{
    lemma_one_more(instructions, items, item@, names);
    lemma_kinds_of_speakers();
    let talk = conversation(instructions, items, names);
    if let Some(spoken) = utterance(item@, names) {
        lemma_append_says(talk.messages, spoken.role, spoken.content);
    }
}

/// How many blocks stand before the block at a place.
pub open spec fn blocks_before(messages: Seq<MessageView>, place: Place) -> int {
    said(messages.take(place.message)).len() + place.block
}

proof fn lemma_said_update(messages: Seq<MessageView>, place: Place, block: JsonView)
    requires
        is_block(messages, place),
    ensures
        ({
            let message = messages[place.message];
            let content = message.content.update(place.block, block);
            let changed = messages.update(
                place.message,
                MessageView { role: message.role, content },
            );
            let at = blocks_before(messages, place);
            &&& 0 <= at < said(messages).len()
            &&& said(messages)[at] == (Saying {
                role: message.role,
                block: message.content[place.block],
            })
            &&& said(changed) == said(messages).update(at, Saying { role: message.role, block })
        }),
    decreases messages.len(),
{
    let message = messages[place.message];
    let content = message.content.update(place.block, block);
    let new = MessageView { role: message.role, content };
    let changed = messages.update(place.message, new);
    let at = blocks_before(messages, place);
    if place.message == messages.len() - 1 {
        assert(changed.drop_last() =~= messages.drop_last());
        assert(messages.take(place.message) =~= messages.drop_last());
    } else {
        let front = messages.drop_last();
        lemma_said_update(front, place, block);
        assert(changed.drop_last() =~= front.update(place.message, new));
        assert(front.take(place.message) =~= messages.take(place.message));
        assert(changed.last() == messages.last());
    }
    assert(said(changed) =~= said(messages).update(at, Saying { role: message.role, block }));
}

/// What is added goes to the end, block by block: to the turn of the role that spoke
/// last where that is the same, else to a turn of its own. The place that is told is
/// that of its first block. Saying nothing changes nothing and tells no place.
pub proof fn law_what_is_added_goes_to_the_end(
    messages: Seq<MessageView>,
    role: Seq<char>,
    content: Seq<JsonView>,
)
    ensures
        ({
            let next = appended(messages, role, content);
            let goes_on = messages.len() > 0 && messages.last().role == role;
            if content.len() == 0 {
                next == messages && append_place(messages, role, content) is None
            } else {
                &&& append_place(messages, role, content) matches Some(place)
                &&& next.len() == messages.len() + (if goes_on {
                    0int
                } else {
                    1
                })
                &&& next.drop_last() == if goes_on {
                    messages.drop_last()
                } else {
                    messages
                }
                &&& next.last().role == role
                &&& place.message == next.len() - 1
                &&& 0 <= place.block <= next.last().content.len()
                &&& next.last().content.skip(place.block) == content
                &&& next.last().content.take(place.block) == if goes_on {
                    messages.last().content
                } else {
                    Seq::empty()
                }
            }
        }),
{
    if content.len() > 0 {
        let next = appended(messages, role, content);
        let place = append_place(messages, role, content)->0;
        assert(next.last().content.skip(place.block) =~= content);
        if speaks_last(messages, role) {
            assert(next.drop_last() =~= messages.drop_last());
            assert(next.last().content.take(place.block) =~= messages.last().content);
        } else {
            assert(next.drop_last() =~= messages);
            assert(next.last().content.take(place.block) =~= Seq::empty());
        }
    }
}

/// The mark for the cache, and nothing else.
pub open spec fn is_mark(mark: JsonView) -> bool {
    mark == JsonView::Object(map!["type"@ => JsonView::String("ephemeral"@)])
}

/// Whether two runs of blocks are alike but for a mark on the block before `count`.
pub open spec fn marked_before(with: Seq<Saying>, without: Seq<Saying>, count: int) -> bool {
    &&& with.len() == without.len()
    &&& forall|i: int| 0 <= i < with.len() && i != count - 1 ==> #[trigger] with[i] == without[i]
    &&& count > 0 ==> exists|mark: JsonView| #[trigger]
        is_mark(mark) && with[count - 1] == (Saying {
            role: without[count - 1].role,
            block: without[count - 1].block.with("cache_control"@, mark),
        })
}

proof fn lemma_last_block_counted(messages: Seq<MessageView>, count: int)
    requires
        0 <= count <= messages.len(),
    ensures
        match last_block(messages, count) {
            Some(place) => is_block(messages, place) && blocks_before(messages, place) == said(
                messages.take(count),
            ).len() - 1,
            None => said(messages.take(count)).len() == 0,
        },
    decreases count,
{
    if count > 0 {
        assert(messages.take(count).drop_last() =~= messages.take(count - 1));
        lemma_last_block_counted(messages, count - 1);
    }
}

proof fn lemma_block_marked(messages: Seq<MessageView>, place: Place)
    requires
        is_block(messages, place),
    ensures
        marked_before(
            said(marked(messages, Some(place))),
            said(messages),
            blocks_before(messages, place) + 1,
        ),
{
    let mark = ephemeral();
    assert(is_mark(mark)) by {
        assert(mark->Object_0 =~= map!["type"@ => JsonView::String("ephemeral"@)]);
    }
    let block = messages[place.message].content[place.block];
    lemma_said_update(messages, place, block.with("cache_control"@, mark));
}

/// Whatever the turns are, a checkpoint marks the block before the place that it is
/// given, and no other block: the one with one block fewer before it. Without a place,
/// or with one that has no block before it, nothing changes.
pub proof fn law_checkpoint_marks_the_block_before(messages: Seq<MessageView>, latest: Place)
    requires
        reachable(messages, Some(latest)),
        0 <= latest.block,
    ensures
        latest.block == 0 || latest.block <= messages[latest.message].content.len()
            ==> marked_before(
            said(checkpointed(messages, Some(latest))),
            said(messages),
            blocks_before(messages, latest),
        ),
        latest.block > messages[latest.message].content.len() && latest.block > 0 ==> checkpointed(
            messages,
            Some(latest),
        ) == messages,
        checkpointed(messages, None) == messages,
{
    if latest.block == 0 {
        lemma_last_block_counted(messages, latest.message);
    }
    if let Some(place) = checkpoint(messages, Some(latest)) {
        if is_block(messages, place) {
            lemma_block_marked(messages, place);
        }
    }
}

proof fn lemma_silent_tail(
    instructions: Seq<char>,
    items: Seq<ResponseItemView>,
    after: Seq<ResponseItem>,
    names: Map<Seq<char>, BoundTool>,
)
    requires
        forall|i: int| 0 <= i < after.len() ==> says_nothing(#[trigger] after[i]),
    ensures
        ({
            let talk = conversation(instructions, items, names);
            let next = conversation(instructions, items + items_view(after), names);
            next.messages == talk.messages && next.latest == talk.latest
        }),
    decreases after.len(),
{
    if after.len() == 0 {
        assert(items + items_view(after) =~= items);
    } else {
        let front = after.drop_last();
        assert forall|i: int| 0 <= i < front.len() implies says_nothing(#[trigger] front[i]) by {
            assert(front[i] == after[i]);
        }
        lemma_silent_tail(instructions, items, front, names);
        let last = after[after.len() - 1];
        let before = items + items_view(front);
        law_silent_items_leave_the_turns(instructions, before, last, names);
        assert(items + items_view(after) =~= before.push(last@));
    }
}

/// Rolling history marks the last block that was said before the last item to say
/// something, whoever said it and whatever the item is, and no other block; there is
/// no mark where nothing had been said before.
pub proof fn law_checkpoint_is_the_block_said_before(
    instructions: Seq<char>,
    before: Seq<ResponseItemView>,
    item: ResponseItem,
    after: Seq<ResponseItem>,
    names: Map<Seq<char>, BoundTool>,
)
    requires
        said_after(instructions, before.push(item@), names).len() > said_after(
            instructions,
            before,
            names,
        ).len(),
        forall|i: int| 0 <= i < after.len() ==> says_nothing(#[trigger] after[i]),
    ensures
        ({
            let talk = conversation(instructions, before.push(item@) + items_view(after), names);
            marked_before(
                said(request_messages(talk, AnthropicPromptCaching::RollingHistory)),
                said(request_messages(talk, AnthropicPromptCaching::Disabled)),
                said_after(instructions, before, names).len() as int,
            )
        }),
{
    let items = before.push(item@);
    let spoken = conversation(instructions, items, names);
    let talk = conversation(instructions, items + items_view(after), names);
    let count = said_after(instructions, before, names).len() as int;
    lemma_silent_tail(instructions, items, after, names);
    law_latest_is_where_the_last_speaker_began(instructions, before, item, names);
    lemma_latest_in_conversation(instructions, items, names);
    lemma_conversation_takes_turns(instructions, items, names);
    lemma_continued_takes_turns(talk.messages);
    let plain = continued(talk.messages);
    let latest = talk.latest->0;
    assert(plain.take(latest.message) =~= spoken.messages.drop_last());
    assert(blocks_before(plain, latest) == count);
    lemma_last_block(plain, latest.message);
    if latest.block == 0 && latest.message > 0 {
        let last = latest.message - 1;
        assert(plain.take(latest.message).drop_last() =~= plain.take(last));
    } else if latest.message == 0 {
        assert(plain.take(0) =~= Seq::empty());
    }
    match checkpoint(plain, talk.latest) {
        Some(place) => {
            assert(is_block(plain, place));
            lemma_block_marked(plain, place);
            assert(blocks_before(plain, place) == count - 1);
            assert(request_messages(talk, AnthropicPromptCaching::RollingHistory) == marked(
                plain,
                Some(place),
            ));
        },
        None => {},
    }
}

/// Where the last speaker says nothing, or nobody has spoken, rolling history marks
/// nothing.
pub proof fn law_no_checkpoint_without_latest_content(
    instructions: Seq<char>,
    before: Seq<ResponseItemView>,
    item: ResponseItem,
    after: Seq<ResponseItem>,
    names: Map<Seq<char>, BoundTool>,
)
    requires
        !says_nothing(item),
        said_after(instructions, before.push(item@), names).len() == said_after(
            instructions,
            before,
            names,
        ).len(),
        forall|i: int| 0 <= i < after.len() ==> says_nothing(#[trigger] after[i]),
    ensures
        ({
            let talk = conversation(instructions, before.push(item@) + items_view(after), names);
            request_messages(talk, AnthropicPromptCaching::RollingHistory) == request_messages(
                talk,
                AnthropicPromptCaching::Disabled,
            )
        }),
        request_messages(
            conversation(instructions, items_view(after), names),
            AnthropicPromptCaching::RollingHistory,
        ).len() == 0,
{
    lemma_silent_tail(instructions, before.push(item@), after, names);
    law_latest_is_where_the_last_speaker_began(instructions, before, item, names);
    lemma_silent_tail(instructions, Seq::empty(), after, names);
    assert(Seq::<ResponseItemView>::empty() + items_view(after) =~= items_view(after));
}

/// The user is made to ask for more exactly where the assistant spoke last and calls no
/// tool in that turn: in a turn of one text block that says `Continue.` All other turns
/// stay as they are.
pub proof fn law_user_asks_for_more(messages: Seq<MessageView>)
    ensures
        if messages.len() > 0 && messages.last().role == "assistant"@ && forall|i: int|
            0 <= i < messages.last().content.len() ==> (
            #[trigger] messages.last().content[i]).text_field("type"@) != Some("tool_use"@) {
            &&& continued(messages).len() == messages.len() + 1
            &&& continued(messages).drop_last() == messages
            &&& continued(messages).last().role == "user"@
            &&& continued(messages).last().content.len() == 1
            &&& is_text_block(continued(messages).last().content[0], "Continue."@)
        } else {
            continued(messages) == messages
        },
        request_messages(
            Conversation { system: Seq::empty(), messages, latest: None },
            AnthropicPromptCaching::Disabled,
        ) == continued(messages),
{
    reveal_strlit("user");
    reveal_strlit("assistant");
    assert("user"@.len() == 4 && "assistant"@.len() == 9);
    lemma_text_block("Continue."@);
    let asking = MessageView {
        role: "user"@,
        content: seq![text_block(ANTHROPIC_MESSAGES_CONTINUATION_PROMPT@)],
    };
    assert(messages.push(asking).drop_last() =~= messages);
}

/// The tools that items bring are taken item by item, each item's in their order.
pub proof fn law_brought_tools_in_order(
    left: Seq<ResponseItemView>,
    right: Seq<ResponseItemView>,
    item: ResponseItem,
)
    ensures
        additional_tools(Seq::empty()).len() == 0,
        additional_tools(left + right) == additional_tools(left) + additional_tools(right),
        additional_tools(seq![item@]) == match item {
            ResponseItem::AdditionalTools { tools } => array_view(tools@),
            _ => Seq::empty(),
        },
    decreases right.len(),
{
    reveal_with_fuel(additional_tools, 2);
    assert(seq![item@].drop_last() =~= Seq::empty());
    if let ResponseItem::AdditionalTools { tools } = item {
        assert(Seq::<JsonView>::empty() + array_view(tools@) =~= array_view(tools@));
    }
    if right.len() == 0 {
        assert(left + right =~= left);
        assert(additional_tools(left) + additional_tools(right) =~= additional_tools(left));
    } else {
        law_brought_tools_in_order(left, right.drop_last(), item);
        assert((left + right).drop_last() =~= left + right.drop_last());
        assert(additional_tools(left + right) =~= additional_tools(left) + additional_tools(right));
    }
}

/// Items and turns are seen all, in their order: a turn with its role and its blocks,
/// and a place by its message and by where in the message it stands.
pub proof fn law_items_and_turns_are_seen_in_order(
    items: Seq<ResponseItem>,
    turns: Seq<Message>,
    place: Option<MessageContentStart>,
)
    ensures
        items_view(items).len() == items.len(),
        forall|i: int| 0 <= i < items.len() ==> items_view(items)[i] == (#[trigger] items[i])@,
        messages_view(turns).len() == turns.len(),
        forall|i: int|
            0 <= i < turns.len() ==> messages_view(turns)[i].role == (#[trigger] turns[i]).role@
                && messages_view(turns)[i].content == array_view(turns[i].content@),
        place is None <==> place_view(place) is None,
        place matches Some(start) ==> place_view(place)->0.message == start.message_index
            && place_view(place)->0.block == start.content_index,
{
}

/// An identifier as it is seen.
pub open spec fn seen_id(id: Option<ResponseItemId>) -> Option<ItemIdView> {
    match id {
        Some(id) => Some(ItemIdView { prefix: id.prefix@, unique: id.unique@ }),
        None => None,
    }
}

/// An item is seen as what it is: of those that a stream makes nothing is left out.
pub proof fn law_item_is_seen_whole(item: ResponseItem)
    ensures
        match item {
            ResponseItem::Message {
                id,
                role,
                content,
                phase,
                internal_chat_message_metadata_passthrough: metadata,
            } => {
                &&& item@ matches ResponseItemView::Message {
                    id: seen_as,
                    role: seen_role,
                    content: seen,
                    phase: seen_phase,
                    metadata: seen_metadata,
                }
                &&& seen_as == seen_id(id) && seen_role == role@
                &&& seen_phase is None <==> phase is None
                &&& phase is Some ==> seen_phase == Some(phase->0@)
                &&& seen_metadata is None <==> metadata is None
                &&& metadata is Some ==> seen_metadata == Some(metadata->0@)
                &&& seen.len() == content@.len()
                &&& forall|i: int|
                    0 <= i < content@.len() ==> seen[i] == match #[trigger] content@[i] {
                        ContentItem::InputText { text } => ContentItemView::InputText {
                            text: text@,
                        },
                        ContentItem::OutputText { text } => ContentItemView::OutputText {
                            text: text@,
                        },
                        ContentItem::InputImage { image_url } => ContentItemView::InputImage {
                            image_url: image_url@,
                        },
                        ContentItem::InputAudio => ContentItemView::InputAudio,
                    }
            },
            ResponseItem::Reasoning {
                id,
                summary,
                content,
                encrypted_content,
                internal_chat_message_metadata_passthrough: metadata,
            } => {
                &&& item@ matches ResponseItemView::Reasoning {
                    id: seen_as,
                    summary: seen_summary,
                    content: seen,
                    encrypted_content: seen_encrypted,
                    metadata: seen_metadata,
                }
                &&& seen_as == seen_id(id)
                &&& seen_summary.len() == summary@.len()
                &&& seen_encrypted is None <==> encrypted_content is None
                &&& seen_metadata is None <==> metadata is None
                &&& seen is None <==> content is None
                &&& content matches Some(content) ==> {
                    &&& seen->0.len() == content@.len()
                    &&& forall|i: int|
                        0 <= i < content@.len() ==> seen->0[i] == match #[trigger] content@[i] {
                            ReasoningItemContent::ReasoningText { text } => text@,
                        }
                }
            },
            ResponseItem::FunctionCall {
                id,
                name,
                namespace,
                arguments,
                encrypted_function_args,
                call_id,
                internal_chat_message_metadata_passthrough: metadata,
            } => {
                &&& item@ matches ResponseItemView::FunctionCall {
                    id: seen_as,
                    name: seen_name,
                    namespace: seen_namespace,
                    arguments: seen,
                    encrypted_function_args: seen_encrypted,
                    call_id: seen_call,
                    metadata: seen_metadata,
                }
                &&& seen_as == seen_id(id) && seen_name == name@ && seen == arguments@
                &&& seen_call == call_id@
                &&& seen_namespace is None <==> namespace is None
                &&& namespace is Some ==> seen_namespace == Some(namespace->0@)
                &&& seen_encrypted is None <==> encrypted_function_args is None
                &&& seen_metadata is None <==> metadata is None
            },
            ResponseItem::CustomToolCall {
                id,
                status,
                call_id,
                name,
                namespace,
                input,
                internal_chat_message_metadata_passthrough: metadata,
            } => {
                &&& item@ matches ResponseItemView::CustomToolCall {
                    id: seen_as,
                    status: seen_status,
                    call_id: seen_call,
                    name: seen_name,
                    namespace: seen_namespace,
                    input: seen,
                    metadata: seen_metadata,
                }
                &&& seen_as == seen_id(id) && seen_name == name@ && seen == input@
                &&& seen_call == call_id@
                &&& seen_namespace is None <==> namespace is None
                &&& namespace is Some ==> seen_namespace == Some(namespace->0@)
                &&& seen_status is None <==> status is None
                &&& seen_metadata is None <==> metadata is None
            },
            _ => true,
        },
{
}

} // verus!
