//! What holds of every stream.

use crate::events::{AnthropicEvent, AnthropicUsage, ResponseEventView};
use crate::json::{json_view, JsonView};
use crate::request::{call_input, tool_use, Conversation};
use crate::stream::{assistant_item, block_item, complete_input, end_turn_of, free_text};
use crate::stream::{reasoning_item, starting_input, text_or_empty, tool_call_item};
use crate::stream::{ActionView, BlockView, StreamInput, StreamView};
use crate::text::text_view;
use crate::tool_laws::law_called_name_is_kept;
use crate::tool_names::{kind_named, tool_named, AnthropicToolKind, ToolNameView};
use crate::tools::tool_set;
use crate::value::parsed;
use vstd::prelude::*;

verus! {

/// An event, and what tells an item that it makes from all others.
pub struct Arrival {
    pub event: AnthropicEvent,
    pub unique: Seq<char>,
}

/// What is known after a run of events.
pub open spec fn after(stream: StreamView, run: Seq<Arrival>) -> StreamView
    decreases run.len(),
{
    if run.len() == 0 {
        stream
    } else {
        after(stream, run.drop_last()).take(run.last().event, run.last().unique).0
    }
}

/// Whether an event starts or stops the block at `index`.
pub open spec fn bounds_block(event: AnthropicEvent, index: usize) -> bool {
    &&& event.kind@ == "content_block_start"@ || event.kind@ == "content_block_stop"@
    &&& event.index == Some(index)
}

/// What an event brings for the block at `index`, where it is a delta that fits the
/// block.
pub open spec fn brought(block: BlockView, event: AnthropicEvent, index: usize) -> Option<
    Seq<char>,
> {
    match event.delta {
        Some(delta) => if event.kind@ != "content_block_delta"@ || event.index != Some(index) {
            None
        } else {
            match block {
                BlockView::Text { .. } => if delta.kind@ == "text_delta"@ {
                    text_view(delta.text)
                } else {
                    None
                },
                BlockView::ToolUse { .. } => if delta.kind@ == "input_json_delta"@ {
                    text_view(delta.partial_json)
                } else {
                    None
                },
                BlockView::Reasoning { .. } => if delta.kind@ == "thinking_delta"@ {
                    text_view(delta.thinking)
                } else {
                    None
                },
            }
        },
        None => None,
    }
}

/// What an event adds to the block at `index`: nothing, where it brings nothing.
pub open spec fn addition(block: BlockView, event: AnthropicEvent, index: usize) -> Seq<char> {
    match brought(block, event, index) {
        Some(more) => more,
        None => Seq::empty(),
    }
}

/// What a run of events adds to the block at `index`, one after the other.
pub open spec fn additions(block: BlockView, run: Seq<Arrival>, index: usize) -> Seq<char>
    decreases run.len(),
{
    if run.len() == 0 {
        Seq::empty()
    } else {
        additions(block, run.drop_last(), index) + addition(block, run.last().event, index)
    }
}

/// A block that has grown by `more`.
pub open spec fn grown(block: BlockView, more: Seq<char>) -> BlockView {
    match block {
        BlockView::Text { unique, text } => BlockView::Text { unique, text: text + more },
        BlockView::ToolUse { id, tool, kind, input } => BlockView::ToolUse {
            id,
            tool,
            kind,
            input: input + more,
        },
        BlockView::Reasoning { unique, text } => BlockView::Reasoning { unique, text: text + more },
    }
}

pub proof fn lemma_kinds_differ()
    ensures
        "content_block_start"@ != "content_block_delta"@,
        "content_block_start"@ != "content_block_stop"@,
        "content_block_stop"@ != "content_block_delta"@,
        "message_start"@ != "message_delta"@,
        "message_start"@ != "message_stop"@,
        "message_delta"@ != "message_stop"@,
        "error"@ != "message_stop"@,
        "error"@ != "message_start"@,
        "error"@ != "message_delta"@,
        "error"@ != "content_block_start"@,
        "error"@ != "content_block_delta"@,
        "error"@ != "content_block_stop"@,
        "message_start"@ != "content_block_start"@,
        "message_start"@ != "content_block_delta"@,
        "message_start"@ != "content_block_stop"@,
        "message_delta"@ != "content_block_start"@,
        "message_delta"@ != "content_block_delta"@,
        "message_delta"@ != "content_block_stop"@,
        "message_stop"@ != "content_block_start"@,
        "message_stop"@ != "content_block_delta"@,
        "message_stop"@ != "content_block_stop"@,
{
    reveal_strlit("content_block_start");
    reveal_strlit("content_block_delta");
    reveal_strlit("content_block_stop");
    reveal_strlit("message_start");
    reveal_strlit("message_delta");
    reveal_strlit("message_stop");
    reveal_strlit("error");
    assert("content_block_start"@.len() == 19 && "content_block_delta"@.len() == 19);
    assert("content_block_stop"@.len() == 18 && "message_start"@.len() == 13);
    assert("message_delta"@.len() == 13 && "message_stop"@.len() == 12 && "error"@.len() == 5);
    assert("content_block_start"@[14] != "content_block_delta"@[14]);
    assert("message_start"@[8] != "message_delta"@[8]);
}

/// An event leaves a block that it neither starts nor stops as it was, but for
/// what it adds.
proof fn lemma_event_grows_block(
    stream: StreamView,
    event: AnthropicEvent,
    unique: Seq<char>,
    index: usize,
)
    requires
        stream.blocks.contains_key(index),
        !bounds_block(event, index),
    ensures
        stream.take(event, unique).0.blocks.contains_key(index),
        stream.take(event, unique).0.blocks[index] == grown(
            stream.blocks[index],
            addition(stream.blocks[index], event, index),
        ),
{
    let block = stream.blocks[index];
    let more = addition(block, event, index);
    lemma_kinds_differ();
    if more.len() == 0 {
        match block {
            BlockView::Text { text, .. } => assert(text + more =~= text),
            BlockView::ToolUse { input, .. } => assert(input + more =~= input),
            BlockView::Reasoning { text, .. } => assert(text + more =~= text),
        }
    }
}

/// Between its start and its stop a block holds what it started with, followed by
/// what the deltas for it brought, in their order. Events for other blocks and
/// for the whole answer do not disturb it.
pub proof fn law_block_holds_all_deltas(stream: StreamView, run: Seq<Arrival>, index: usize)
    requires
        stream.blocks.contains_key(index),
        forall|i: int| 0 <= i < run.len() ==> !bounds_block((#[trigger] run[i]).event, index),
    ensures
        after(stream, run).blocks.contains_key(index),
        after(stream, run).blocks[index] == grown(
            stream.blocks[index],
            additions(stream.blocks[index], run, index),
        ),
    decreases run.len(),
{
    let block = stream.blocks[index];
    if run.len() == 0 {
        match block {
            BlockView::Text { text, .. } => assert(text + Seq::<char>::empty() =~= text),
            BlockView::ToolUse { input, .. } => assert(input + Seq::<char>::empty() =~= input),
            BlockView::Reasoning { text, .. } => assert(text + Seq::<char>::empty() =~= text),
        }
    } else {
        let front = run.drop_last();
        assert forall|i: int| 0 <= i < front.len() implies !bounds_block(
            (#[trigger] front[i]).event,
            index,
        ) by {
            assert(front[i] == run[i]);
        }
        law_block_holds_all_deltas(stream, front, index);
        let last = run[run.len() - 1];
        lemma_event_grows_block(after(stream, front), last.event, last.unique, index);
        let so_far = additions(block, front, index);
        let more = addition(block, last.event, index);
        match block {
            BlockView::Text { text, .. } => assert(text + so_far + more =~= text + (so_far + more)),
            BlockView::ToolUse { input, .. } => assert(input + so_far + more =~= input + (so_far
                + more)),
            BlockView::Reasoning { text, .. } => assert(text + so_far + more =~= text + (so_far
                + more)),
        }
    }
}

/// The event that passes on what was added to a block.
pub open spec fn delta_event(block: BlockView, more: Seq<char>) -> ResponseEventView {
    match block {
        BlockView::Text { .. } => ResponseEventView::OutputTextDelta(more),
        BlockView::ToolUse { id, .. } => ResponseEventView::ToolCallInputDelta {
            item_id: id,
            call_id: Some(id),
            delta: more,
        },
        BlockView::Reasoning { .. } => ResponseEventView::ReasoningContentDelta {
            delta: more,
            content_index: 0,
        },
    }
}

/// Whatever a delta brings for a block is sent on as it came, even where that is
/// empty.
pub proof fn law_additions_are_sent(
    stream: StreamView,
    event: AnthropicEvent,
    unique: Seq<char>,
    index: usize,
)
    requires
        stream.blocks.contains_key(index),
        brought(stream.blocks[index], event, index) is Some,
    ensures
        stream.take(event, unique).1 == ActionView::event(
            delta_event(
                stream.blocks[index],
                brought(stream.blocks[index], event, index)->0,
            ),
        ),
{
    lemma_kinds_differ();
}

/// Whether an event does nothing to a stream: it is of no known kind, or it starts a
/// block of no known kind or without what the block needs, or it is a delta that fits
/// no block that has started, or it stops none.
pub open spec fn is_idle(stream: StreamView, event: AnthropicEvent) -> bool {
    if event.kind@ == "content_block_start"@ {
        match (event.index, event.content_block) {
            (Some(_), Some(block)) => {
                &&& block.kind@ != "text"@ && block.kind@ != "thinking"@
                &&& block.kind@ == "tool_use"@ ==> block.id is None || block.name is None
            },
            _ => true,
        }
    } else if event.kind@ == "content_block_delta"@ {
        match event.index {
            Some(index) => stream.blocks.contains_key(index) ==> brought(
                stream.blocks[index],
                event,
                index,
            ) is None,
            None => true,
        }
    } else if event.kind@ == "content_block_stop"@ {
        match event.index {
            Some(index) => !stream.blocks.contains_key(index),
            None => true,
        }
    } else {
        &&& event.kind@ != "message_start"@ && event.kind@ != "message_delta"@
        &&& event.kind@ != "message_stop"@ && event.kind@ != "error"@
    }
}

/// Whether an event tells how much was written or why the answer ends.
pub open spec fn tells_of_end(event: AnthropicEvent) -> bool {
    event.kind@ == "message_delta"@ && (event.usage is Some || (event.delta matches Some(delta)
        && delta.stop_reason is Some))
}

/// What cannot be read, is of no known kind or fits nothing leaves the stream as it
/// was and sends nothing. So does a `message_delta` that tells nothing; one that
/// tells something sends nothing either, and everything else does send something.
pub proof fn law_idle_input_changes_nothing(
    stream: StreamView,
    input: StreamInput,
    unique: Seq<char>,
)
    ensures
        ({
            let idle = match input {
                StreamInput::Event(event) => is_idle(stream, event) || (event.kind@
                    == "message_delta"@ && !tells_of_end(event)),
                StreamInput::Unreadable => true,
                _ => false,
            };
            let tells = input matches StreamInput::Event(event) && tells_of_end(event);
            &&& idle ==> stream.advance(input, unique) == (stream, ActionView::nothing())
            &&& idle || tells <==> stream.advance(input, unique).1.send is None
        }),
{
    lemma_kinds_differ();
    lemma_block_kinds_differ();
}

/// Whether an event starts a block of a kind at `index`.
pub open spec fn starts_block(event: AnthropicEvent, index: usize, kind: Seq<char>) -> bool {
    &&& event.kind@ == "content_block_start"@
    &&& event.index == Some(index)
    &&& event.content_block matches Some(block) && block.kind@ == kind
}

/// Whether an event stops the block at `index`.
pub open spec fn stops_block(event: AnthropicEvent, index: usize) -> bool {
    event.kind@ == "content_block_stop"@ && event.index == Some(index)
}

proof fn lemma_stop(stream: StreamView, event: AnthropicEvent, unique: Seq<char>, index: usize)
    requires
        stream.blocks.contains_key(index),
        stops_block(event, index),
    ensures
        stream.take(event, unique).1 == ActionView::event(
            ResponseEventView::OutputItemDone(block_item(stream.blocks[index], unique)),
        ),
        !stream.take(event, unique).0.blocks.contains_key(index),
{
    lemma_kinds_differ();
}

/// What the assistant says is complete when its block stops: the item that is
/// then done is the one that was added, with the text that it started with and
/// all that came for it since.
pub proof fn law_message_is_complete(
    stream: StreamView,
    start: Arrival,
    run: Seq<Arrival>,
    stop: Arrival,
    index: usize,
)
    requires
        starts_block(start.event, index, "text"@),
        forall|i: int| 0 <= i < run.len() ==> !bounds_block((#[trigger] run[i]).event, index),
        stops_block(stop.event, index),
    ensures
        ({
            let opened = stream.take(start.event, start.unique);
            let text = text_or_empty(start.event.content_block->0.text);
            let more = additions(opened.0.blocks[index], run, index);
            &&& opened.1 == ActionView::event(
                ResponseEventView::OutputItemAdded(assistant_item(start.unique, text)),
            )
            &&& after(opened.0, run).take(stop.event, stop.unique).1 == ActionView::event(
                ResponseEventView::OutputItemDone(assistant_item(start.unique, text + more)),
            )
        }),
{
    lemma_kinds_differ();
    let opened = stream.take(start.event, start.unique).0;
    law_block_holds_all_deltas(opened, run, index);
    lemma_stop(after(opened, run), stop.event, stop.unique, index);
}

/// What the assistant thinks is complete when its block stops: the item that is
/// then done is the one that was added, with the text that it started with and
/// all that came for it since.
pub proof fn law_reasoning_is_complete(
    stream: StreamView,
    start: Arrival,
    run: Seq<Arrival>,
    stop: Arrival,
    index: usize,
)
    requires
        starts_block(start.event, index, "thinking"@),
        forall|i: int| 0 <= i < run.len() ==> !bounds_block((#[trigger] run[i]).event, index),
        stops_block(stop.event, index),
    ensures
        ({
            let opened = stream.take(start.event, start.unique);
            let text = text_or_empty(start.event.content_block->0.thinking);
            let more = additions(opened.0.blocks[index], run, index);
            &&& opened.1 == ActionView::event(
                ResponseEventView::OutputItemAdded(reasoning_item(start.unique, text)),
            )
            &&& after(opened.0, run).take(stop.event, stop.unique).1 == ActionView::event(
                ResponseEventView::OutputItemDone(reasoning_item(start.unique, text + more)),
            )
        }),
{
    lemma_kinds_differ();
    lemma_block_kinds_differ();
    let opened = stream.take(start.event, start.unique).0;
    law_block_holds_all_deltas(opened, run, index);
    lemma_stop(after(opened, run), stop.event, stop.unique, index);
}

pub proof fn lemma_block_kinds_differ()
    ensures
        "text"@ != "tool_use"@,
        "text"@ != "thinking"@,
        "tool_use"@ != "thinking"@,
{
    reveal_strlit("text");
    reveal_strlit("tool_use");
    reveal_strlit("thinking");
    assert("text"@.len() == 4 && "tool_use"@.len() == 8 && "thinking"@.len() == 8);
    assert("tool_use"@[1] != "thinking"@[1]);
}

/// A call is complete when its block stops: it is a call of the tool that the
/// name stands for, with the input that it started with and all that came for it
/// since, or an empty object where that is blank.
pub proof fn law_call_is_complete(
    stream: StreamView,
    start: Arrival,
    run: Seq<Arrival>,
    stop: Arrival,
    index: usize,
    id: Seq<char>,
    name: Seq<char>,
)
    requires
        starts_block(start.event, index, "tool_use"@),
        text_view(start.event.content_block->0.id) == Some(id),
        text_view(start.event.content_block->0.name) == Some(name),
        forall|i: int| 0 <= i < run.len() ==> !bounds_block((#[trigger] run[i]).event, index),
        stops_block(stop.event, index),
    ensures
        ({
            let opened = stream.take(start.event, start.unique);
            let tool = tool_named(stream.names, name);
            let kind = kind_named(stream.names, name);
            let input = starting_input(json_view(start.event.content_block->0.input));
            let more = additions(opened.0.blocks[index], run, index);
            &&& opened.1 == ActionView::event(
                ResponseEventView::OutputItemAdded(
                    tool_call_item(start.unique, id, tool, kind, input),
                ),
            )
            &&& after(opened.0, run).take(stop.event, stop.unique).1 == ActionView::event(
                ResponseEventView::OutputItemDone(
                    tool_call_item(stop.unique, id, tool, kind, complete_input(input + more)),
                ),
            )
        }),
{
    lemma_kinds_differ();
    lemma_block_kinds_differ();
    let opened = stream.take(start.event, start.unique).0;
    law_block_holds_all_deltas(opened, run, index);
    lemma_stop(after(opened, run), stop.event, stop.unique, index);
}

/// A block is done once: a second stop of it does nothing.
pub proof fn law_block_is_done_once(
    stream: StreamView,
    first: Arrival,
    second: Arrival,
    index: usize,
)
    requires
        stops_block(first.event, index),
        stops_block(second.event, index),
    ensures
        ({
            let stopped = stream.take(first.event, first.unique).0;
            stopped.take(second.event, second.unique) == (stopped, ActionView::nothing())
        }),
{
    lemma_kinds_differ();
}

/// A stream is over when the answer is complete, when the provider reports an
/// error, and when the transport fails, ends or falls silent; then something is
/// sent, and it is a completion exactly when the answer is complete.
pub proof fn law_stream_ends(stream: StreamView, input: StreamInput, unique: Seq<char>)
    ensures
        ({
            let action = stream.advance(input, unique).1;
            let completes = input matches StreamInput::Event(event) && event.kind@
                == "message_stop"@;
            let fails = match input {
                StreamInput::Event(event) => event.kind@ == "error"@,
                StreamInput::Unreadable => false,
                _ => true,
            };
            &&& action.done <==> completes || fails
            &&& action.done ==> action.send is Some
            &&& completes <==> (action.send matches Some(Ok(event)) && event is Completed)
            &&& fails <==> (action.send matches Some(Err(_)))
        }),
{
    lemma_kinds_differ();
}

/// What the start of an answer said is kept until the answer is complete: its
/// identifier, and the tokens that were read.
pub proof fn law_start_is_kept(stream: StreamView, run: Seq<Arrival>)
    requires
        forall|i: int| 0 <= i < run.len() ==> (#[trigger] run[i]).event.kind@ != "message_start"@,
    ensures
        after(stream, run).response_id == stream.response_id,
        after(stream, run).names == stream.names,
        after(stream, run).usage == (AnthropicUsage {
            output_tokens: after(stream, run).usage.output_tokens,
            ..stream.usage
        }),
    decreases run.len(),
{
    if run.len() > 0 {
        let front = run.drop_last();
        assert forall|i: int| 0 <= i < front.len() implies (#[trigger] front[i]).event.kind@
            != "message_start"@ by {
            assert(front[i] == run[i]);
        }
        law_start_is_kept(stream, front);
        assert(run[run.len() - 1].event.kind@ != "message_start"@);
    }
}

/// A turn is said to be over only by `end_turn`, and to go on only by `tool_use`.
pub proof fn law_only_explicit_stop_reasons_count(stop_reason: Option<Seq<char>>)
    ensures
        end_turn_of(stop_reason) == Some(true) <==> stop_reason == Some("end_turn"@),
        end_turn_of(stop_reason) == Some(false) <==> stop_reason == Some("tool_use"@),
{
    reveal_strlit("end_turn");
    reveal_strlit("tool_use");
    assert("end_turn"@[0] != "tool_use"@[0]);
}

/// A call that a stream makes goes back to the provider in the next request as it
/// came: under the name and the identifier that the provider used, and with the
/// same input where that was the document that the tool asked for.
pub proof fn law_call_goes_back_as_it_came(
    tools: Seq<JsonView>,
    talk: Conversation,
    unique: Seq<char>,
    id: Seq<char>,
    name: Seq<char>,
    input: Seq<char>,
    text: Seq<char>,
)
    requires
        tool_set(tools) is Ok,
    ensures
        ({
            let names = tool_set(tools)->Ok_0.names;
            let kind = kind_named(names, name);
            let item = tool_call_item(unique, id, tool_named(names, name), kind, input);
            exists|block: JsonView|
                {
                    &&& talk.take(item, names) == #[trigger] talk.say("assistant"@, seq![block])
                    &&& block.text_field("type"@) == Some("tool_use"@)
                    &&& block.text_field("name"@) == Some(name)
                    &&& block.text_field("id"@) == Some(id)
                    &&& parsed(input) matches Ok(document) ==> (kind == AnthropicToolKind::Function
                        || document == JsonView::object().with("input"@, JsonView::String(text)))
                        ==> block.field("input"@) == Some(document)
                }
        }),
{
    let names = tool_set(tools)->Ok_0.names;
    let tool = tool_named(names, name);
    let kind = kind_named(names, name);
    law_called_name_is_kept(tools, name);
    reveal_strlit("type");
    reveal_strlit("id");
    reveal_strlit("name");
    reveal_strlit("input");
    assert("type"@.len() == 4 && "id"@.len() == 2 && "name"@.len() == 4 && "input"@.len() == 5);
    assert("type"@[0] != "name"@[0]);
    let sent = match kind {
        AnthropicToolKind::Function => call_input(parsed(input)),
        AnthropicToolKind::Custom => JsonView::object().with(
            "input"@,
            JsonView::String(free_text(parsed(input), input)),
        ),
    };
    let block = tool_use(names, id, tool, sent);
    assert(ToolNameView { name: tool.name, namespace: tool.namespace } == tool);
    let item = tool_call_item(unique, id, tool, kind, input);
    assert(talk.take(item, names) == talk.say("assistant"@, seq![block]));
}

} // verus!
