//! What a stream tells of an answer, and how what was answered is said again.

use crate::content::{content_blocks, text_block};
use crate::content_laws::{is_text_block, lemma_text_block};
use crate::conversation_laws::said_after;
use crate::error::ApiError;
use crate::events::{AnthropicEvent, AnthropicUsage, ResponseEvent, ResponseEventView};
use crate::json::JsonView;
use crate::protocol::{ContentItemView, ItemIdView, ResponseItemView};
use crate::request::conversation;
use crate::request_laws::{lemma_append_says, lemma_kinds_of_speakers, said, sayings, Saying};
use crate::stream::{assistant_item, complete_input, free_text, reasoning_item, starting_input};
use crate::stream::{text_or_empty, tool_call_item, ActionView, StreamInput, StreamView};
use crate::stream::StreamAction;
use crate::stream_laws::{additions, after, bounds_block, law_message_is_complete};
use crate::stream_laws::{lemma_block_kinds_differ, lemma_kinds_differ, starts_block, stops_block};
use crate::stream_laws::{law_only_explicit_stop_reasons_count, Arrival};
use crate::text::blank;
use crate::tool_names::{AnthropicToolKind, BoundTool, ToolNameView};
use crate::value::{parsed, written};
use vstd::prelude::*;

verus! {

/// Nothing is known before anything came: only the names of the tools.
pub proof fn law_nothing_is_known_at_first(names: Map<Seq<char>, BoundTool>, index: usize)
    ensures
        ({
            let stream = StreamView::start(names);
            &&& stream.names == names
            &&& stream.response_id is None && stream.stop_reason is None
            &&& stream.usage == (AnthropicUsage {
                input_tokens: 0,
                output_tokens: 0,
                cache_read_input_tokens: 0,
                cache_creation_input_tokens: 0,
            })
            &&& !stream.blocks.contains_key(index)
        }),
{
}

/// The reason that an event tells for which the answer ends.
pub open spec fn reason_told(event: AnthropicEvent) -> Option<Seq<char>> {
    if event.kind@ == "message_delta"@ && event.delta is Some && event.delta->0.stop_reason is Some {
        Some(event.delta->0.stop_reason->0@)
    } else {
        None
    }
}

/// How many tokens an event tells were written.
pub open spec fn written_told(event: AnthropicEvent) -> Option<i64> {
    if event.kind@ == "message_delta"@ && event.usage is Some {
        Some(event.usage->0.output_tokens)
    } else if event.kind@ == "message_start"@ && event.message is Some {
        Some(event.message->0.usage.output_tokens)
    } else {
        None
    }
}

/// Whether an event starts the answer and tells of it.
pub open spec fn tells_of_start(event: AnthropicEvent) -> bool {
    event.kind@ == "message_start"@ && event.message is Some
}

proof fn lemma_one_event(stream: StreamView, event: AnthropicEvent, unique: Seq<char>)
    ensures
        ({
            let next = stream.take(event, unique).0;
            &&& next.names == stream.names
            &&& next.stop_reason == if reason_told(event) is Some {
                reason_told(event)
            } else {
                stream.stop_reason
            }
            &&& next.usage.output_tokens == if written_told(event) is Some {
                written_told(event)->0
            } else {
                stream.usage.output_tokens
            }
            &&& next.response_id == if tells_of_start(event) {
                Some(event.message->0.id@)
            } else {
                stream.response_id
            }
            &&& next.usage == (AnthropicUsage {
                output_tokens: next.usage.output_tokens,
                ..if tells_of_start(event) {
                    event.message->0.usage
                } else {
                    stream.usage
                }
            })
        }),
{
    lemma_kinds_differ();
}

/// The reason for which an answer ends is the last one that any event told, whatever
/// else that event held; events that tell none leave it.
pub proof fn law_last_stop_reason_counts(stream: StreamView, run: Seq<Arrival>, at: int)
    ensures
        0 <= at < run.len() && reason_told(run[at].event) is Some && (forall|later: int|
            at < later < run.len() ==> reason_told((#[trigger] run[later]).event) is None)
            ==> after(stream, run).stop_reason == reason_told(run[at].event),
        (forall|any: int| 0 <= any < run.len() ==> reason_told((#[trigger] run[any]).event) is None)
            ==> after(stream, run).stop_reason == stream.stop_reason,
        after(stream, run).names == stream.names,
    decreases run.len(),
{
    if run.len() > 0 {
        let front = run.drop_last();
        let last = run[run.len() - 1];
        assert(forall|i: int| 0 <= i < front.len() ==> #[trigger] front[i] == run[i]);
        law_last_stop_reason_counts(stream, front, at);
        lemma_one_event(after(stream, front), last.event, last.unique);
    }
}

/// How many tokens were written is what the last event to tell of it told, be it the
/// start of the answer or a later one, whatever else that event held.
pub proof fn law_last_count_of_written_tokens_counts(
    stream: StreamView,
    run: Seq<Arrival>,
    at: int,
)
    ensures
        0 <= at < run.len() && written_told(run[at].event) is Some && (forall|later: int|
            at < later < run.len() ==> written_told((#[trigger] run[later]).event) is None)
            ==> Some(after(stream, run).usage.output_tokens) == written_told(run[at].event),
        (forall|any: int|
            0 <= any < run.len() ==> written_told((#[trigger] run[any]).event) is None) ==> after(
            stream,
            run,
        ).usage.output_tokens == stream.usage.output_tokens,
    decreases run.len(),
{
    if run.len() > 0 {
        let front = run.drop_last();
        let last = run[run.len() - 1];
        assert(forall|i: int| 0 <= i < front.len() ==> #[trigger] front[i] == run[i]);
        law_last_count_of_written_tokens_counts(stream, front, at);
        lemma_one_event(after(stream, front), last.event, last.unique);
    }
}

/// The identifier of the answer, and how many tokens were read and cached, are what the
/// last start of an answer told.
pub proof fn law_last_start_counts(stream: StreamView, run: Seq<Arrival>, at: int)
    ensures
        0 <= at < run.len() && tells_of_start(run[at].event) && (forall|later: int|
            at < later < run.len() ==> !tells_of_start((#[trigger] run[later]).event)) ==> {
            let message = run[at].event.message->0;
            let known = after(stream, run);
            &&& known.response_id == Some(message.id@)
            &&& known.usage.input_tokens == message.usage.input_tokens
            &&& known.usage.cache_read_input_tokens == message.usage.cache_read_input_tokens
            &&& known.usage.cache_creation_input_tokens
                == message.usage.cache_creation_input_tokens
        },
        (forall|any: int| 0 <= any < run.len() ==> !tells_of_start((#[trigger] run[any]).event))
            ==> {
            let known = after(stream, run);
            &&& known.response_id == stream.response_id
            &&& known.usage.input_tokens == stream.usage.input_tokens
            &&& known.usage.cache_read_input_tokens == stream.usage.cache_read_input_tokens
            &&& known.usage.cache_creation_input_tokens == stream.usage.cache_creation_input_tokens
        },
    decreases run.len(),
{
    if run.len() > 0 {
        let front = run.drop_last();
        let last = run[run.len() - 1];
        assert(forall|i: int| 0 <= i < front.len() ==> #[trigger] front[i] == run[i]);
        law_last_start_counts(stream, front, at);
        lemma_one_event(after(stream, front), last.event, last.unique);
    }
}

/// The start of an answer is passed on with the identifier that is then known.
pub proof fn law_start_is_passed_on(
    stream: StreamView,
    event: AnthropicEvent,
    unique: Seq<char>,
)
    requires
        event.kind@ == "message_start"@,
    ensures
        stream.take(event, unique).1 == (ActionView {
            send: Some(
                Ok(
                    ResponseEventView::Created {
                        response_id: match event.message {
                            Some(message) => Some(message.id@),
                            None => stream.response_id,
                        },
                    },
                ),
            ),
            done: false,
        }),
{
}

/// A complete answer tells its identifier, or a stand-in where none came, its tokens
/// with their sum, and whether the turn is over: it is where the reason is `end_turn`,
/// it is not where that is `tool_use`, and nothing is told of it otherwise.
pub proof fn law_completion_tells_what_is_known(
    stream: StreamView,
    event: AnthropicEvent,
    unique: Seq<char>,
)
    requires
        event.kind@ == "message_stop"@,
        stream.total_fits(),
    ensures
        ({
            let (next, action) = stream.advance(StreamInput::Event(event), unique);
            &&& next == stream
            &&& action.done
            &&& action.send matches Some(
                Ok(
                    ResponseEventView::Completed {
                        response_id,
                        token_usage: Some(tokens),
                        usage_metadata: None,
                        end_turn,
                    },
                ),
            )
            &&& response_id == match stream.response_id {
                Some(id) => id,
                None => "anthropic-message"@,
            }
            &&& tokens.input_tokens == stream.usage.input_tokens
            &&& tokens.output_tokens == stream.usage.output_tokens
            &&& tokens.cached_input_tokens == stream.usage.cache_read_input_tokens
            &&& tokens.cache_write_input_tokens == stream.usage.cache_creation_input_tokens
            &&& tokens.total_tokens == stream.usage.input_tokens + stream.usage.output_tokens
            &&& tokens.reasoning_output_tokens == 0
            &&& tokens.codex_rollout_budget_units is None
            &&& end_turn == Some(true) <==> stream.stop_reason == Some("end_turn"@)
            &&& end_turn == Some(false) <==> stream.stop_reason == Some("tool_use"@)
        }),
{
    lemma_kinds_differ();
    law_only_explicit_stop_reasons_count(stream.stop_reason);
}

/// Whether the tokens read and written add up to what 64 bits hold.
pub proof fn law_when_the_total_fits(stream: StreamView)
    ensures
        stream.total_fits() <==> -0x8000_0000_0000_0000 <= stream.usage.input_tokens
            + stream.usage.output_tokens <= 0x7fff_ffff_ffff_ffff,
{
}

/// What ends a stream early is told: the error of the provider by its kind and message,
/// that of the transport as it is, and a stream that ends or falls silent as such. What
/// is known stays as it was.
pub proof fn law_failures_are_told(stream: StreamView, input: StreamInput, unique: Seq<char>)
    ensures
        ({
            let (next, action) = stream.advance(input, unique);
            let told = match input {
                StreamInput::Event(event) => if event.kind@ != "error"@ {
                    None
                } else {
                    match event.error {
                        Some(error) => Some(error.kind@ + ": "@ + error.message@),
                        None => Some("Anthropic Messages API returned an error"@),
                    }
                },
                StreamInput::Unreadable => None,
                StreamInput::Failed(message) => Some(message@),
                StreamInput::Closed => Some("stream closed before message_stop"@),
                StreamInput::IdleTimeout => Some("idle timeout waiting for SSE"@),
            };
            told matches Some(message) ==> next == stream && action == (ActionView {
                send: Some(Err(message)),
                done: true,
            })
        }),
{
    lemma_kinds_differ();
}

/// Whether an event opens the block at `index`: it starts a text, a thought, or a call
/// with an identifier and a name.
pub open spec fn opens(event: AnthropicEvent, index: usize) -> bool {
    &&& event.kind@ == "content_block_start"@
    &&& event.index == Some(index)
    &&& event.content_block matches Some(block) && {
        ||| block.kind@ == "text"@
        ||| block.kind@ == "thinking"@
        ||| block.kind@ == "tool_use"@ && block.id is Some && block.name is Some
    }
}

/// A block is open from the event that opens it to the one that stops it.
pub proof fn law_blocks_open_and_close(
    stream: StreamView,
    event: AnthropicEvent,
    unique: Seq<char>,
    index: usize,
)
    ensures
        stream.take(event, unique).0.blocks.contains_key(index) <==> {
            ||| opens(event, index)
            ||| stream.blocks.contains_key(index) && !(event.kind@ == "content_block_stop"@
                && event.index == Some(index))
        },
{
    lemma_kinds_differ();
    lemma_block_kinds_differ();
}

/// What was said is a message of the assistant with one part, the text; what was
/// thought is a reasoning item with one part, the text. They carry the mark of their
/// kind and the identifier that they were given, and nothing else.
pub proof fn law_items_of_texts(unique: Seq<char>, text: Seq<char>)
    ensures
        assistant_item(unique, text) == (ResponseItemView::Message {
            id: Some(ItemIdView { prefix: "msg"@, unique }),
            role: "assistant"@,
            content: seq![ContentItemView::OutputText { text }],
            phase: None,
            metadata: None,
        }),
        reasoning_item(unique, text) == (ResponseItemView::Reasoning {
            id: Some(ItemIdView { prefix: "rs"@, unique }),
            summary: Seq::empty(),
            content: Some(seq![text]),
            encrypted_content: None,
            metadata: None,
        }),
{
}

/// A call of a function has its input for arguments as it came. A call of a custom tool
/// has for input the text in the field `input` of the document that came, and all that
/// came where there is no such text.
pub proof fn law_items_of_calls(
    unique: Seq<char>,
    call_id: Seq<char>,
    tool: ToolNameView,
    input: Seq<char>,
)
    ensures
        tool_call_item(unique, call_id, tool, AnthropicToolKind::Function, input) == (
        ResponseItemView::FunctionCall {
            id: Some(ItemIdView { prefix: "fc"@, unique }),
            name: tool.name,
            namespace: tool.namespace,
            arguments: input,
            encrypted_function_args: None,
            call_id,
            metadata: None,
        }),
        tool_call_item(unique, call_id, tool, AnthropicToolKind::Custom, input) == (
        ResponseItemView::CustomToolCall {
            id: Some(ItemIdView { prefix: "ctc"@, unique }),
            status: None,
            call_id,
            name: tool.name,
            namespace: tool.namespace,
            input: free_text(parsed(input), input),
            metadata: None,
        }),
        free_text(parsed(input), input) == match parsed(input) {
            Ok(document) => match document.field("input"@) {
                Some(JsonView::String(text)) => text,
                _ => input,
            },
            Err(_) => input,
        },
{
}

/// A call starts with the JSON text of its input, and with no text where there is no
/// input or an empty object. It is complete with all that came, and with an empty
/// object where that is blank.
pub proof fn law_input_of_a_call(input: Option<JsonView>, came: Seq<char>)
    ensures
        starting_input(None) == Seq::<char>::empty(),
        starting_input(Some(JsonView::Object(Map::empty()))) == Seq::<char>::empty(),
        input is Some && input->0 != JsonView::Object(Map::empty()) ==> starting_input(input)
            == written(input->0),
        blank(came) ==> complete_input(came) == "{}"@,
        !blank(came) ==> complete_input(came) == came,
{
}

/// What a stream completed is said again in the next request: the text that came for a
/// block, from its start to its stop, is one text block of the assistant in whatever
/// conversation the item is added to, unless it is blank.
pub proof fn law_answer_is_said_again(
    stream: StreamView,
    start: Arrival,
    run: Seq<Arrival>,
    stop: Arrival,
    index: usize,
    instructions: Seq<char>,
    items: Seq<ResponseItemView>,
    names: Map<Seq<char>, BoundTool>,
)
    requires
        starts_block(start.event, index, "text"@),
        forall|i: int| 0 <= i < run.len() ==> !bounds_block((#[trigger] run[i]).event, index),
        stops_block(stop.event, index),
    ensures
        ({
            let opened = stream.take(start.event, start.unique).0;
            let lead = match start.event.content_block->0.text {
                Some(text) => text@,
                None => Seq::empty(),
            };
            let text = lead + additions(opened.blocks[index], run, index);
            let action = after(opened, run).take(stop.event, stop.unique).1;
            let before = said_after(instructions, items, names);
            let item = action.send->0->Ok_0->OutputItemDone_0;
            let now = said_after(instructions, items.push(item), names);
            &&& action.send matches Some(Ok(ResponseEventView::OutputItemDone(_)))
            &&& blank(text) ==> now == before
            &&& !blank(text) ==> {
                &&& now.len() == before.len() + 1
                &&& now.drop_last() == before
                &&& now.last().role == "assistant"@
                &&& is_text_block(now.last().block, text)
            }
        }),
{
    law_message_is_complete(stream, start, run, stop, index);
    lemma_kinds_of_speakers();
    let opened = stream.take(start.event, start.unique).0;
    let lead = text_or_empty(start.event.content_block->0.text);
    let text = lead + additions(opened.blocks[index], run, index);
    let item = assistant_item(start.unique, text);
    let part = ContentItemView::OutputText { text };
    lemma_text_block(text);
    lemma_one_output_part(text);
    assert(items.push(item).drop_last() =~= items);
    let front = conversation(instructions, items, names).messages;
    let blocks = content_blocks(seq![part]);
    lemma_append_says(front, "assistant"@, blocks);
    if blank(text) {
        assert(said(front) + sayings("assistant"@, blocks) =~= said(front));
    } else {
        let more = Saying { role: "assistant"@, block: text_block(text) };
        assert(said(front) + sayings("assistant"@, blocks) =~= said(front).push(more));
        assert(said(front).push(more).drop_last() =~= said(front));
    }
}

proof fn lemma_one_output_part(text: Seq<char>)
    ensures
        content_blocks(seq![ContentItemView::OutputText { text }]) == if blank(text) {
            Seq::<JsonView>::empty()
        } else {
            seq![text_block(text)]
        },
{
    let content = seq![ContentItemView::OutputText { text }];
    reveal_with_fuel(content_blocks, 2);
    assert(content.drop_last() =~= Seq::empty());
    assert(content_blocks(content) =~= if blank(text) {
        Seq::<JsonView>::empty()
    } else {
        seq![text_block(text)]
    });
}

/// What is to be done is seen as what it is: what is sent, be it an event or the message
/// of an error, and whether the stream is over.
pub proof fn law_action_is_seen_whole(action: StreamAction)
    ensures
        action@.done == action.done,
        match action.send {
            Some(Ok(event)) => action@.send == Some(
                Ok::<ResponseEventView, Seq<char>>(event@),
            ),
            Some(Err(ApiError::Stream(message))) => action@.send == Some(
                Err::<ResponseEventView, Seq<char>>(message@),
            ),
            None => action@.send is None,
        },
{
}

/// An event that the session reads is seen as what it is: nothing of it is left out.
pub proof fn law_event_is_seen_whole(event: ResponseEvent)
    ensures
        match event {
            ResponseEvent::Created { response_id } => event@ == (ResponseEventView::Created {
                response_id: match response_id {
                    Some(id) => Some(id@),
                    None => None,
                },
            }),
            ResponseEvent::OutputItemAdded(item) => event@ == ResponseEventView::OutputItemAdded(
                item@,
            ),
            ResponseEvent::OutputTextDelta(text) => event@ == ResponseEventView::OutputTextDelta(
                text@,
            ),
            ResponseEvent::ToolCallInputDelta { item_id, call_id, delta } => event@ == (
            ResponseEventView::ToolCallInputDelta {
                item_id: item_id@,
                call_id: match call_id {
                    Some(id) => Some(id@),
                    None => None,
                },
                delta: delta@,
            }),
            ResponseEvent::ReasoningContentDelta { delta, content_index } => event@ == (
            ResponseEventView::ReasoningContentDelta { delta: delta@, content_index }),
            ResponseEvent::OutputItemDone(item) => event@ == ResponseEventView::OutputItemDone(
                item@,
            ),
            ResponseEvent::Completed { response_id, token_usage, usage_metadata, end_turn } => {
                &&& event@ matches ResponseEventView::Completed {
                    response_id: seen_id,
                    token_usage: seen_usage,
                    usage_metadata: seen_metadata,
                    end_turn: seen_end,
                }
                &&& seen_id == response_id@ && seen_usage == token_usage && seen_end == end_turn
                &&& seen_metadata is None <==> usage_metadata is None
                &&& usage_metadata is Some ==> seen_metadata == Some(usage_metadata->0@)
            },
        },
{
}

} // verus!
