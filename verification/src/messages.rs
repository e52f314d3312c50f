//! The messages of a request: turns that alternate between roles, and the place
//! in them up to which the provider may cache.

use crate::json::{array_view, lemma_array_view, Json, JsonView};
use crate::text::same_text;
use vstd::prelude::*;

verus! {

/// A turn of the conversation: who speaks, and the content blocks.
#[derive(Debug)]
pub struct Message {
    pub role: String,
    pub content: Vec<Json>,
}

#[verifier::ext_equal]
pub struct MessageView {
    pub role: Seq<char>,
    pub content: Seq<JsonView>,
}

impl View for Message {
    type V = MessageView;

    open spec fn view(&self) -> MessageView {
        MessageView { role: self.role@, content: array_view(self.content@) }
    }
}

/// The turns of a conversation.
pub open spec fn messages_view(messages: Seq<Message>) -> Seq<MessageView> {
    Seq::new(messages.len(), |i: int| messages[i]@)
}

/// The place of a content block: its message, and where in the message it stands.
#[derive(Debug, Clone, Copy, PartialEq, Eq, Structural)]
pub struct MessageContentStart {
    pub message_index: usize,
    pub content_index: usize,
}

/// The place of a content block.
pub struct Place {
    pub message: int,
    pub block: int,
}

impl View for MessageContentStart {
    type V = Place;

    open spec fn view(&self) -> Place {
        Place { message: self.message_index as int, block: self.content_index as int }
    }
}

pub open spec fn place_view(start: Option<MessageContentStart>) -> Option<Place> {
    match start {
        Some(start) => Some(start@),
        None => None,
    }
}

/// Whether the last turn is one of `role`.
pub open spec fn speaks_last(messages: Seq<MessageView>, role: Seq<char>) -> bool {
    messages.len() > 0 && messages.last().role == role
}

/// The conversation after `role` has added `content`: to its own turn where it
/// spoke last, else in a new turn. Saying nothing adds nothing.
pub open spec fn appended(
    messages: Seq<MessageView>,
    role: Seq<char>,
    content: Seq<JsonView>,
) -> Seq<MessageView> {
    if content.len() == 0 {
        messages
    } else if speaks_last(messages, role) {
        messages.drop_last().push(MessageView { role, content: messages.last().content + content })
    } else {
        messages.push(MessageView { role, content })
    }
}

/// Where what `role` adds starts.
pub open spec fn append_place(
    messages: Seq<MessageView>,
    role: Seq<char>,
    content: Seq<JsonView>,
) -> Option<Place> {
    if content.len() == 0 {
        None
    } else if speaks_last(messages, role) {
        Some(
            Place {
                message: messages.len() - 1,
                block: messages.last().content.len() as int,
            },
        )
    } else {
        Some(Place { message: messages.len() as int, block: 0 })
    }
}

/// Adds `content` as `role`, and says where it starts.
pub fn append_message(messages: &mut Vec<Message>, role: &str, content: Vec<Json>) -> (start: Option<
    MessageContentStart,
>)
    ensures
        messages_view(final(messages)@) == appended(
            messages_view(old(messages)@),
            role@,
            array_view(content@),
        ),
        place_view(start) == append_place(
            messages_view(old(messages)@),
            role@,
            array_view(content@),
        ),
{
    let ghost before = messages_view(messages@);
    let mut content = content;
    let ghost added = array_view(content@);
    proof {
        lemma_array_view(content@);
    }
    if content.len() == 0 {
        return None;
    }
    if messages.len() > 0 {
        let last: usize = messages.len() - 1;
        if same_text(messages[last].role.as_str(), role) {
            let mut message = messages.pop().unwrap();
            let content_index: usize = message.content.len();
            let ghost existing = message.content@;
            let ghost new = content@;
            message.content.append(&mut content);
            proof {
                lemma_array_view(existing);
                lemma_array_view(existing + new);
                assert(message.content@ =~= existing + new);
                assert(array_view(message.content@) =~= array_view(existing) + added);
                assert(before.last() == MessageView { role: role@, content: array_view(existing) });
            }
            messages.push(message);
            assert(messages_view(messages@) =~= appended(before, role@, added));
            return Some(MessageContentStart { message_index: last, content_index });
        }
    }
    let message_index: usize = messages.len();
    messages.push(Message { role: role.to_string(), content });
    assert(messages_view(messages@) =~= appended(before, role@, added));
    Some(MessageContentStart { message_index, content_index: 0 })
}

/// The mark that lets the provider cache everything up to and with a block.
pub open spec fn ephemeral() -> JsonView {
    JsonView::object().with("type"@, JsonView::String("ephemeral"@))
}

/// The mark that lets the provider cache everything up to and with a block.
pub fn ephemeral_json() -> (json: Json)
    ensures
        json@ == ephemeral(),
{
    Json::object().with("type", Json::string("ephemeral"))
}

/// The block that ends the last non-empty turn among the first `count`.
pub open spec fn last_block(messages: Seq<MessageView>, count: int) -> Option<Place>
    decreases count,
{
    if count <= 0 {
        None
    } else if messages[count - 1].content.len() > 0 {
        Some(Place { message: count - 1, block: messages[count - 1].content.len() - 1 })
    } else {
        last_block(messages, count - 1)
    }
}

/// The block right before the place where the latest content starts.
pub open spec fn checkpoint(messages: Seq<MessageView>, latest: Option<Place>) -> Option<Place> {
    match latest {
        Some(latest) => if latest.block > 0 {
            Some(Place { message: latest.message, block: latest.block - 1 })
        } else {
            last_block(messages, latest.message)
        },
        None => None,
    }
}

/// The conversation with the block at `place` marked, where there is one.
pub open spec fn marked(messages: Seq<MessageView>, place: Option<Place>) -> Seq<MessageView> {
    match place {
        Some(place) => {
            let message = messages[place.message];
            if place.block < message.content.len() {
                messages.update(
                    place.message,
                    MessageView {
                        role: message.role,
                        content: message.content.update(
                            place.block,
                            message.content[place.block].with("cache_control"@, ephemeral()),
                        ),
                    },
                )
            } else {
                messages
            }
        },
        None => messages,
    }
}

/// The conversation with the block before the latest content marked.
pub open spec fn checkpointed(messages: Seq<MessageView>, latest: Option<Place>) -> Seq<
    MessageView,
> {
    marked(messages, checkpoint(messages, latest))
}

/// Whether `latest` is a place in the conversation, or right behind it.
pub open spec fn reachable(messages: Seq<MessageView>, latest: Option<Place>) -> bool {
    match latest {
        Some(latest) => {
            &&& 0 <= latest.message <= messages.len()
            &&& latest.block > 0 ==> latest.message < messages.len()
        },
        None => true,
    }
}

/// Marks the block right before the place where the latest content starts, so
/// that the history before it can be cached.
pub fn add_history_cache_checkpoint(
    messages: &mut Vec<Message>,
    latest: Option<MessageContentStart>,
)
    requires
        reachable(messages_view(old(messages)@), place_view(latest)),
    ensures
        messages_view(final(messages)@) == checkpointed(
            messages_view(old(messages)@),
            place_view(latest),
        ),
{
    let ghost before = messages_view(messages@);
    let latest = match latest {
        Some(latest) => latest,
        None => {
            return;
        },
    };
    let message_index: usize;
    let content_index: usize;
    if latest.content_index > 0 {
        message_index = latest.message_index;
        content_index = latest.content_index - 1;
    } else {
        let mut count: usize = latest.message_index;
        while count > 0 && messages[count - 1].content.len() == 0
            invariant
                count <= messages@.len(),
                before == messages_view(messages@),
                last_block(before, count as int) == last_block(before, latest.message_index as int),
            decreases count,
        {
            proof {
                lemma_array_view(messages@[count - 1].content@);
                assert(before[count - 1] == messages@[count - 1]@);
            }
            count = count - 1;
        }
        if count == 0 {
            return;
        }
        proof {
            lemma_array_view(messages@[count - 1].content@);
            assert(before[count - 1] == messages@[count - 1]@);
        }
        message_index = count - 1;
        content_index = messages[count - 1].content.len() - 1;
    }
    proof {
        lemma_array_view(messages@[message_index as int].content@);
        assert(before[message_index as int] == messages@[message_index as int]@);
    }
    if content_index < messages[message_index].content.len() {
        let ghost blocks = messages@[message_index as int].content@;
        messages[message_index].content[content_index].insert("cache_control", ephemeral_json());
        proof {
            lemma_array_view(blocks);
            lemma_array_view(messages@[message_index as int].content@);
            assert(messages@[message_index as int]@ =~= checkpointed(
                before,
                place_view(Some(latest)),
            )[message_index as int]);
            assert(messages_view(messages@) =~= checkpointed(before, place_view(Some(latest))));
        }
    }
}

} // verus!
