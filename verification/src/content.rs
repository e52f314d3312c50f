//! The parts of messages, and what tools handed back, as content blocks.

use crate::json::{array_view, json_view, lemma_array_view, Json, JsonView};
use crate::protocol::{content_view, ContentItem, ContentItemView};
use crate::protocol::FunctionCallOutputPayload;
use crate::text::{blank, is_blank, split_once, starts_with, strip_prefix, strip_suffix};
use crate::text::white_space;
use crate::value::{json_to_text, written};
use vstd::prelude::*;

verus! {

/// A text block.
pub open spec fn text_block(text: Seq<char>) -> JsonView {
    JsonView::object().with("type"@, JsonView::String("text"@)).with(
        "text"@,
        JsonView::String(text),
    )
}

/// A text block.
pub fn text_block_json(text: &str) -> (block: Json)
    ensures
        block@ == text_block(text@),
{
    Json::object().with("type", Json::string("text")).with("text", Json::string(text))
}

/// The text of a part, unless it is blank or no text at all.
pub open spec fn readable_text(item: ContentItemView) -> Option<Seq<char>> {
    match item {
        ContentItemView::InputText { text } | ContentItemView::OutputText { text } => if blank(
            text,
        ) {
            None
        } else {
            Some(text)
        },
        _ => None,
    }
}

/// The texts of the parts that have one.
pub open spec fn texts(content: Seq<ContentItemView>) -> Seq<Seq<char>>
    decreases content.len(),
{
    if content.len() == 0 {
        Seq::empty()
    } else {
        let front = texts(content.drop_last());
        match readable_text(content.last()) {
            Some(text) => front.push(text),
            None => front,
        }
    }
}

/// The parts one after the other, with `separator` between them.
pub open spec fn joined(parts: Seq<Seq<char>>, separator: Seq<char>) -> Seq<char>
    decreases parts.len(),
{
    if parts.len() == 0 {
        Seq::empty()
    } else if parts.len() == 1 {
        parts[0]
    } else {
        joined(parts.drop_last(), separator) + separator + parts.last()
    }
}

/// The texts of a message, a line each.
pub fn content_text(content: &Vec<ContentItem>) -> (text: String)
    ensures
        text@ == joined(texts(content_view(content@)), "\n"@),
{
    let mut text = String::new();
    let mut first = true;
    let ghost all = content_view(content@);
    let mut at: usize = 0;
    while at < content.len()
        invariant
            at <= content@.len(),
            all == content_view(content@),
            text@ == joined(texts(all.take(at as int)), "\n"@),
            first == (texts(all.take(at as int)).len() == 0),
        decreases content@.len() - at,
    {
        assert(all.take(at + 1).drop_last() =~= all.take(at as int));
        let ghost front = texts(all.take(at as int));
        match &content[at] {
            ContentItem::InputText { text: part } | ContentItem::OutputText { text: part } => {
                if !is_blank(part.as_str()) {
                    assert(texts(all.take(at + 1)) == front.push(part@));
                    assert(front.push(part@).drop_last() =~= front);
                    if !first {
                        text.append("\n");
                    }
                    text.append(part.as_str());
                    first = false;
                }
            },
            _ => {},
        }
        at = at + 1;
    }
    assert(all.take(at as int) =~= all);
    text
}

/// Whether `url` holds the data `data` of media type `media`, in base64.
pub open spec fn is_base64_url(url: Seq<char>, media: Seq<char>, data: Seq<char>) -> bool {
    url == "data:"@ + media + ";base64,"@ + data && !media.contains(',')
}

/// The image block for a URL: the data itself for a base64 data URL, the URL for
/// one that is fetched over HTTP, and none for another.
pub open spec fn image_block(url: Seq<char>) -> Option<JsonView> {
    if exists|media: Seq<char>, data: Seq<char>| is_base64_url(url, media, data) {
        let (media, data) = choose|media: Seq<char>, data: Seq<char>|
            is_base64_url(url, media, data);
        Some(
            JsonView::object().with("type"@, JsonView::String("image"@)).with(
                "source"@,
                JsonView::object().with("type"@, JsonView::String("base64"@)).with(
                    "media_type"@,
                    JsonView::String(media),
                ).with("data"@, JsonView::String(data)),
            ),
        )
    } else if "http://"@.is_prefix_of(url) || "https://"@.is_prefix_of(url) {
        Some(
            JsonView::object().with("type"@, JsonView::String("image"@)).with(
                "source"@,
                JsonView::object().with("type"@, JsonView::String("url"@)).with(
                    "url"@,
                    JsonView::String(url),
                ),
            ),
        )
    } else {
        None
    }
}

/// The first comma of a base64 data URL ends its header.
proof fn lemma_header_end(url: Seq<char>, media: Seq<char>, data: Seq<char>, at: int)
    requires
        is_base64_url(url, media, data),
        0 <= at < url.len(),
    ensures
        at < media.len() + 12 ==> url[at] != ',',
        at == media.len() + 12 ==> url[at] == ',',
        url.take(5) == "data:"@,
        url.subrange(5, (media.len() + 12) as int) == media + ";base64"@,
        url.skip((media.len() + 13) as int) == data,
{
    reveal_strlit("data:");
    reveal_strlit(";base64");
    reveal_strlit(";base64,");
    assert(url.take(5) =~= "data:"@);
    assert(url.subrange(5, (media.len() + 12) as int) =~= media + ";base64"@);
    assert(url.skip((media.len() + 13) as int) =~= data);
    if 5 <= at < media.len() + 5 {
        assert(url[at] == media[at - 5]);
    }
}

/// A URL holds at most one media type and one piece of data.
proof fn lemma_base64_unique(
    url: Seq<char>,
    media: Seq<char>,
    data: Seq<char>,
    other_media: Seq<char>,
    other_data: Seq<char>,
)
    requires
        is_base64_url(url, media, data),
        is_base64_url(url, other_media, other_data),
    ensures
        media == other_media,
        data == other_data,
{
    reveal_strlit("data:");
    reveal_strlit(";base64,");
    reveal_strlit(";base64");
    let end = media.len() + 12;
    let other_end = other_media.len() + 12;
    lemma_header_end(url, media, data, end as int);
    lemma_header_end(url, media, data, other_end as int);
    lemma_header_end(url, other_media, other_data, end as int);
    lemma_header_end(url, other_media, other_data, other_end as int);
    assert(end == other_end);
    assert(media =~= url.subrange(5, (media.len() + 12) as int).take(media.len() as int));
    assert(other_media =~= url.subrange(5, (media.len() + 12) as int).take(media.len() as int));
}

/// A base64 data URL is sent as what it was made of: its media type, whatever
/// that is but for commas, and its data, whatever that is.
pub proof fn law_data_url_is_sent_as_made(media: Seq<char>, data: Seq<char>)
    requires
        !media.contains(','),
    ensures
        image_block("data:"@ + media + ";base64,"@ + data) == Some(
            JsonView::object().with("type"@, JsonView::String("image"@)).with(
                "source"@,
                JsonView::object().with("type"@, JsonView::String("base64"@)).with(
                    "media_type"@,
                    JsonView::String(media),
                ).with("data"@, JsonView::String(data)),
            ),
        ),
{
    let url = "data:"@ + media + ";base64,"@ + data;
    assert(is_base64_url(url, media, data));
    let (found_media, found_data) = choose|found_media: Seq<char>, found_data: Seq<char>|
        is_base64_url(url, found_media, found_data);
    lemma_base64_unique(url, media, data, found_media, found_data);
}

/// The image block for a URL.
pub fn data_url_image_block(image_url: &str) -> (block: Option<Json>)
    ensures
        json_view(block) == image_block(image_url@),
{
    let ghost url = image_url@;
    proof {
        reveal_strlit("data:");
        reveal_strlit(";base64,");
        reveal_strlit(";base64");
    }
    if let Some(data_url) = strip_prefix(image_url, "data:") {
        if let Some((metadata, data)) = split_once(data_url, ',') {
            if let Some(media_type) = strip_suffix(metadata, ";base64") {
                proof {
                    assert(url =~= "data:"@ + media_type@ + ";base64,"@ + data@);
                    if media_type@.contains(',') {
                        let i = choose|i: int| 0 <= i < media_type@.len() && media_type@[i] == ',';
                        assert(metadata@[i] == ',');
                    }
                    assert(is_base64_url(url, media_type@, data@));
                    let (media, bytes) = choose|media: Seq<char>, bytes: Seq<char>|
                        is_base64_url(url, media, bytes);
                    lemma_base64_unique(url, media, bytes, media_type@, data@);
                }
                return Some(
                    Json::object().with("type", Json::string("image")).with(
                        "source",
                        Json::object().with("type", Json::string("base64")).with(
                            "media_type",
                            Json::string(media_type),
                        ).with("data", Json::string(data)),
                    ),
                );
            }
            proof {
                assert forall|media: Seq<char>, bytes: Seq<char>| !is_base64_url(
                    url,
                    media,
                    bytes,
                ) by {
                    if is_base64_url(url, media, bytes) {
                        let end = media.len() + 12;
                        let comma = 5 + metadata@.len();
                        lemma_header_end(url, media, bytes, end as int);
                        lemma_header_end(url, media, bytes, comma as int);
                        assert(url[comma as int] == ',');
                        if end < comma {
                            assert(metadata@[end - 5] == url[end as int]);
                            assert(metadata@.contains(','));
                        }
                        assert(end == comma);
                        assert(metadata@ =~= media + ";base64"@);
                        assert(";base64"@.is_suffix_of(metadata@));
                    }
                }
            }
        } else {
            proof {
                assert forall|media: Seq<char>, bytes: Seq<char>| !is_base64_url(
                    url,
                    media,
                    bytes,
                ) by {
                    if is_base64_url(url, media, bytes) {
                        let end = media.len() + 12;
                        lemma_header_end(url, media, bytes, end as int);
                        assert(data_url@[end - 5] == url[end as int]);
                        assert(data_url@.contains(','));
                    }
                }
            }
        }
    } else {
        proof {
            assert forall|media: Seq<char>, bytes: Seq<char>| !is_base64_url(url, media, bytes) by {
                if is_base64_url(url, media, bytes) {
                    assert("data:"@.is_prefix_of(url));
                }
            }
        }
    }
    if starts_with(image_url, "http://") || starts_with(image_url, "https://") {
        Some(
            Json::object().with("type", Json::string("image")).with(
                "source",
                Json::object().with("type", Json::string("url")).with(
                    "url",
                    Json::string(image_url),
                ),
            ),
        )
    } else {
        None
    }
}

/// The block for a part of a message, where there is one.
pub open spec fn content_block(item: ContentItemView) -> Option<JsonView> {
    match item {
        ContentItemView::InputImage { image_url } => image_block(image_url),
        _ => match readable_text(item) {
            Some(text) => Some(text_block(text)),
            None => None,
        },
    }
}

/// The blocks for the parts of a message.
pub open spec fn content_blocks(content: Seq<ContentItemView>) -> Seq<JsonView>
    decreases content.len(),
{
    if content.len() == 0 {
        Seq::empty()
    } else {
        let front = content_blocks(content.drop_last());
        match content_block(content.last()) {
            Some(block) => front.push(block),
            None => front,
        }
    }
}

/// The block for a part of a message, where there is one.
pub fn content_item_to_anthropic(item: &ContentItem) -> (block: Option<Json>)
    ensures
        json_view(block) == content_block(item@),
{
    match item {
        ContentItem::InputText { text } | ContentItem::OutputText { text } => {
            if is_blank(text.as_str()) {
                None
            } else {
                Some(text_block_json(text.as_str()))
            }
        },
        ContentItem::InputImage { image_url } => data_url_image_block(image_url.as_str()),
        ContentItem::InputAudio => None,
    }
}

/// The blocks for the parts of a message.
pub fn content_to_anthropic(content: &Vec<ContentItem>) -> (blocks: Vec<Json>)
    ensures
        array_view(blocks@) == content_blocks(content_view(content@)),
{
    let mut blocks: Vec<Json> = Vec::new();
    let ghost all = content_view(content@);
    let mut at: usize = 0;
    while at < content.len()
        invariant
            at <= content@.len(),
            all == content_view(content@),
            array_view(blocks@) == content_blocks(all.take(at as int)),
        decreases content@.len() - at,
    {
        assert(all.take(at + 1).drop_last() =~= all.take(at as int));
        let ghost before = blocks@;
        if let Some(block) = content_item_to_anthropic(&content[at]) {
            blocks.push(block);
            assert(blocks@.drop_last() =~= before);
        }
        at = at + 1;
    }
    assert(all.take(at as int) =~= all);
    blocks
}

/// The text blocks for the items of a list that hold a text.
pub open spec fn output_blocks(items: Seq<JsonView>) -> Seq<JsonView>
    decreases items.len(),
{
    if items.len() == 0 {
        Seq::empty()
    } else {
        let front = output_blocks(items.drop_last());
        match items.last().text_field("text"@) {
            Some(text) => if blank(text) {
                front
            } else {
                front.push(text_block(text))
            },
            None => front,
        }
    }
}

/// What a tool handed back, as the content of a tool result: its text, or the
/// texts of its parts, or the JSON text of anything else. A result that would
/// say nothing says so.
pub open spec fn tool_output(output: Option<JsonView>) -> JsonView {
    match output {
        Some(JsonView::String(text)) => if blank(text) {
            JsonView::String("Tool completed with no output."@)
        } else {
            JsonView::String(text)
        },
        Some(JsonView::Array(items)) => if output_blocks(items).len() == 0 {
            JsonView::String("Tool completed with no output."@)
        } else {
            JsonView::Array(output_blocks(items))
        },
        Some(json) => JsonView::String(written(json)),
        None => JsonView::String("Tool returned an unserializable result."@),
    }
}

/// Whether the content of a tool result says something: a text that is not blank,
/// or a list of blocks that is not empty.
pub open spec fn says_something(content: JsonView) -> bool {
    match content {
        JsonView::String(text) => !blank(text),
        JsonView::Array(blocks) => blocks.len() > 0,
        _ => false,
    }
}

proof fn lemma_notices_say_something()
    ensures
        !blank("Tool completed with no output."@),
        !blank("Tool returned an unserializable result."@),
{
    reveal_strlit("Tool completed with no output.");
    reveal_strlit("Tool returned an unserializable result.");
    assert(!white_space("Tool completed with no output."@[0]));
    assert(!white_space("Tool returned an unserializable result."@[0]));
}

/// The text blocks for the items of a list that hold a text.
fn output_blocks_of(items: &Vec<Json>) -> (blocks: Vec<Json>)
    ensures
        array_view(blocks@) == output_blocks(array_view(items@)),
{
    let mut blocks: Vec<Json> = Vec::new();
    let ghost all = array_view(items@);
    let mut at: usize = 0;
    proof {
        lemma_array_view(items@);
    }
    while at < items.len()
        invariant
            at <= items@.len(),
            all == array_view(items@),
            all.len() == items@.len(),
            array_view(blocks@) == output_blocks(all.take(at as int)),
        decreases items@.len() - at,
    {
        proof {
            lemma_array_view(items@);
            assert(all[at as int] == items@[at as int]@);
            assert(all.take(at + 1).drop_last() =~= all.take(at as int));
        }
        let ghost before = blocks@;
        if let Some(text) = items[at].get_str("text") {
            if !is_blank(text) {
                blocks.push(text_block_json(text));
                assert(blocks@.drop_last() =~= before);
            }
        }
        at = at + 1;
    }
    assert(all.take(at as int) =~= all);
    blocks
}

/// What a tool handed back, as the content of a tool result. Whatever that was,
/// the content says something.
pub fn tool_output_to_anthropic(output: &FunctionCallOutputPayload) -> (content: Json)
    ensures
        content@ == tool_output(json_view(output.serialized)),
        says_something(content@),
{
    proof {
        lemma_notices_say_something();
    }
    match &output.serialized {
        Some(Json::String(text)) => {
            if is_blank(text.as_str()) {
                Json::string("Tool completed with no output.")
            } else {
                Json::string(text.as_str())
            }
        },
        Some(Json::Array(items)) => {
            let blocks = output_blocks_of(items);
            proof {
                lemma_array_view(blocks@);
            }
            if blocks.len() == 0 {
                Json::string("Tool completed with no output.")
            } else {
                Json::Array(blocks)
            }
        },
        Some(json) => Json::String(json_to_text(json)),
        None => Json::string("Tool returned an unserializable result."),
    }
}

} // verus!
