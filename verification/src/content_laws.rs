//! What holds of texts, of the parts of messages, and of what tools hand back.

use crate::content::{content_block, content_blocks, image_block, is_base64_url, joined};
use crate::content::{law_data_url_is_sent_as_made, output_blocks, readable_text, text_block};
use crate::content::{texts, tool_output};
use crate::json::{json_view, lemma_array_view, Json, JsonView};
use crate::protocol::{ContentItem, ContentItemView};
use crate::text::{blank, decimal, digits_value, is_digit, text_view, unsigned_digits};
use crate::text::white_space;
use crate::value::written;
use vstd::prelude::*;

verus! {

/// Setting a field of an object sets that field and no other, and what is no object
/// has no fields. A text is read from a string only, and items from an array only.
pub proof fn law_setting_a_field(
    document: JsonView,
    key: Seq<char>,
    value: JsonView,
    other: Seq<char>,
)
    ensures
        document is Object ==> document.with(key, value).field(key) == Some(value),
        other != key ==> document.with(key, value).field(other) == document.field(other),
        document !is Object ==> document.field(key) is None && document.with(key, value)
            == document,
        document.text_field(key) == match document.field(key) {
            Some(JsonView::String(text)) => Some(text),
            _ => None,
        },
        document.items() == match document {
            JsonView::Array(items) => Some(items),
            _ => None,
        },
{
}

/// A document is seen as what it is: nothing of it is left out. Of the entries of an
/// object the last one counts first.
pub proof fn law_document_is_seen_whole(json: Json, key: String, value: Json)
    ensures
        match json {
            Json::Null => json@ == JsonView::Null,
            Json::Bool(value) => json@ == JsonView::Bool(value),
            Json::Number(number) => json@ == JsonView::Number(number),
            Json::String(text) => json@ == JsonView::String(text@),
            Json::Array(items) => json@ matches JsonView::Array(seen) && seen.len() == items@.len()
                && forall|i: int| 0 <= i < items@.len() ==> seen[i] == (#[trigger] items@[i])@,
            Json::Object(entries) => {
                &&& entries@.len() == 0 ==> json@ == JsonView::Object(Map::empty())
                &&& forall|more: Vec<(String, Json)>| #[trigger]
                    more@ == entries@.push((key, value)) ==> Json::Object(more)@ == json@.with(
                        key@,
                        value@,
                    )
            },
        },
{
    match json {
        Json::Array(items) => lemma_array_view(items@),
        Json::Object(entries) => {
            assert(entries@.push((key, value)).drop_last() =~= entries@);
        },
        _ => {},
    }
}

/// What may be absent is seen where it is there, and only there.
pub proof fn law_what_is_there_is_seen(text: Option<String>, json: Option<Json>)
    ensures
        text is None <==> text_view(text) is None,
        text is Some ==> text_view(text) == Some(text->0@),
        json is None <==> json_view(json) is None,
        json is Some ==> json_view(json) == Some(json->0@),
{
}

/// A text is blank where each of its halves is, and a character where it is white
/// space.
pub proof fn law_blank_in_halves(left: Seq<char>, right: Seq<char>, c: char)
    ensures
        blank(left + right) <==> blank(left) && blank(right),
        blank(Seq::empty()),
        blank(seq![c]) <==> white_space(c),
{
    let all = left + right;
    if blank(all) {
        assert forall|i: int| 0 <= i < left.len() implies white_space(#[trigger] left[i]) by {
            assert(white_space(all[i]));
        }
        assert forall|i: int| 0 <= i < right.len() implies white_space(#[trigger] right[i]) by {
            assert(white_space(all[left.len() + i]));
        }
    }
    assert(seq![c][0] == c);
}

/// A digit behind a decimal number makes it ten times as large and adds the digit; a
/// `+` before one that has none changes nothing; and anything else behind one, or
/// before one, makes it no number.
pub proof fn law_decimal_digit_by_digit(text: Seq<char>, c: char)
    ensures
        decimal(Seq::empty()) is None,
        '0' <= c <= '9' ==> decimal(seq![c]) == Some((c as nat - '0' as nat) as nat),
        '0' <= c <= '9' && decimal(text) is Some ==> decimal(text.push(c)) == Some(
            (decimal(text)->0 * 10 + (c as nat - '0' as nat)) as nat,
        ),
        !('0' <= c <= '9') ==> decimal(text.push(c)) is None,
        text.len() > 0 && text[0] != '+' ==> decimal(seq!['+'] + text) == decimal(text),
        text.len() > 0 && text[0] == '+' ==> decimal(seq!['+'] + text) is None,
        decimal(text) is Some && !('0' <= c <= '9') && c != '+' ==> decimal(
            seq![c] + text,
        ) is None,
{
    let one = seq![c];
    reveal_with_fuel(digits_value, 2);
    assert(one.drop_last() =~= Seq::empty());
    let digits = unsigned_digits(text);
    let more = text.push(c);
    if text.len() > 0 {
        assert(unsigned_digits(more) =~= digits.push(c));
    } else {
        assert(more =~= one);
        assert(seq!['+'].skip(1) =~= Seq::empty());
    }
    assert(digits.push(c).drop_last() =~= digits);
    assert(digits.push(c)[digits.len() as int] == c);
    if is_digit(c) && decimal(text) is Some {
        assert forall|i: int| 0 <= i < digits.push(c).len() implies is_digit(
            #[trigger] digits.push(c)[i],
        ) by {
            if i < digits.len() {
                assert(is_digit(digits[i]));
            }
        }
    }
    assert((seq!['+'] + text).skip(1) =~= text);
    if text.len() > 0 && text[0] == '+' {
        assert(!is_digit(text[0]));
    }
    assert((seq![c] + text)[0] == c);
}

/// A text block and nothing else.
pub open spec fn is_text_block(block: JsonView, text: Seq<char>) -> bool {
    block == JsonView::Object(
        map!["type"@ => JsonView::String("text"@), "text"@ => JsonView::String(text)],
    )
}

/// An image block with a source and nothing else.
pub open spec fn is_image_block(block: JsonView, source: Map<Seq<char>, JsonView>) -> bool {
    block == JsonView::Object(
        map!["type"@ => JsonView::String("image"@), "source"@ => JsonView::Object(source)],
    )
}

/// Whether the parts of a message become one block, and `holds` of that block.
pub open spec fn becomes_block(
    content: Seq<ContentItemView>,
    holds: spec_fn(JsonView) -> bool,
) -> bool {
    content_blocks(content).len() == 1 && holds(content_blocks(content)[0])
}

proof fn lemma_one_part(item: ContentItemView)
    ensures
        content_blocks(seq![item]) == match content_block(item) {
            Some(block) => seq![block],
            None => Seq::<JsonView>::empty(),
        },
        texts(seq![item]) == match readable_text(item) {
            Some(text) => seq![text],
            None => Seq::<Seq<char>>::empty(),
        },
{
    reveal_with_fuel(content_blocks, 2);
    reveal_with_fuel(texts, 2);
    assert(seq![item].drop_last() =~= Seq::empty());
    assert(content_blocks(seq![item]) =~= match content_block(item) {
        Some(block) => seq![block],
        None => Seq::<JsonView>::empty(),
    });
    assert(texts(seq![item]) =~= match readable_text(item) {
        Some(text) => seq![text],
        None => Seq::<Seq<char>>::empty(),
    });
}

pub proof fn lemma_text_block(text: Seq<char>)
    ensures
        is_text_block(text_block(text), text),
{
    assert(text_block(text)->Object_0 =~= map![
        "type"@ => JsonView::String("text"@),
        "text"@ => JsonView::String(text),
    ]);
}

/// A part that holds text, be it input or output, becomes one text block with that
/// very text; blank text and sound become none.
pub proof fn law_text_becomes_one_block(item: ContentItem)
    ensures
        match item {
            ContentItem::InputText { text } | ContentItem::OutputText { text } => if blank(text@) {
                content_blocks(seq![item@]).len() == 0
            } else {
                becomes_block(seq![item@], |block: JsonView| is_text_block(block, text@))
            },
            ContentItem::InputAudio => content_blocks(seq![item@]).len() == 0,
            ContentItem::InputImage { .. } => true,
        },
{
    lemma_one_part(item@);
    match item {
        ContentItem::InputText { text } | ContentItem::OutputText { text } => {
            lemma_text_block(text@);
        },
        _ => {},
    }
}

/// An image becomes one image block: one with the data where its address is a base64
/// data URL, one with the address where that is fetched over HTTP. Any other address
/// becomes none.
pub proof fn law_image_becomes_one_block(image_url: String, media: Seq<char>, data: Seq<char>)
    ensures
        ({
            let url = image_url@;
            let content = seq![ContentItem::InputImage { image_url }@];
            &&& url == "data:"@ + media + ";base64,"@ + data && !media.contains(',')
                ==> becomes_block(
                content,
                |block: JsonView|
                    is_image_block(
                        block,
                        map![
                            "type"@ => JsonView::String("base64"@),
                            "media_type"@ => JsonView::String(media),
                            "data"@ => JsonView::String(data),
                        ],
                    ),
            )
            &&& "http://"@.is_prefix_of(url) || "https://"@.is_prefix_of(url) ==> becomes_block(
                content,
                |block: JsonView|
                    is_image_block(
                        block,
                        map!["type"@ => JsonView::String("url"@), "url"@ => JsonView::String(url)],
                    ),
            )
            &&& content_blocks(content).len() > 0 ==> {
                ||| "http://"@.is_prefix_of(url)
                ||| "https://"@.is_prefix_of(url)
                ||| exists|media: Seq<char>, data: Seq<char>|
                    !(#[trigger] media.contains(',')) && url == #[trigger] ("data:"@ + media
                        + ";base64,"@ + data)
            }
        }),
{
    let url = image_url@;
    let item = ContentItem::InputImage { image_url }@;
    lemma_one_part(item);
    reveal_strlit("data:");
    reveal_strlit("http://");
    reveal_strlit("https://");
    reveal_strlit("type");
    reveal_strlit("source");
    reveal_strlit("media_type");
    reveal_strlit("data");
    reveal_strlit("url");
    assert("type"@.len() == 4 && "source"@.len() == 6 && "media_type"@.len() == 10);
    assert("data"@.len() == 4 && "url"@.len() == 3 && "type"@[0] != "data"@[0]);
    if url == "data:"@ + media + ";base64,"@ + data && !media.contains(',') {
        law_data_url_is_sent_as_made(media, data);
        let source = map![
            "type"@ => JsonView::String("base64"@),
            "media_type"@ => JsonView::String(media),
            "data"@ => JsonView::String(data),
        ];
        let block = image_block(url)->0;
        assert(block->Object_0["source"@]->Object_0 =~= source);
        assert(block->Object_0 =~= map![
            "type"@ => JsonView::String("image"@),
            "source"@ => JsonView::Object(source),
        ]);
    }
    if "http://"@.is_prefix_of(url) || "https://"@.is_prefix_of(url) {
        assert("data:"@[0] == 'd' && "http://"@[0] == 'h' && "https://"@[0] == 'h');
        assert(url[0] == 'h');
        assert forall|media: Seq<char>, data: Seq<char>| !is_base64_url(url, media, data) by {
            if is_base64_url(url, media, data) {
                assert(url[0] == "data:"@[0]);
            }
        }
        let source = map!["type"@ => JsonView::String("url"@), "url"@ => JsonView::String(url)];
        let block = image_block(url)->0;
        assert(block->Object_0["source"@]->Object_0 =~= source);
        assert(block->Object_0 =~= map![
            "type"@ => JsonView::String("image"@),
            "source"@ => JsonView::Object(source),
        ]);
    } else if exists|media: Seq<char>, data: Seq<char>| is_base64_url(url, media, data) {
        let (media, data) = choose|media: Seq<char>, data: Seq<char>|
            is_base64_url(url, media, data);
        assert(!media.contains(',') && url == "data:"@ + media + ";base64,"@ + data);
    }
}

/// The parts of a message are taken one by one: what two runs of parts become is what
/// the one becomes, followed by what the other becomes.
pub proof fn law_parts_are_taken_one_by_one(
    left: Seq<ContentItemView>,
    right: Seq<ContentItemView>,
)
    ensures
        content_blocks(left + right) == content_blocks(left) + content_blocks(right),
        texts(left + right) == texts(left) + texts(right),
        content_blocks(Seq::empty()).len() == 0,
        texts(Seq::empty()).len() == 0,
    decreases right.len(),
{
    if right.len() == 0 {
        assert(left + right =~= left);
        assert(content_blocks(left) + content_blocks(right) =~= content_blocks(left));
        assert(texts(left) + texts(right) =~= texts(left));
    } else {
        law_parts_are_taken_one_by_one(left, right.drop_last());
        assert((left + right).drop_last() =~= left + right.drop_last());
        assert(content_blocks(left + right) =~= content_blocks(left) + content_blocks(right));
        assert(texts(left + right) =~= texts(left) + texts(right));
    }
}

/// The texts of a message are those of its parts that are not blank, as they are.
pub proof fn law_text_is_kept(item: ContentItem)
    ensures
        texts(seq![item@]) == match item {
            ContentItem::InputText { text } | ContentItem::OutputText { text } => if blank(text@) {
                Seq::<Seq<char>>::empty()
            } else {
                seq![text@]
            },
            _ => Seq::empty(),
        },
{
    lemma_one_part(item@);
}

/// Joining puts the separator between what is joined, and nowhere else.
pub proof fn law_joining_in_halves(
    left: Seq<Seq<char>>,
    right: Seq<Seq<char>>,
    separator: Seq<char>,
    part: Seq<char>,
)
    ensures
        joined(Seq::empty(), separator).len() == 0,
        joined(seq![part], separator) == part,
        left.len() > 0 && right.len() > 0 ==> joined(left + right, separator) == joined(
            left,
            separator,
        ) + separator + joined(right, separator),
    decreases right.len(),
{
    let one = seq![part];
    assert(one[0] == part);
    if left.len() > 0 && right.len() > 0 {
        let all = left + right;
        assert(all.drop_last() =~= left + right.drop_last());
        assert(all.last() == right.last());
        if right.len() == 1 {
            assert(left + right.drop_last() =~= left);
            assert(right[0] == right.last());
        } else {
            law_joining_in_halves(left, right.drop_last(), separator, part);
            assert(joined(all, separator) =~= joined(left, separator) + separator + joined(
                right,
                separator,
            ));
        }
    }
}

/// The items of a list that a tool handed back are taken one by one: each with a text
/// that is not blank becomes one text block with that very text, and no other becomes
/// anything.
pub proof fn law_output_items_are_taken_one_by_one(
    left: Seq<JsonView>,
    right: Seq<JsonView>,
    item: JsonView,
)
    ensures
        output_blocks(Seq::empty()).len() == 0,
        output_blocks(left + right) == output_blocks(left) + output_blocks(right),
        match item.field("text"@) {
            Some(JsonView::String(text)) => if blank(text) {
                output_blocks(seq![item]).len() == 0
            } else {
                output_blocks(seq![item]).len() == 1 && is_text_block(
                    output_blocks(seq![item])[0],
                    text,
                )
            },
            _ => output_blocks(seq![item]).len() == 0,
        },
    decreases right.len(),
{
    reveal_with_fuel(output_blocks, 2);
    assert(seq![item].drop_last() =~= Seq::empty());
    if let Some(JsonView::String(text)) = item.field("text"@) {
        lemma_text_block(text);
    }
    if right.len() == 0 {
        assert(left + right =~= left);
        assert(output_blocks(left) + output_blocks(right) =~= output_blocks(left));
    } else {
        law_output_items_are_taken_one_by_one(left, right.drop_last(), item);
        assert((left + right).drop_last() =~= left + right.drop_last());
        assert(output_blocks(left + right) =~= output_blocks(left) + output_blocks(right));
    }
}

/// What a tool handed back comes through: a text that is not blank as that very text,
/// a list with texts as those, and anything else as its JSON text. Where there is
/// nothing to say, or nothing that could be said, a notice says so.
pub proof fn law_tool_output_comes_through(output: Option<JsonView>)
    ensures
        match output {
            Some(JsonView::String(text)) => tool_output(output) == JsonView::String(
                if blank(text) {
                    "Tool completed with no output."@
                } else {
                    text
                },
            ),
            Some(JsonView::Array(items)) => tool_output(output) == if output_blocks(items).len()
                == 0 {
                JsonView::String("Tool completed with no output."@)
            } else {
                JsonView::Array(output_blocks(items))
            },
            Some(document) => tool_output(output) == JsonView::String(written(document)),
            None => tool_output(output) == JsonView::String(
                "Tool returned an unserializable result."@,
            ),
        },
{
}

} // verus!
