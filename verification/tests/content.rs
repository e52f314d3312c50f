use anthropic_messages::content::{
    content_item_to_anthropic, content_text, content_to_anthropic, data_url_image_block,
    text_block_json, tool_output_to_anthropic,
};
use anthropic_messages::messages::{
    add_history_cache_checkpoint, append_message, Message, MessageContentStart,
};
use anthropic_messages::protocol::{ContentItem, FunctionCallOutputPayload};
use anthropic_messages::value::{document, value_of};
use serde_json::Value;

fn json(text: &str) -> Value {
    serde_json::from_str(text).expect("valid JSON")
}

fn input(text: &str) -> ContentItem {
    ContentItem::InputText {
        text: text.to_string(),
    }
}

fn image(url: &str) -> Option<Value> {
    data_url_image_block(url).map(|block| value_of(&block))
}

fn output(text: &str) -> Value {
    value_of(&tool_output_to_anthropic(&FunctionCallOutputPayload {
        serialized: Some(document(&json(text))),
    }))
}

fn block(text: &str) -> Value {
    value_of(&text_block_json(text))
}

fn shown(messages: &[Message]) -> Vec<(String, Vec<Value>)> {
    messages
        .iter()
        .map(|message| {
            (
                message.role.clone(),
                message.content.iter().map(value_of).collect(),
            )
        })
        .collect()
}

#[test]
fn readable_parts_are_joined_by_lines() {
    assert_eq!(content_text(&vec![]), "");
    assert_eq!(content_text(&vec![input(" "), input("\u{a0}")]), "");
    assert_eq!(
        content_text(&vec![
            input(" a"),
            input(""),
            ContentItem::InputAudio,
            ContentItem::OutputText {
                text: "b\n".to_string()
            },
            ContentItem::InputImage {
                image_url: "https://x".to_string()
            },
            input("c"),
        ]),
        " a\nb\n\nc"
    );
}

#[test]
fn parts_become_blocks() {
    assert_eq!(
        content_item_to_anthropic(&input("a")).map(|block| value_of(&block)),
        Some(json(r#"{"type":"text","text":"a"}"#))
    );
    assert!(content_item_to_anthropic(&input("\t")).is_none());
    assert!(content_item_to_anthropic(&ContentItem::InputAudio).is_none());
    let blocks = content_to_anthropic(&vec![
        input("a"),
        input(" "),
        ContentItem::InputImage {
            image_url: "ftp://x".to_string(),
        },
        ContentItem::InputImage {
            image_url: "http://x".to_string(),
        },
    ]);
    assert_eq!(blocks.len(), 2);
    assert_eq!(value_of(&blocks[1])["source"]["url"], "http://x");
}

#[test]
fn images() {
    assert_eq!(
        image("data:image/png;base64,QUJD,x"),
        Some(json(
            r#"{"type":"image","source":{"type":"base64","media_type":"image/png","data":"QUJD,x"}}"#
        ))
    );
    assert_eq!(
        image("data:;base64,"),
        Some(json(
            r#"{"type":"image","source":{"type":"base64","media_type":"","data":""}}"#
        ))
    );
    assert_eq!(
        image("https://x/y.png"),
        Some(json(
            r#"{"type":"image","source":{"type":"url","url":"https://x/y.png"}}"#
        ))
    );
    for url in [
        "",
        "data:",
        "data:image/png,abc",
        "data:image/png;base64",
        "data:a,b;base64,c",
        "HTTP://x",
        "file:///x",
    ] {
        assert_eq!(image(url), None, "{url}");
    }
}

#[test]
fn tool_results() {
    assert_eq!(output(r#""done""#), "done");
    assert_eq!(output(r#"" ""#), "Tool completed with no output.");
    assert_eq!(output("[]"), "Tool completed with no output.");
    assert_eq!(
        output(r#"[{"text":" "},{"text":1},"text",{"image":"x"}]"#),
        "Tool completed with no output."
    );
    assert_eq!(
        output(r#"[{"type":"input_text","text":"a"},{"text":""},{"text":"b"}]"#),
        json(r#"[{"type":"text","text":"a"},{"type":"text","text":"b"}]"#)
    );
    assert_eq!(output(r#"{"b": 1, "a": [true]}"#), r#"{"a":[true],"b":1}"#);
    assert_eq!(output("null"), "null");
    assert_eq!(
        value_of(&tool_output_to_anthropic(&FunctionCallOutputPayload {
            serialized: None
        })),
        "Tool returned an unserializable result."
    );
}

#[test]
fn turns_of_one_role_are_joined() {
    let mut messages: Vec<Message> = Vec::new();
    assert!(append_message(&mut messages, "user", vec![]).is_none());
    let first = append_message(&mut messages, "user", vec![text_block_json("a")]).expect("start");
    assert_eq!((first.message_index, first.content_index), (0, 0));
    let second = append_message(
        &mut messages,
        "user",
        vec![text_block_json("b"), text_block_json("c")],
    )
    .expect("start");
    assert_eq!((second.message_index, second.content_index), (0, 1));
    let third =
        append_message(&mut messages, "assistant", vec![text_block_json("d")]).expect("start");
    assert_eq!((third.message_index, third.content_index), (1, 0));
    assert_eq!(
        shown(&messages),
        vec![
            (
                "user".to_string(),
                vec![block("a"), block("b"), block("c")]
            ),
            ("assistant".to_string(), vec![block("d")]),
        ]
    );
}

#[test]
fn the_block_before_the_latest_content_is_marked() {
    let make = || {
        let mut messages: Vec<Message> = Vec::new();
        append_message(
            &mut messages,
            "user",
            vec![text_block_json("a"), text_block_json("b")],
        );
        append_message(&mut messages, "assistant", vec![text_block_json("c")]);
        messages
    };
    let marks = |message_index: usize, content_index: usize| {
        let mut messages = make();
        add_history_cache_checkpoint(
            &mut messages,
            Some(MessageContentStart {
                message_index,
                content_index,
            }),
        );
        let mut marked = Vec::new();
        for message in messages.iter() {
            for block in message.content.iter() {
                let block = value_of(block);
                if block.get("cache_control").is_some() {
                    assert_eq!(block["cache_control"], json(r#"{"type":"ephemeral"}"#));
                    marked.push(block["text"].as_str().expect("text").to_string());
                }
            }
        }
        marked
    };
    assert_eq!(marks(0, 0), Vec::<String>::new());
    assert_eq!(marks(0, 1), vec!["a"]);
    assert_eq!(marks(1, 0), vec!["b"]);
    let mut messages = make();
    add_history_cache_checkpoint(&mut messages, None);
    assert_eq!(shown(&messages), shown(&make()));
}

#[test]
fn a_second_checkpoint_changes_nothing_more() {
    let start = || {
        Some(MessageContentStart {
            message_index: 1,
            content_index: 0,
        })
    };
    let mut messages: Vec<Message> = Vec::new();
    append_message(&mut messages, "user", vec![text_block_json("a")]);
    append_message(&mut messages, "assistant", vec![text_block_json("b")]);
    let plain = shown(&messages);
    add_history_cache_checkpoint(&mut messages, start());
    let once = shown(&messages);
    assert_ne!(once, plain);
    add_history_cache_checkpoint(&mut messages, start());
    assert_eq!(shown(&messages), once);
}
