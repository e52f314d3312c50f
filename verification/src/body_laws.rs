//! What the body of a request says, field by field, of the request that it was made
//! for.

use crate::conversation_laws::is_mark;
use crate::instructions::lemma_instructions_are_not_blank;
use crate::instructions::ANTHROPIC_MESSAGES_SHELL_RELIABILITY_INSTRUCTIONS;
use crate::json::JsonView;
use crate::messages::{ephemeral, MessageView};
use crate::protocol::{items_view, Reasoning, ReasoningEffort, ResponsesApiRequest};
use crate::protocol::{TextControls, TextFormat};
use crate::reasoning::{max_tokens, thinking, thinking_budget};
use crate::request::{additional_tools, messages_json, messages_request};
use crate::request::{output_config, request_body, request_system, request_tools};
use crate::request::{request_with_tools, system_json, AnthropicPromptCaching, Conversation};
use crate::request_laws::law_body_fields;
use crate::text::{blank, decimal};
use crate::tools::{tool_choice, tool_set, ToolSet};
use crate::value::{number_of, parsed};
use vstd::prelude::*;

verus! {

/// The tool list of a request is the array that its text parses to, and empty where
/// there is no text or where that is no array. A text that does not parse is refused,
/// with the reason.
pub proof fn law_tool_list_is_the_parsed_array(
    request: ResponsesApiRequest,
    prompt_caching: AnthropicPromptCaching,
)
    ensures
        messages_request(request, prompt_caching) == match request.tools {
            None => request_with_tools(request, Seq::empty(), prompt_caching),
            Some(text) => match parsed(text@) {
                Ok(JsonView::Array(items)) => request_with_tools(request, items, prompt_caching),
                Ok(_) => request_with_tools(request, Seq::empty(), prompt_caching),
                Err(reason) => Err("failed to serialize Responses tools: "@ + reason),
            },
        },
{
}

/// A request is refused exactly where its tools are, and for the same reason. Its tools
/// are those of the list, followed by those that the items bring, and their names are
/// the ones that lead back.
pub proof fn law_only_tools_are_refused(
    request: ResponsesApiRequest,
    listed: Seq<JsonView>,
    prompt_caching: AnthropicPromptCaching,
)
    ensures
        match tool_set(listed + additional_tools(items_view(request.input@))) {
            Ok(set) => {
                &&& request_with_tools(request, listed, prompt_caching) matches Ok(made)
                &&& made.names == set.names
                &&& made.body == request_body(request, set, prompt_caching)
            },
            Err(reason) => {
                &&& request_with_tools(request, listed, prompt_caching) matches Err(message)
                &&& message == reason
            },
        },
{
}

/// Each turn is an object with its role and its blocks, and nothing else, in order.
pub proof fn law_turns_as_json(messages: Seq<MessageView>)
    ensures
        messages_json(messages).len() == messages.len(),
        forall|i: int|
            0 <= i < messages.len() ==> #[trigger] messages_json(messages)[i] == JsonView::Object(
                map![
                    "role"@ => JsonView::String(messages[i].role),
                    "content"@ => JsonView::Array(messages[i].content),
                ],
            ),
{
    assert forall|i: int| 0 <= i < messages.len() implies #[trigger] messages_json(messages)[i]
        == JsonView::Object(
        map![
            "role"@ => JsonView::String(messages[i].role),
            "content"@ => JsonView::Array(messages[i].content),
        ],
    ) by {
        assert(messages_json(messages)[i]->Object_0 =~= map![
            "role"@ => JsonView::String(messages[i].role),
            "content"@ => JsonView::Array(messages[i].content),
        ]);
    }
}

/// Whether a request lets the model think for `budget` tokens: each named effort stands
/// for a number, and an effort in decimal for itself where it is positive and fits 64
/// bits.
pub open spec fn thinks_for(reasoning: Option<Reasoning>, budget: u64) -> bool {
    match reasoning {
        Some(Reasoning { effort: Some(effort) }) => match effort {
            ReasoningEffort::Minimal => budget == 1024,
            ReasoningEffort::Low => budget == 2048,
            ReasoningEffort::Medium => budget == 4096,
            ReasoningEffort::High => budget == 8192,
            ReasoningEffort::XHigh => budget == 12_288,
            ReasoningEffort::Max => budget == 16_384,
            ReasoningEffort::Ultra => budget == 24_576,
            ReasoningEffort::Custom(value) => budget > 0 && decimal(value@) == Some(budget as nat),
            _ => false,
        },
        _ => false,
    }
}

/// A model that may think is told for how long, and may write 1024 tokens more than
/// that, but never fewer than 8192 nor more than 64 bits hold. One that may not is told
/// nothing of it and may write 8192.
pub proof fn law_thinking_and_its_room(reasoning: Option<Reasoning>, budget: u64)
    ensures
        thinks_for(reasoning, budget) ==> {
            &&& thinking(reasoning) == Some(
                JsonView::Object(
                    map![
                        "type"@ => JsonView::String("enabled"@),
                        "budget_tokens"@ => JsonView::Number(number_of(budget)),
                    ],
                ),
            )
            &&& max_tokens(reasoning) == if budget > u64::MAX - 1024 {
                u64::MAX as int
            } else if budget + 1024 < 8192 {
                8192
            } else {
                budget + 1024
            }
        },
        (forall|any: u64| !#[trigger] thinks_for(reasoning, any)) ==> {
            &&& thinking(reasoning) is None
            &&& max_tokens(reasoning) == 8192
        },
{
    if thinks_for(reasoning, budget) {
        assert(thinking(reasoning)->0->Object_0 =~= map![
            "type"@ => JsonView::String("enabled"@),
            "budget_tokens"@ => JsonView::Number(number_of(budget)),
        ]);
    }
    if let Some(any) = thinking_budget(reasoning) {
        assert(thinks_for(reasoning, any));
    }
}

/// An answer in a given form is asked for with the schema of that form, and with
/// nothing else; without a form nothing is asked for.
pub proof fn law_form_is_asked_for(text: Option<TextControls>, format: TextFormat)
    ensures
        text == Some(TextControls { format: Some(format) }) ==> output_config(text) == Some(
            JsonView::Object(
                map![
                    "format"@ => JsonView::Object(
                        map![
                            "type"@ => JsonView::String("json_schema"@),
                            "schema"@ => format.schema@,
                        ],
                    ),
                ],
            ),
        ),
        text is None || text->0.format is None ==> output_config(text) is None,
{
    if text == Some(TextControls { format: Some(format) }) {
        let inner = map![
            "type"@ => JsonView::String("json_schema"@),
            "schema"@ => format.schema@,
        ];
        assert(output_config(text)->0->Object_0["format"@]->Object_0 =~= inner);
        assert(output_config(text)->0->Object_0 =~= map!["format"@ => JsonView::Object(inner)]);
    }
}

/// What the model may do with the tools: nothing where the choice is `none`, it must
/// use one where that is `required` or `any`, and it may use one otherwise. One tool at
/// a time is asked for exactly where calls may not run in parallel.
pub proof fn law_choice_is_passed_on(choice: Seq<char>, parallel_tool_calls: bool)
    ensures
        choice == "none"@ <==> tool_choice(choice, parallel_tool_calls) is None,
        choice != "none"@ ==> tool_choice(choice, parallel_tool_calls) == Some(
            JsonView::Object(
                map![
                    "type"@ => JsonView::String(
                        if choice == "required"@ || choice == "any"@ {
                            "any"@
                        } else {
                            "auto"@
                        },
                    ),
                    "disable_parallel_tool_use"@ => JsonView::Bool(!parallel_tool_calls),
                ],
            ),
        ),
{
    if choice != "none"@ {
        assert(tool_choice(choice, parallel_tool_calls)->0->Object_0 =~= map![
            "type"@ => JsonView::String(
                if choice == "required"@ || choice == "any"@ {
                    "any"@
                } else {
                    "auto"@
                },
            ),
            "disable_parallel_tool_use"@ => JsonView::Bool(!parallel_tool_calls),
        ]);
    }
}

/// The system prompt is what the conversation gathered, with the instructions for the
/// shell in a paragraph of their own behind it. With caching it is one text block that
/// bears the mark; without it is plain text.
pub proof fn law_system_prompt_is_sent(
    talk: Conversation,
    prompt_caching: AnthropicPromptCaching,
)
    ensures
        ({
            let shell = ANTHROPIC_MESSAGES_SHELL_RELIABILITY_INSTRUCTIONS@;
            let text = if blank(talk.system) {
                talk.system + shell
            } else {
                talk.system + "\n\n"@ + shell
            };
            let sent = system_json(request_system(talk), prompt_caching);
            &&& prompt_caching == AnthropicPromptCaching::Disabled ==> sent == JsonView::String(
                text,
            )
            &&& prompt_caching != AnthropicPromptCaching::Disabled ==> {
                &&& sent matches JsonView::Array(blocks)
                &&& blocks.len() == 1
                &&& exists|mark: JsonView| #[trigger]
                    is_mark(mark) && blocks[0] == JsonView::Object(
                        map![
                            "type"@ => JsonView::String("text"@),
                            "text"@ => JsonView::String(text),
                            "cache_control"@ => mark,
                        ],
                    )
            }
        }),
{
    lemma_instructions_are_not_blank();
    let text = request_system(talk);
    let sent = system_json(text, prompt_caching);
    if let JsonView::Array(blocks) = sent {
        lemma_mark();
        assert(blocks[0]->Object_0 =~= map![
            "type"@ => JsonView::String("text"@),
            "text"@ => JsonView::String(text),
            "cache_control"@ => ephemeral(),
        ]);
    }
}

proof fn lemma_mark()
    ensures
        is_mark(ephemeral()),
{
    assert(ephemeral()->Object_0 =~= map!["type"@ => JsonView::String("ephemeral"@)]);
}

/// All tools are sent, in order and as they are, unless the choice is `none`; then none
/// is. With caching the last one bears the mark besides.
pub proof fn law_all_tools_are_sent(
    request: ResponsesApiRequest,
    set: ToolSet,
    prompt_caching: AnthropicPromptCaching,
)
    ensures
        ({
            let sent = request_tools(request, set, prompt_caching);
            let last = set.tools.len() - 1;
            &&& request.tool_choice@ == "none"@ ==> sent.len() == 0
            &&& request.tool_choice@ != "none"@ ==> {
                &&& sent.len() == set.tools.len()
                &&& forall|i: int| 0 <= i < last ==> #[trigger] sent[i] == set.tools[i]
                &&& last >= 0 && prompt_caching == AnthropicPromptCaching::Disabled ==> sent[last]
                    == set.tools[last]
                &&& last >= 0 && prompt_caching != AnthropicPromptCaching::Disabled ==> exists|
                    mark: JsonView,
                | #[trigger]
                    is_mark(mark) && sent[last] == set.tools[last].with("cache_control"@, mark)
            }
        }),
{
    lemma_mark();
}

/// The body holds what it is stated to hold and nothing besides, and its settings are
/// those of the request.
pub proof fn law_body_holds_nothing_else(
    request: ResponsesApiRequest,
    set: ToolSet,
    prompt_caching: AnthropicPromptCaching,
    key: Seq<char>,
)
    ensures
        ({
            let body = request_body(request, set, prompt_caching);
            &&& body.field(key) is Some ==> {
                ||| key == "model"@ || key == "max_tokens"@ || key == "stream"@
                ||| key == "messages"@ || key == "system"@ || key == "thinking"@
                ||| key == "output_config"@ || key == "service_tier"@
                ||| key == "tools"@ || key == "tool_choice"@
            }
            &&& body.field("model"@) == Some(JsonView::String(request.model@))
            &&& body.field("stream"@) == Some(JsonView::Bool(true))
            &&& request.service_tier matches Some(tier) ==> body.field("service_tier"@) == Some(
                JsonView::String(tier@),
            )
            &&& request.service_tier is None ==> body.field("service_tier"@) is None
        }),
{
    law_body_fields(request, set, prompt_caching);
}

} // verus!
