//! The tools of a request: the tools that the session offers become the
//! function tools of the Messages API.

use crate::error::ApiError;
use crate::json::{array_view, json_view, lemma_array_view, Json, JsonView};
use crate::text::same_text;
use crate::tool_names::{conflict, BoundTool, ToolNameView};
use crate::tool_names::{AnthropicToolKind, AnthropicToolNameMap, ToolName};
use vstd::prelude::*;

verus! {

/// The namespace whose tools go by their own name.
pub const DEFAULT_FUNCTION_NAMESPACE: &'static str = "functions";

/// The flat name of a tool in a namespace.
pub open spec fn flattened(namespace: Seq<char>, name: Seq<char>) -> Seq<char> {
    if namespace == DEFAULT_FUNCTION_NAMESPACE@ {
        name
    } else {
        namespace + "__"@ + name
    }
}

/// The name of a tool in a namespace.
pub open spec fn member_name(namespace: Seq<char>, name: Seq<char>) -> ToolNameView {
    if namespace == DEFAULT_FUNCTION_NAMESPACE@ {
        ToolNameView::plain(name)
    } else {
        ToolNameView::namespaced(namespace, name)
    }
}

/// The schema of free-text input: an object with the text in the field `input`.
pub open spec fn text_input_schema() -> JsonView {
    JsonView::object().with("type"@, JsonView::String("object"@)).with(
        "properties"@,
        JsonView::object().with(
            "input"@,
            JsonView::object().with("type"@, JsonView::String("string"@)),
        ),
    ).with("required"@, JsonView::Array(seq![JsonView::String("input"@)])).with(
        "additionalProperties"@,
        JsonView::Bool(false),
    )
}

/// The schema of the input of a tool: that of free text for a custom tool, else
/// its parameters, and any object where it states none.
pub open spec fn input_schema(tool: JsonView) -> JsonView {
    if tool.text_field("type"@) == Some("custom"@) {
        text_input_schema()
    } else {
        match tool.field("parameters"@) {
            Some(parameters) => parameters,
            None => JsonView::object().with("type"@, JsonView::String("object"@)).with(
                "properties"@,
                JsonView::object(),
            ),
        }
    }
}

/// A tool as the Messages API takes it.
pub open spec fn function_tool(tool: JsonView, name: Seq<char>) -> JsonView {
    let description = match tool.text_field("description"@) {
        Some(description) => description,
        None => Seq::empty(),
    };
    JsonView::object().with("name"@, JsonView::String(name)).with(
        "description"@,
        JsonView::String(description),
    ).with("input_schema"@, input_schema(tool))
}

/// The tools taken so far: as the Messages API takes them, and by their names.
#[verifier::ext_equal]
pub struct ToolSet {
    pub tools: Seq<JsonView>,
    pub names: Map<Seq<char>, BoundTool>,
}

impl ToolSet {
    pub open spec fn empty() -> ToolSet {
        ToolSet { tools: Seq::empty(), names: Map::empty() }
    }

    /// Takes one tool under a flat name, unless the names conflict.
    pub open spec fn take(
        self,
        tool: JsonView,
        flat: Seq<char>,
        name: ToolNameView,
        kind: AnthropicToolKind,
    ) -> Result<ToolSet, Seq<char>> {
        match conflict(self.names, flat, name) {
            Some(message) => Err(message),
            None => Ok(
                ToolSet {
                    tools: self.tools.push(function_tool(tool, flat)),
                    names: self.names.insert(flat, BoundTool { name, kind }),
                },
            ),
        }
    }

    /// Takes one tool of a namespace; one without a name is passed over.
    pub open spec fn take_member(self, namespace: Seq<char>, tool: JsonView) -> Result<
        ToolSet,
        Seq<char>,
    > {
        let kind = tool.text_field("type"@);
        if kind != Some("function"@) && kind != Some("custom"@) {
            Err("Anthropic Messages only supports function-compatible namespace tools"@)
        } else {
            match tool.text_field("name"@) {
                Some(name) => self.take(
                    tool,
                    flattened(namespace, name),
                    member_name(namespace, name),
                    if kind == Some("function"@) {
                        AnthropicToolKind::Function
                    } else {
                        AnthropicToolKind::Custom
                    },
                ),
                None => Ok(self),
            }
        }
    }

    /// Takes the tools of a namespace one after the other.
    pub open spec fn take_members(self, namespace: Seq<char>, members: Seq<JsonView>) -> Result<
        ToolSet,
        Seq<char>,
    >
        decreases members.len(),
    {
        if members.len() == 0 {
            Ok(self)
        } else {
            match self.take_members(namespace, members.drop_last()) {
                Ok(set) => set.take_member(namespace, members.last()),
                Err(message) => Err(message),
            }
        }
    }

    /// Takes one entry of the tool list: a function, a custom tool, or the tools
    /// of a namespace. Hosted search is refused; what is of no known type or has
    /// no name is passed over.
    pub open spec fn take_entry(self, tool: JsonView) -> Result<ToolSet, Seq<char>> {
        let name = tool.text_field("name"@);
        match tool.text_field("type"@) {
            Some(kind) => if kind == "function"@ {
                match name {
                    Some(name) => self.take(
                        tool,
                        name,
                        ToolNameView::plain(name),
                        AnthropicToolKind::Function,
                    ),
                    None => Ok(self),
                }
            } else if kind == "namespace"@ {
                match (name, tool.members()) {
                    (Some(namespace), Some(members)) => self.take_members(namespace, members),
                    _ => Ok(self),
                }
            } else if kind == "web_search"@ || kind == "tool_search"@ {
                Err("Anthropic Messages does not support hosted search tools"@)
            } else if kind == "custom"@ {
                match name {
                    Some(name) => self.take(
                        tool,
                        name,
                        ToolNameView::plain(name),
                        AnthropicToolKind::Custom,
                    ),
                    None => Ok(self),
                }
            } else {
                Ok(self)
            },
            None => Ok(self),
        }
    }
}

impl JsonView {
    /// The tools of a namespace.
    pub open spec fn members(self) -> Option<Seq<JsonView>> {
        match self.field("tools"@) {
            Some(tools) => tools.items(),
            None => None,
        }
    }
}

/// The tools of a list, taken one after the other, or why one was refused.
pub open spec fn tool_set(tools: Seq<JsonView>) -> Result<ToolSet, Seq<char>>
    decreases tools.len(),
{
    if tools.len() == 0 {
        Ok(ToolSet::empty())
    } else {
        match tool_set(tools.drop_last()) {
            Ok(set) => set.take_entry(tools.last()),
            Err(message) => Err(message),
        }
    }
}

/// What refuses the tools of the front of a namespace refuses all of them.
proof fn lemma_members_refused(
    set: ToolSet,
    namespace: Seq<char>,
    members: Seq<JsonView>,
    front: int,
)
    requires
        0 <= front <= members.len(),
        set.take_members(namespace, members.take(front)) is Err,
    ensures
        set.take_members(namespace, members) == set.take_members(namespace, members.take(front)),
    decreases members.len(),
{
    if front == members.len() {
        assert(members.take(front) =~= members);
    } else {
        assert(members.drop_last().take(front) =~= members.take(front));
        lemma_members_refused(set, namespace, members.drop_last(), front);
    }
}

/// What refuses the front of a tool list refuses the list.
proof fn lemma_tools_refused(tools: Seq<JsonView>, front: int)
    requires
        0 <= front <= tools.len(),
        tool_set(tools.take(front)) is Err,
    ensures
        tool_set(tools) == tool_set(tools.take(front)),
    decreases tools.len(),
{
    if front == tools.len() {
        assert(tools.take(front) =~= tools);
    } else {
        assert(tools.drop_last().take(front) =~= tools.take(front));
        lemma_tools_refused(tools.drop_last(), front);
    }
}

/// The flat name of a tool in a namespace.
pub fn anthropic_tool_name(namespace: &str, name: &str) -> (flat: String)
    ensures
        flat@ == flattened(namespace@, name@),
{
    if same_text(namespace, DEFAULT_FUNCTION_NAMESPACE) {
        name.to_string()
    } else {
        let mut flat = namespace.to_string();
        flat.append("__");
        flat.append(name);
        flat
    }
}

/// A tool as the Messages API takes it.
pub fn function_tool_to_anthropic(tool: &Json, name: &str) -> (converted: Option<Json>)
    ensures
        json_view(converted) == Some(function_tool(tool@, name@)),
{
    let description = match tool.get_str("description") {
        Some(description) => description.to_string(),
        None => String::new(),
    };
    let custom = match tool.get_str("type") {
        Some(kind) => same_text(kind, "custom"),
        None => false,
    };
    let schema = if custom {
        Json::object().with("type", Json::string("object")).with(
            "properties",
            Json::object().with("input", Json::object().with("type", Json::string("string"))),
        ).with("required", Json::single(Json::string("input"))).with(
            "additionalProperties",
            Json::Bool(false),
        )
    } else {
        match tool.get("parameters") {
            Some(parameters) => parameters.copy(),
            None => Json::object().with("type", Json::string("object")).with(
                "properties",
                Json::object(),
            ),
        }
    };
    assert(description@ == match tool@.text_field("description"@) {
        Some(description) => description,
        None => Seq::empty(),
    });
    Some(
        Json::object().with("name", Json::string(name)).with(
            "description",
            Json::String(description),
        ).with("input_schema", schema),
    )
}

/// The tools taken so far.
spec fn taken(tools: Seq<Json>, names: AnthropicToolNameMap) -> ToolSet {
    ToolSet { tools: array_view(tools), names: names@ }
}

/// Takes one tool under a flat name, unless the names conflict.
fn take_tool(
    tools: &mut Vec<Json>,
    names: &mut AnthropicToolNameMap,
    tool: &Json,
    flat: &str,
    name: ToolName,
    kind: AnthropicToolKind,
) -> (result: Result<(), ApiError>)
    requires
        old(names).well_formed(),
    ensures
        final(names).well_formed(),
        match result {
            Ok(()) => taken(old(tools)@, *old(names)).take(tool@, flat@, name@, kind) == Ok::<
                ToolSet,
                Seq<char>,
            >(taken(final(tools)@, *final(names))),
            Err(error) => taken(old(tools)@, *old(names)).take(tool@, flat@, name@, kind) == Err::<
                ToolSet,
                Seq<char>,
            >(error@),
        },
{
    match names.insert(flat.to_string(), name, kind) {
        Err(error) => {
            return Err(error);
        },
        Ok(()) => {},
    }
    if let Some(converted) = function_tool_to_anthropic(tool, flat) {
        let ghost before = tools@;
        tools.push(converted);
        assert(tools@.drop_last() =~= before);
    }
    Ok(())
}

/// Takes the tools of a namespace one after the other.
fn take_namespace(
    tools: &mut Vec<Json>,
    names: &mut AnthropicToolNameMap,
    namespace: &str,
    members: &Vec<Json>,
) -> (result: Result<(), ApiError>)
    requires
        old(names).well_formed(),
    ensures
        final(names).well_formed(),
        match result {
            Ok(()) => taken(old(tools)@, *old(names)).take_members(
                namespace@,
                array_view(members@),
            ) == Ok::<ToolSet, Seq<char>>(taken(final(tools)@, *final(names))),
            Err(error) => taken(old(tools)@, *old(names)).take_members(
                namespace@,
                array_view(members@),
            ) == Err::<ToolSet, Seq<char>>(error@),
        },
{
    let ghost start = taken(tools@, *names);
    let ghost all = array_view(members@);
    let mut at: usize = 0;
    proof {
        lemma_array_view(members@);
        assert(all.take(0) =~= Seq::empty());
    }
    while at < members.len()
        invariant
            at <= members@.len(),
            names.well_formed(),
            start == taken(old(tools)@, *old(names)),
            all == array_view(members@),
            all.len() == members@.len(),
            start.take_members(namespace@, all.take(at as int)) == Ok::<ToolSet, Seq<char>>(
                taken(tools@, *names),
            ),
        decreases members@.len() - at,
    {
        let member = &members[at];
        let ghost before = taken(tools@, *names);
        proof {
            lemma_array_view(members@);
            assert(all[at as int] == member@);
            assert(all.take(at + 1).drop_last() =~= all.take(at as int));
            assert(start.take_members(namespace@, all.take(at + 1)) == before.take_member(
                namespace@,
                member@,
            ));
        }
        let is_function = match member.get_str("type") {
            Some(kind) => same_text(kind, "function"),
            None => false,
        };
        let is_custom = match member.get_str("type") {
            Some(kind) => same_text(kind, "custom"),
            None => false,
        };
        if !is_function && !is_custom {
            proof {
                lemma_members_refused(start, namespace@, all, at + 1);
            }
            return Err(
                ApiError::Stream(
                    "Anthropic Messages only supports function-compatible namespace tools".to_string(),
                ),
            );
        }
        let kind = if is_function {
            AnthropicToolKind::Function
        } else {
            AnthropicToolKind::Custom
        };
        if let Some(name) = member.get_str("name") {
            let flat = anthropic_tool_name(namespace, name);
            let tool_name = if same_text(namespace, DEFAULT_FUNCTION_NAMESPACE) {
                ToolName::plain(name)
            } else {
                ToolName::namespaced(namespace, name)
            };
            match take_tool(tools, names, member, flat.as_str(), tool_name, kind) {
                Err(error) => {
                    proof {
                        lemma_members_refused(start, namespace@, all, at + 1);
                    }
                    return Err(error);
                },
                Ok(()) => {},
            }
        }
        at = at + 1;
    }
    assert(all.take(at as int) =~= all);
    Ok(())
}

/// The tools of a request as the Messages API takes them, with their names.
pub fn anthropic_tools(list: &Vec<Json>) -> (result: Result<
    (Vec<Json>, AnthropicToolNameMap),
    ApiError,
>)
    ensures
        match result {
            Ok((tools, names)) => {
                &&& names.well_formed()
                &&& tool_set(array_view(list@)) matches Ok(set)
                &&& set.tools == array_view(tools@)
                &&& set.names == names@
            },
            Err(error) => tool_set(array_view(list@)) matches Err(message) && message == error@,
        },
{
    let mut tools: Vec<Json> = Vec::new();
    let mut names = AnthropicToolNameMap::default();
    let ghost all = array_view(list@);
    let mut at: usize = 0;
    proof {
        lemma_array_view(list@);
        assert(all.take(0) =~= Seq::empty());
        assert(taken(tools@, names) =~= ToolSet::empty());
    }
    while at < list.len()
        invariant
            at <= list@.len(),
            names.well_formed(),
            all == array_view(list@),
            all.len() == list@.len(),
            tool_set(all.take(at as int)) == Ok::<ToolSet, Seq<char>>(taken(tools@, names)),
        decreases list@.len() - at,
    {
        let tool = &list[at];
        let ghost before = taken(tools@, names);
        proof {
            lemma_array_view(list@);
            assert(all[at as int] == tool@);
            assert(all.take(at + 1).drop_last() =~= all.take(at as int));
            assert(tool_set(all.take(at + 1)) == before.take_entry(tool@));
        }
        if let Some(kind) = tool.get_str("type") {
            if same_text(kind, "function") {
                if let Some(name) = tool.get_str("name") {
                    let tool_name = ToolName::plain(name);
                    let kind = AnthropicToolKind::Function;
                    match take_tool(&mut tools, &mut names, tool, name, tool_name, kind) {
                        Err(error) => {
                            proof {
                                lemma_tools_refused(all, at + 1);
                            }
                            return Err(error);
                        },
                        Ok(()) => {},
                    }
                }
            } else if same_text(kind, "namespace") {
                if let Some(namespace) = tool.get_str("name") {
                    if let Some(inner) = tool.get("tools") {
                        if let Some(members) = inner.as_array() {
                            match take_namespace(&mut tools, &mut names, namespace, members) {
                                Err(error) => {
                                    proof {
                                        lemma_tools_refused(all, at + 1);
                                    }
                                    return Err(error);
                                },
                                Ok(()) => {},
                            }
                        }
                    }
                }
            } else if same_text(kind, "web_search") || same_text(kind, "tool_search") {
                proof {
                    lemma_tools_refused(all, at + 1);
                }
                return Err(
                    ApiError::Stream(
                        "Anthropic Messages does not support hosted search tools".to_string(),
                    ),
                );
            } else if same_text(kind, "custom") {
                if let Some(name) = tool.get_str("name") {
                    let tool_name = ToolName::plain(name);
                    let kind = AnthropicToolKind::Custom;
                    match take_tool(&mut tools, &mut names, tool, name, tool_name, kind) {
                        Err(error) => {
                            proof {
                                lemma_tools_refused(all, at + 1);
                            }
                            return Err(error);
                        },
                        Ok(()) => {},
                    }
                }
            }
        }
        at = at + 1;
    }
    assert(all.take(at as int) =~= all);
    Ok((tools, names))
}

/// What the model may do with the tools: nothing, where the choice is `none`.
pub open spec fn tool_choice(choice: Seq<char>, parallel_tool_calls: bool) -> Option<JsonView> {
    if choice == "none"@ {
        None
    } else {
        let kind = if choice == "required"@ || choice == "any"@ {
            "any"@
        } else {
            "auto"@
        };
        Some(
            JsonView::object().with("type"@, JsonView::String(kind)).with(
                "disable_parallel_tool_use"@,
                JsonView::Bool(!parallel_tool_calls),
            ),
        )
    }
}

/// What the model may do with the tools: nothing, where the choice is `none`.
pub fn anthropic_tool_choice(choice: &str, parallel_tool_calls: bool) -> (json: Option<Json>)
    ensures
        json_view(json) == tool_choice(choice@, parallel_tool_calls),
{
    if same_text(choice, "none") {
        return None;
    }
    let kind = if same_text(choice, "required") || same_text(choice, "any") {
        "any"
    } else {
        "auto"
    };
    Some(
        Json::object().with("type", Json::string(kind)).with(
            "disable_parallel_tool_use",
            Json::Bool(!parallel_tool_calls),
        ),
    )
}

} // verus!
