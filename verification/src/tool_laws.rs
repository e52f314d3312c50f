//! What holds of the names of tools.

use crate::json::JsonView;
use crate::tool_names::{conflict, flat_name, is_bound, one_name_each, tool_named, BoundTool};
use crate::tool_names::{AnthropicToolKind, ToolNameView};
use crate::tools::{flattened, function_tool, member_name, tool_set, ToolSet};
use vstd::prelude::*;

verus! {

/// The one flat name that a tool can have.
pub open spec fn own_flat_name(tool: ToolNameView) -> Seq<char> {
    match tool.namespace {
        Some(namespace) => namespace + "__"@ + tool.name,
        None => tool.name,
    }
}

/// Whether every tool is bound under the flat name that its own name gives.
pub open spec fn flat_by_rule(names: Map<Seq<char>, BoundTool>) -> bool {
    forall|name: Seq<char>| #[trigger]
        names.contains_key(name) ==> name == own_flat_name(names[name].name)
}

/// Whether the tools of a set and its names belong together: every tool goes by
/// a bound name, and every bound name is that of a tool.
pub open spec fn tools_match_names(set: ToolSet) -> bool {
    &&& forall|i: int|
        0 <= i < set.tools.len() ==> (#[trigger] set.tools[i]).text_field("name"@) is Some
            && set.names.contains_key(set.tools[i].text_field("name"@)->0)
    &&& forall|name: Seq<char>| #[trigger]
        set.names.contains_key(name) ==> exists|i: int|
            0 <= i < set.tools.len() && (#[trigger] set.tools[i]).text_field("name"@) == Some(name)
}

spec fn sound(set: ToolSet) -> bool {
    flat_by_rule(set.names) && tools_match_names(set)
}

proof fn lemma_tool_name_field(tool: JsonView, name: Seq<char>)
    ensures
        function_tool(tool, name).text_field("name"@) == Some(name),
{
    reveal_strlit("name");
    reveal_strlit("description");
    reveal_strlit("input_schema");
    assert("name"@.len() != "description"@.len());
    assert("name"@.len() != "input_schema"@.len());
}

proof fn lemma_take_sound(
    set: ToolSet,
    tool: JsonView,
    flat: Seq<char>,
    name: ToolNameView,
    kind: AnthropicToolKind,
)
    requires
        sound(set),
        flat == own_flat_name(name),
    ensures
        set.take(tool, flat, name, kind) matches Ok(next) ==> sound(next),
{
    if let Ok(next) = set.take(tool, flat, name, kind) {
        lemma_tool_name_field(tool, flat);
        assert forall|i: int| 0 <= i < next.tools.len() implies (
        #[trigger] next.tools[i]).text_field("name"@) is Some && next.names.contains_key(
            next.tools[i].text_field("name"@)->0,
        ) by {
            if i < set.tools.len() {
                assert(next.tools[i] == set.tools[i]);
            }
        }
        assert forall|bound: Seq<char>| #[trigger] next.names.contains_key(bound) implies exists|
            i: int,
        |
            0 <= i < next.tools.len() && (#[trigger] next.tools[i]).text_field("name"@) == Some(
                bound,
            ) by {
            if bound == flat {
                assert(next.tools[set.tools.len() as int].text_field("name"@) == Some(bound));
            } else {
                assert(set.names.contains_key(bound));
                let i = choose|i: int|
                    0 <= i < set.tools.len() && (#[trigger] set.tools[i]).text_field("name"@)
                        == Some(bound);
                assert(next.tools[i] == set.tools[i]);
            }
        }
    }
}

proof fn lemma_members_sound(set: ToolSet, namespace: Seq<char>, members: Seq<JsonView>)
    requires
        sound(set),
    ensures
        set.take_members(namespace, members) matches Ok(next) ==> sound(next),
    decreases members.len(),
{
    if members.len() > 0 {
        lemma_members_sound(set, namespace, members.drop_last());
        if let Ok(front) = set.take_members(namespace, members.drop_last()) {
            let tool = members.last();
            if let Some(name) = tool.text_field("name"@) {
                let kind = if tool.text_field("type"@) == Some("function"@) {
                    AnthropicToolKind::Function
                } else {
                    AnthropicToolKind::Custom
                };
                lemma_take_sound(
                    front,
                    tool,
                    flattened(namespace, name),
                    member_name(namespace, name),
                    kind,
                );
            }
        }
    }
}

/// However the tools are listed, each is bound under the flat name that its own
/// name gives, none under two, and the tools and the bound names belong together.
pub proof fn law_tools_have_one_name_each(tools: Seq<JsonView>)
    ensures
        tool_set(tools) matches Ok(set) ==> {
            &&& flat_by_rule(set.names)
            &&& one_name_each(set.names)
            &&& tools_match_names(set)
        },
    decreases tools.len(),
{
    if tools.len() > 0 {
        law_tools_have_one_name_each(tools.drop_last());
        if let Ok(front) = tool_set(tools.drop_last()) {
            let tool = tools.last();
            if let Some(name) = tool.text_field("name"@) {
                lemma_take_sound(
                    front,
                    tool,
                    name,
                    ToolNameView::plain(name),
                    AnthropicToolKind::Function,
                );
                lemma_take_sound(
                    front,
                    tool,
                    name,
                    ToolNameView::plain(name),
                    AnthropicToolKind::Custom,
                );
                if let Some(members) = tool.members() {
                    lemma_members_sound(front, name, members);
                }
            }
        }
    }
}

/// The tools of a namespace that have a name, as the Messages API takes them.
pub open spec fn sent_members(namespace: Seq<char>, members: Seq<JsonView>) -> Seq<JsonView>
    decreases members.len(),
{
    if members.len() == 0 {
        Seq::empty()
    } else {
        let front = sent_members(namespace, members.drop_last());
        match members.last().text_field("name"@) {
            Some(name) => front.push(
                function_tool(members.last(), flattened(namespace, name)),
            ),
            None => front,
        }
    }
}

/// What one entry of a tool list sends: itself where it is a function or a custom
/// tool with a name, and its members where it is a namespace with a name.
pub open spec fn entry_sends(tool: JsonView) -> Seq<JsonView> {
    match (tool.text_field("type"@), tool.text_field("name"@)) {
        (Some(kind), Some(name)) => if kind == "function"@ || kind == "custom"@ {
            seq![function_tool(tool, name)]
        } else if kind == "namespace"@ {
            match tool.members() {
                Some(members) => sent_members(name, members),
                None => Seq::empty(),
            }
        } else {
            Seq::empty()
        },
        _ => Seq::empty(),
    }
}

/// What the entries of a tool list send, one after the other.
pub open spec fn sent_tools(tools: Seq<JsonView>) -> Seq<JsonView>
    decreases tools.len(),
{
    if tools.len() == 0 {
        Seq::empty()
    } else {
        sent_tools(tools.drop_last()) + entry_sends(tools.last())
    }
}

proof fn lemma_members_in_order(set: ToolSet, namespace: Seq<char>, members: Seq<JsonView>)
    ensures
        set.take_members(namespace, members) matches Ok(next) ==> next.tools == set.tools
            + sent_members(namespace, members),
    decreases members.len(),
{
    if members.len() == 0 {
        assert(set.tools + Seq::<JsonView>::empty() =~= set.tools);
    } else {
        lemma_members_in_order(set, namespace, members.drop_last());
        if let Ok(next) = set.take_members(namespace, members) {
            assert(next.tools =~= set.tools + sent_members(namespace, members));
        }
    }
}

proof fn lemma_entry_kinds_differ()
    ensures
        "namespace"@ != "function"@,
        "namespace"@ != "custom"@,
        "custom"@ != "web_search"@,
        "custom"@ != "tool_search"@,
{
    reveal_strlit("function");
    reveal_strlit("custom");
    reveal_strlit("namespace");
    reveal_strlit("web_search");
    reveal_strlit("tool_search");
    assert("function"@.len() == 8 && "custom"@.len() == 6 && "namespace"@.len() == 9);
    assert("web_search"@.len() == 10 && "tool_search"@.len() == 11);
}

/// The tools come out one for one, and in the order in which the tools with a name
/// are listed: none is lost, added or moved.
pub proof fn law_tools_come_out_in_order(tools: Seq<JsonView>)
    ensures
        tool_set(tools) matches Ok(set) ==> set.tools == sent_tools(tools),
    decreases tools.len(),
{
    if tools.len() > 0 {
        law_tools_come_out_in_order(tools.drop_last());
        lemma_entry_kinds_differ();
        if let Ok(front) = tool_set(tools.drop_last()) {
            let tool = tools.last();
            if let (Some(namespace), Some(members)) = (tool.text_field("name"@), tool.members()) {
                lemma_members_in_order(front, namespace, members);
            }
            if let Ok(set) = tool_set(tools) {
                assert(set.tools =~= front.tools + entry_sends(tool));
            }
        }
    }
}

/// The flat name of a tool leads back to the tool, and what a bound flat name
/// stands for leads back to the name.
pub proof fn law_names_lead_back(
    names: Map<Seq<char>, BoundTool>,
    name: Seq<char>,
    tool: ToolNameView,
)
    requires
        one_name_each(names),
    ensures
        flat_name(names, tool) == Some(name) ==> tool_named(names, name) == tool,
        names.contains_key(name) ==> flat_name(names, tool_named(names, name)) == Some(name),
{
    if let Some(flat) = flat_name(names, tool) {
        assert(is_bound(names, flat, tool));
    }
    if names.contains_key(name) {
        let bound = names[name].name;
        assert(is_bound(names, name, bound));
        let flat = choose|flat: Seq<char>| #[trigger] is_bound(names, flat, bound);
        assert(is_bound(names, flat, bound));
    }
}

/// Whatever name the model calls a tool by, bound or not, the call goes back to
/// it under that name: the name in the history is the one that it used.
pub proof fn law_called_name_is_kept(tools: Seq<JsonView>, name: Seq<char>)
    ensures
        tool_set(tools) matches Ok(set) ==> match flat_name(
            set.names,
            tool_named(set.names, name),
        ) {
            Some(flat) => flat == name,
            None => tool_named(set.names, name).name == name,
        },
{
    law_tools_have_one_name_each(tools);
    if let Ok(set) = tool_set(tools) {
        let tool = tool_named(set.names, name);
        law_names_lead_back(set.names, name, tool);
        if let Some(flat) = flat_name(set.names, tool) {
            assert(is_bound(set.names, flat, tool));
            assert(flat == own_flat_name(set.names[flat].name));
        }
    }
}

/// Binding a tool again under the name that it has is no conflict.
pub proof fn law_rebinding_is_no_conflict(
    names: Map<Seq<char>, BoundTool>,
    name: Seq<char>,
)
    requires
        one_name_each(names),
        names.contains_key(name),
    ensures
        conflict(names, name, names[name].name) is None,
{
    let tool = names[name].name;
    assert(is_bound(names, name, tool));
}

} // verus!
