//! What becomes of the tools that a request lists.

use crate::json::JsonView;
use crate::tool_laws::own_flat_name;
use crate::tool_names::{conflict, is_bound, kind_named, tool_named, AnthropicToolKind, BoundTool};
use crate::tool_names::{ToolName, ToolNameView};
use crate::tools::{flattened, function_tool, input_schema, member_name, tool_set, ToolSet};
use vstd::prelude::*;

verus! {

/// A tool that is listed: the document that describes it, and its name.
#[verifier::ext_equal]
pub struct Listing {
    pub tool: JsonView,
    pub name: ToolNameView,
}

/// The tools that a namespace lists: its members that have a name. Those of the
/// namespace `functions` have a name without a namespace.
pub open spec fn member_listings(namespace: Seq<char>, members: Seq<JsonView>) -> Seq<Listing>
    decreases members.len(),
{
    if members.len() == 0 {
        Seq::empty()
    } else {
        let front = member_listings(namespace, members.drop_last());
        let tool = members.last();
        match tool.field("name"@) {
            Some(JsonView::String(name)) => front.push(
                Listing {
                    tool,
                    name: ToolNameView {
                        name,
                        namespace: if namespace == "functions"@ {
                            None
                        } else {
                            Some(namespace)
                        },
                    },
                },
            ),
            _ => front,
        }
    }
}

/// The tools that an entry of a tool list lists.
pub open spec fn entry_listings(entry: JsonView) -> Seq<Listing> {
    match (entry.field("type"@), entry.field("name"@)) {
        (Some(JsonView::String(kind)), Some(JsonView::String(name))) => if kind == "function"@
            || kind == "custom"@ {
            seq![Listing { tool: entry, name: ToolNameView { name, namespace: None } }]
        } else if kind == "namespace"@ {
            match entry.field("tools"@) {
                Some(JsonView::Array(members)) => member_listings(name, members),
                _ => Seq::empty(),
            }
        } else {
            Seq::empty()
        },
        _ => Seq::empty(),
    }
}

/// The tools that a tool list lists, in order.
pub open spec fn listings(entries: Seq<JsonView>) -> Seq<Listing>
    decreases entries.len(),
{
    if entries.len() == 0 {
        Seq::empty()
    } else {
        listings(entries.drop_last()) + entry_listings(entries.last())
    }
}

/// Whether an entry asks for a search that the provider hosts.
pub open spec fn is_hosted_search(entry: JsonView) -> bool {
    entry.text_field("type"@) == Some("web_search"@) || entry.text_field("type"@) == Some(
        "tool_search"@,
    )
}

/// Whether a member of a namespace is a function or a custom tool.
pub open spec fn is_callable(member: JsonView) -> bool {
    member.text_field("type"@) == Some("function"@) || member.text_field("type"@) == Some(
        "custom"@,
    )
}

/// Whether an entry is a namespace with a name that has a member which is neither a
/// function nor a custom tool.
pub open spec fn has_other_member(entry: JsonView) -> bool {
    &&& entry.text_field("type"@) == Some("namespace"@)
    &&& entry.text_field("name"@) is Some
    &&& entry.field("tools"@) matches Some(JsonView::Array(members)) && exists|i: int|
        0 <= i < members.len() && !is_callable(#[trigger] members[i])
}

/// Whether two listings are of different tools that have the same flat name.
pub open spec fn collide(left: Listing, right: Listing) -> bool {
    left.name != right.name && own_flat_name(left.name) == own_flat_name(right.name)
}

/// How the input of a tool travels: that of one whose type is `custom` as free text.
pub open spec fn kind_of(tool: JsonView) -> AnthropicToolKind {
    if tool.text_field("type"@) == Some("custom"@) {
        AnthropicToolKind::Custom
    } else {
        AnthropicToolKind::Function
    }
}

/// The tools of a run of listings, bound one after the other.
spec fn bind_all(set: ToolSet, run: Seq<Listing>) -> Result<ToolSet, Seq<char>>
    decreases run.len(),
{
    if run.len() == 0 {
        Ok(set)
    } else {
        match bind_all(set, run.drop_last()) {
            Ok(front) => front.take(
                run.last().tool,
                own_flat_name(run.last().name),
                run.last().name,
                kind_of(run.last().tool),
            ),
            Err(message) => Err(message),
        }
    }
}

proof fn lemma_bind_in_halves(set: ToolSet, left: Seq<Listing>, right: Seq<Listing>)
    ensures
        bind_all(set, left + right) == match bind_all(set, left) {
            Ok(front) => bind_all(front, right),
            Err(message) => Err(message),
        },
    decreases right.len(),
{
    if right.len() == 0 {
        assert(left + right =~= left);
    } else {
        lemma_bind_in_halves(set, left, right.drop_last());
        assert((left + right).drop_last() =~= left + right.drop_last());
    }
}

proof fn lemma_types_differ()
    ensures
        "function"@ != "custom"@,
        "namespace"@ != "function"@,
        "namespace"@ != "custom"@,
        "web_search"@ != "function"@,
        "web_search"@ != "custom"@,
        "web_search"@ != "namespace"@,
        "tool_search"@ != "function"@,
        "tool_search"@ != "custom"@,
        "tool_search"@ != "namespace"@,
{
    reveal_strlit("function");
    reveal_strlit("custom");
    reveal_strlit("namespace");
    reveal_strlit("web_search");
    reveal_strlit("tool_search");
    assert("function"@.len() == 8 && "custom"@.len() == 6 && "namespace"@.len() == 9);
    assert("web_search"@.len() == 10 && "tool_search"@.len() == 11);
}

proof fn lemma_members_bound(set: ToolSet, namespace: Seq<char>, members: Seq<JsonView>)
    requires
        forall|i: int| 0 <= i < members.len() ==> is_callable(#[trigger] members[i]),
    ensures
        set.take_members(namespace, members) == bind_all(set, member_listings(namespace, members)),
    decreases members.len(),
{
    lemma_types_differ();
    if members.len() > 0 {
        let front = members.drop_last();
        assert forall|i: int| 0 <= i < front.len() implies is_callable(#[trigger] front[i]) by {
            assert(front[i] == members[i]);
        }
        lemma_members_bound(set, namespace, front);
        let run = member_listings(namespace, front);
        let tool = members[members.len() - 1];
        if let Some(name) = tool.text_field("name"@) {
            let next = run.push(Listing { tool, name: member_name(namespace, name) });
            assert(member_listings(namespace, members) =~= next);
            assert(next.drop_last() =~= run);
            assert(own_flat_name(member_name(namespace, name)) == flattened(namespace, name));
        }
    }
}

proof fn lemma_members_refused(set: ToolSet, namespace: Seq<char>, members: Seq<JsonView>, at: int)
    requires
        0 <= at < members.len(),
        !is_callable(members[at]),
    ensures
        set.take_members(namespace, members) is Err,
    decreases members.len(),
{
    if at < members.len() - 1 {
        assert(members.drop_last()[at] == members[at]);
        lemma_members_refused(set, namespace, members.drop_last(), at);
    }
}

/// The collision that a message tells of.
pub open spec fn tells_of_collision(message: Seq<char>, flat: Seq<char>) -> bool {
    message == "Anthropic tool name collision for "@ + flat
}

/// Whether two listings of a run collide, and a message tells of it.
pub open spec fn collision_in(run: Seq<Listing>, message: Seq<char>) -> bool {
    exists|i: int, j: int|
        0 <= i < run.len() && 0 <= j < run.len() && #[trigger] collide(run[i], run[j])
            && tells_of_collision(message, own_flat_name(run[i].name))
}

/// Whether no two listings of a run collide.
pub open spec fn no_collision(run: Seq<Listing>) -> bool {
    forall|i: int, j: int|
        0 <= i < run.len() && 0 <= j < run.len() ==> !#[trigger] collide(run[i], run[j])
}

/// Whether a listing is the last one in a run of its flat name.
pub open spec fn is_last_of_its_name(run: Seq<Listing>, at: int) -> bool {
    forall|later: int|
        at < later < run.len() ==> own_flat_name((#[trigger] run[later]).name) != own_flat_name(
            run[at].name,
        )
}

/// Whether a set holds what a run of listings lists.
spec fn holds_run(set: ToolSet, run: Seq<Listing>) -> bool {
    &&& set.tools.len() == run.len()
    &&& forall|i: int|
        #![trigger run[i]]
        0 <= i < run.len() ==> {
            let flat = own_flat_name(run[i].name);
            &&& set.tools[i] == function_tool(run[i].tool, flat)
            &&& set.names.contains_key(flat)
            &&& set.names[flat].name == run[i].name
            &&& is_last_of_its_name(run, i) ==> set.names[flat].kind == kind_of(run[i].tool)
        }
    &&& forall|flat: Seq<char>| #[trigger]
        set.names.contains_key(flat) ==> exists|i: int|
            0 <= i < run.len() && own_flat_name((#[trigger] run[i]).name) == flat
}

proof fn lemma_bind_all(run: Seq<Listing>)
    ensures
        match bind_all(ToolSet::empty(), run) {
            Ok(set) => no_collision(run) && holds_run(set, run),
            Err(message) => !no_collision(run) && collision_in(run, message),
        },
    decreases run.len(),
{
    if run.len() > 0 {
        let front = run.drop_last();
        let at = run.len() - 1;
        let new = run[at];
        let flat = own_flat_name(new.name);
        lemma_bind_all(front);
        match bind_all(ToolSet::empty(), front) {
            Err(message) => {
                let (i, j) = choose|i: int, j: int|
                    0 <= i < front.len() && 0 <= j < front.len() && #[trigger] collide(
                        front[i],
                        front[j],
                    ) && tells_of_collision(message, own_flat_name(front[i].name));
                assert(collide(run[i], run[j]));
            },
            Ok(set) => {
                assert forall|other: Seq<char>| #[trigger]
                    is_bound(set.names, other, new.name) implies other == flat by {
                    let i = choose|i: int|
                        0 <= i < front.len() && own_flat_name((#[trigger] front[i]).name) == other;
                    assert(front[i].name == new.name);
                }
                if set.names.contains_key(flat) && set.names[flat].name != new.name {
                    let i = choose|i: int|
                        0 <= i < front.len() && own_flat_name((#[trigger] front[i]).name) == flat;
                    assert(run[i] == front[i]);
                    assert(collide(run[i], run[at]));
                } else {
                    let next = bind_all(ToolSet::empty(), run)->Ok_0;
                    assert forall|i: int, j: int|
                        0 <= i < run.len() && 0 <= j < run.len() implies !#[trigger] collide(
                        run[i],
                        run[j],
                    ) by {
                        if i < at {
                            assert(run[i] == front[i]);
                        }
                        if j < at {
                            assert(run[j] == front[j]);
                        }
                        if i < at && j < at {
                            assert(!collide(front[i], front[j]));
                        }
                    }
                    assert forall|i: int| #![trigger run[i]] 0 <= i < run.len() implies ({
                        let flat = own_flat_name(run[i].name);
                        &&& next.tools[i] == function_tool(run[i].tool, flat)
                        &&& next.names.contains_key(flat)
                        &&& next.names[flat].name == run[i].name
                        &&& is_last_of_its_name(run, i) ==> next.names[flat].kind == kind_of(
                            run[i].tool,
                        )
                    }) by {
                        if i < at {
                            assert(run[i] == front[i]);
                            if is_last_of_its_name(run, i) {
                                assert(own_flat_name(run[at].name) != own_flat_name(run[i].name));
                                assert forall|later: int|
                                    i < later < front.len() implies own_flat_name(
                                    (#[trigger] front[later]).name,
                                ) != own_flat_name(front[i].name) by {
                                    assert(front[later] == run[later]);
                                }
                            }
                        }
                    }
                    assert forall|bound: Seq<char>| #[trigger]
                        next.names.contains_key(bound) implies exists|i: int|
                        0 <= i < run.len() && own_flat_name((#[trigger] run[i]).name) == bound by {
                        if bound == flat {
                            assert(own_flat_name(run[at].name) == bound);
                        } else {
                            assert(set.names.contains_key(bound));
                            let i = choose|i: int|
                                0 <= i < front.len() && own_flat_name((#[trigger] front[i]).name)
                                    == bound;
                            assert(run[i] == front[i]);
                        }
                    }
                }
            },
        }
    }
}

/// Whether an entry is one that no list may have.
pub open spec fn is_refused(entry: JsonView) -> bool {
    is_hosted_search(entry) || has_other_member(entry)
}

proof fn lemma_entry_bound(set: ToolSet, entry: JsonView)
    ensures
        !is_refused(entry) ==> set.take_entry(entry) == bind_all(set, entry_listings(entry)),
        is_hosted_search(entry) ==> set.take_entry(entry) == Err::<ToolSet, Seq<char>>(
            "Anthropic Messages does not support hosted search tools"@,
        ),
        has_other_member(entry) ==> set.take_entry(entry) is Err,
{
    lemma_types_differ();
    reveal_with_fuel(bind_all, 2);
    let run = entry_listings(entry);
    if run.len() == 1 {
        assert(run.drop_last() =~= Seq::empty());
    }
    if entry.text_field("type"@) == Some("namespace"@) {
        if let (Some(name), Some(JsonView::Array(members))) = (
            entry.text_field("name"@),
            entry.field("tools"@),
        ) {
            if has_other_member(entry) {
                let i = choose|i: int| 0 <= i < members.len() && !is_callable(#[trigger] members[i]);
                lemma_members_refused(set, name, members, i);
            } else {
                lemma_members_bound(set, name, members);
            }
        }
    }
}

proof fn lemma_list_bound(entries: Seq<JsonView>)
    requires
        forall|i: int| 0 <= i < entries.len() ==> !is_refused(#[trigger] entries[i]),
    ensures
        tool_set(entries) == bind_all(ToolSet::empty(), listings(entries)),
    decreases entries.len(),
{
    if entries.len() > 0 {
        let front = entries.drop_last();
        assert forall|i: int| 0 <= i < front.len() implies !is_refused(#[trigger] front[i]) by {
            assert(front[i] == entries[i]);
        }
        lemma_list_bound(front);
        let last = entries[entries.len() - 1];
        lemma_bind_in_halves(ToolSet::empty(), listings(front), entry_listings(last));
        if let Ok(set) = tool_set(front) {
            lemma_entry_bound(set, last);
        }
    }
}

proof fn lemma_list_refused(entries: Seq<JsonView>, at: int)
    requires
        0 <= at < entries.len(),
        is_refused(entries[at]),
    ensures
        tool_set(entries) is Err,
    decreases entries.len(),
{
    if at < entries.len() - 1 {
        assert(entries.drop_last()[at] == entries[at]);
        lemma_list_refused(entries.drop_last(), at);
    } else if let Ok(set) = tool_set(entries.drop_last()) {
        lemma_entry_bound(set, entries[at]);
    }
}

/// A tool list is refused exactly where it asks for a hosted search, where a namespace
/// with a name has a member that is neither a function nor a custom tool, and where two
/// different tools have the same flat name.
pub proof fn law_when_tools_are_refused(entries: Seq<JsonView>)
    ensures
        tool_set(entries) is Ok <==> {
            &&& forall|i: int|
                0 <= i < entries.len() ==> !is_hosted_search(#[trigger] entries[i])
                    && !has_other_member(entries[i])
            &&& no_collision(listings(entries))
        },
{
    if forall|i: int| 0 <= i < entries.len() ==> !is_refused(#[trigger] entries[i]) {
        lemma_list_bound(entries);
        lemma_bind_all(listings(entries));
        assert forall|i: int| 0 <= i < entries.len() implies !is_hosted_search(
            #[trigger] entries[i],
        ) && !has_other_member(entries[i]) by {
            assert(!is_refused(entries[i]));
        }
    } else {
        let i = choose|i: int| 0 <= i < entries.len() && is_refused(#[trigger] entries[i]);
        lemma_list_refused(entries, i);
    }
}

/// What refuses the front of a list refuses the list, for the same reason; the entries
/// behind it are not looked at.
pub proof fn law_first_refusal_counts(entries: Seq<JsonView>, entry: JsonView)
    ensures
        tool_set(entries) is Err ==> tool_set(entries.push(entry)) == tool_set(entries),
        tool_set(entries) is Ok && is_hosted_search(entry) ==> tool_set(entries.push(entry)) == Err::<
            ToolSet,
            Seq<char>,
        >("Anthropic Messages does not support hosted search tools"@),
        tool_set(entries) is Ok && !is_hosted_search(entry) && !has_other_member(entry) ==> (
        tool_set(entries.push(entry)) matches Err(message) ==> collision_in(
            listings(entries.push(entry)),
            message,
        )),
        tool_set(entries) is Ok && has_other_member(entry) && no_collision(
            listings(entries) + entry_listings(entry),
        ) ==> tool_set(entries.push(entry)) == Err::<ToolSet, Seq<char>>(
            "Anthropic Messages only supports function-compatible namespace tools"@,
        ),
{
    let more = entries.push(entry);
    assert(more.drop_last() =~= entries);
    if let Ok(set) = tool_set(entries) {
        lemma_entry_bound(set, entry);
        law_when_tools_are_refused(entries);
        lemma_list_bound(entries);
        if !is_refused(entry) {
            lemma_list_bound(more);
            lemma_bind_all(listings(more));
        } else if has_other_member(entry) && no_collision(
            listings(entries) + entry_listings(entry),
        ) {
            let name = entry.text_field("name"@)->0;
            let members = entry.members()->0;
            lemma_types_differ();
            assert(entry_listings(entry) == member_listings(name, members));
            let i = choose|i: int| 0 <= i < members.len() && !is_callable(#[trigger] members[i]);
            lemma_other_member_is_told(listings(entries), set, name, members, i);
        }
    }
}

/// The members of a namespace are looked at one after the other: what refuses the first
/// of them refuses the list for the same reason, whatever member follows, and a member
/// that is neither a function nor a custom tool is told of where those before it were
/// taken.
pub proof fn law_first_refused_member_counts(
    entries: Seq<JsonView>,
    shorter: JsonView,
    longer: JsonView,
    members: Seq<JsonView>,
    member: JsonView,
)
    requires
        shorter.text_field("type"@) == Some("namespace"@),
        longer.text_field("type"@) == Some("namespace"@),
        shorter.text_field("name"@) is Some,
        longer.text_field("name"@) == shorter.text_field("name"@),
        shorter.field("tools"@) == Some(JsonView::Array(members)),
        longer.field("tools"@) == Some(JsonView::Array(members.push(member))),
    ensures
        tool_set(entries.push(shorter)) is Err ==> tool_set(entries.push(longer)) == tool_set(
            entries.push(shorter),
        ),
        tool_set(entries.push(shorter)) is Ok && !is_callable(member) ==> tool_set(
            entries.push(longer),
        ) == Err::<ToolSet, Seq<char>>(
            "Anthropic Messages only supports function-compatible namespace tools"@,
        ),
{
    lemma_types_differ();
    assert(entries.push(shorter).drop_last() =~= entries);
    assert(entries.push(longer).drop_last() =~= entries);
    assert(members.push(member).drop_last() =~= members);
}

proof fn lemma_other_member_is_told(
    run: Seq<Listing>,
    set: ToolSet,
    namespace: Seq<char>,
    members: Seq<JsonView>,
    at: int,
)
    requires
        0 <= at < members.len(),
        !is_callable(members[at]),
        bind_all(ToolSet::empty(), run) == Ok::<ToolSet, Seq<char>>(set),
        no_collision(run + member_listings(namespace, members)),
    ensures
        set.take_members(namespace, members) == Err::<ToolSet, Seq<char>>(
            "Anthropic Messages only supports function-compatible namespace tools"@,
        ),
    decreases members.len(),
{
    let front = members.drop_last();
    let before = run + member_listings(namespace, front);
    let all = run + member_listings(namespace, members);
    assert forall|i: int, j: int|
        0 <= i < before.len() && 0 <= j < before.len() implies !#[trigger] collide(
        before[i],
        before[j],
    ) by {
        assert(before[i] == all[i] && before[j] == all[j]);
        assert(!collide(all[i], all[j]));
    }
    if exists|i: int| 0 <= i < front.len() && !is_callable(#[trigger] front[i]) {
        let i = choose|i: int| 0 <= i < front.len() && !is_callable(#[trigger] front[i]);
        lemma_other_member_is_told(run, set, namespace, front, i);
    } else {
        lemma_members_bound(set, namespace, front);
        lemma_bind_in_halves(ToolSet::empty(), run, member_listings(namespace, front));
        lemma_bind_all(before);
        if at < front.len() {
            assert(front[at] == members[at]);
        }
    }
}

/// A tool is bound as its last listing says, in every namespace and outside of one:
/// under the flat name that its name gives, as that tool, and as a custom tool exactly
/// where that listing has the type `custom`.
pub proof fn law_last_listing_decides(entries: Seq<JsonView>, at: int)
    requires
        tool_set(entries) is Ok,
        0 <= at < listings(entries).len(),
        is_last_of_its_name(listings(entries), at),
    ensures
        ({
            let names = tool_set(entries)->Ok_0.names;
            let listing = listings(entries)[at];
            let flat = match listing.name.namespace {
                Some(namespace) => namespace + "__"@ + listing.name.name,
                None => listing.name.name,
            };
            &&& names.contains_key(flat)
            &&& names[flat].name == listing.name
            &&& names[flat].kind == AnthropicToolKind::Custom <==> listing.tool.text_field("type"@)
                == Some("custom"@)
        }),
{
    law_when_tools_are_refused(entries);
    assert forall|i: int| 0 <= i < entries.len() implies !is_refused(#[trigger] entries[i]) by {
        assert(!is_hosted_search(entries[i]));
    }
    lemma_list_bound(entries);
    lemma_bind_all(listings(entries));
    assert(own_flat_name(listings(entries)[at].name) == own_flat_name(listings(entries)[at].name));
}

/// Only what is listed is bound, and what is listed is sent in order: each tool under
/// its flat name, with its description or an empty one, and with the schema of its
/// input. That of a custom tool asks for a text in `input`; that of a function is given
/// by its parameters, and is any object where it has none.
pub proof fn law_listed_tools_are_sent(entries: Seq<JsonView>, at: int, flat: Seq<char>)
    requires
        tool_set(entries) is Ok,
        0 <= at < listings(entries).len(),
    ensures
        ({
            let set = tool_set(entries)->Ok_0;
            let run = listings(entries);
            let listing = run[at];
            let sent = set.tools[at];
            let schema = if listing.tool.text_field("type"@) == Some("custom"@) {
                JsonView::Object(
                    map![
                        "type"@ => JsonView::String("object"@),
                        "properties"@ => JsonView::Object(
                            map![
                                "input"@ => JsonView::Object(
                                    map!["type"@ => JsonView::String("string"@)],
                                ),
                            ],
                        ),
                        "required"@ => JsonView::Array(seq![JsonView::String("input"@)]),
                        "additionalProperties"@ => JsonView::Bool(false),
                    ],
                )
            } else {
                match listing.tool.field("parameters"@) {
                    Some(parameters) => parameters,
                    None => JsonView::Object(
                        map![
                            "type"@ => JsonView::String("object"@),
                            "properties"@ => JsonView::Object(Map::empty()),
                        ],
                    ),
                }
            };
            &&& set.tools.len() == run.len()
            &&& sent == JsonView::Object(
                map![
                    "name"@ => JsonView::String(
                        match listing.name.namespace {
                            Some(namespace) => namespace + "__"@ + listing.name.name,
                            None => listing.name.name,
                        },
                    ),
                    "description"@ => JsonView::String(
                        match listing.tool.field("description"@) {
                            Some(JsonView::String(description)) => description,
                            _ => Seq::empty(),
                        },
                    ),
                    "input_schema"@ => schema,
                ],
            )
            &&& set.names.contains_key(flat) ==> exists|i: int|
                0 <= i < run.len() && own_flat_name((#[trigger] run[i]).name) == flat
        }),
{
    law_when_tools_are_refused(entries);
    assert forall|i: int| 0 <= i < entries.len() implies !is_refused(#[trigger] entries[i]) by {
        assert(!is_hosted_search(entries[i]));
    }
    lemma_list_bound(entries);
    lemma_bind_all(listings(entries));
    let listing = listings(entries)[at];
    lemma_function_tool(listing.tool, own_flat_name(listing.name));
}

proof fn lemma_function_tool(tool: JsonView, name: Seq<char>)
    ensures
        function_tool(tool, name) == JsonView::Object(
            map![
                "name"@ => JsonView::String(name),
                "description"@ => JsonView::String(
                    match tool.field("description"@) {
                        Some(JsonView::String(description)) => description,
                        _ => Seq::empty(),
                    },
                ),
                "input_schema"@ => input_schema(tool),
            ],
        ),
        input_schema(tool) == if tool.text_field("type"@) == Some("custom"@) {
            JsonView::Object(
                map![
                    "type"@ => JsonView::String("object"@),
                    "properties"@ => JsonView::Object(
                        map![
                            "input"@ => JsonView::Object(
                                map!["type"@ => JsonView::String("string"@)],
                            ),
                        ],
                    ),
                    "required"@ => JsonView::Array(seq![JsonView::String("input"@)]),
                    "additionalProperties"@ => JsonView::Bool(false),
                ],
            )
        } else {
            match tool.field("parameters"@) {
                Some(parameters) => parameters,
                None => JsonView::Object(
                    map![
                        "type"@ => JsonView::String("object"@),
                        "properties"@ => JsonView::Object(Map::empty()),
                    ],
                ),
            }
        },
{
}

/// A flat name stands for the tool that is bound under it. One under which none is
/// bound stands for the function of that name without a namespace.
pub proof fn law_what_a_name_stands_for(names: Map<Seq<char>, BoundTool>, name: Seq<char>)
    ensures
        names.contains_key(name) ==> tool_named(names, name) == names[name].name && kind_named(
            names,
            name,
        ) == names[name].kind,
        !names.contains_key(name) ==> tool_named(names, name) == (ToolNameView {
            name,
            namespace: None,
        }) && kind_named(names, name) == AnthropicToolKind::Function,
{
}

/// A tool cannot be bound under a name that stands for another tool, nor where it is
/// bound under another name; it can be bound otherwise. The first reason is told where
/// both hold.
pub proof fn law_when_names_conflict(
    names: Map<Seq<char>, BoundTool>,
    name: Seq<char>,
    tool: ToolName,
)
    ensures
        ({
            let taken = names.contains_key(name) && names[name].name != tool@;
            let elsewhere = exists|other: Seq<char>|
                other != name && #[trigger] names.contains_key(other) && names[other].name == tool@;
            let shown = match tool.namespace {
                Some(namespace) => namespace@ + tool.name@,
                None => tool.name@,
            };
            conflict(names, name, tool@) == if taken {
                Some("Anthropic tool name collision for "@ + name)
            } else if elsewhere {
                Some("multiple Anthropic tool names map to "@ + shown)
            } else {
                None
            }
        }),
        tool@.name == tool.name@,
        tool@.namespace is None <==> tool.namespace is None,
        tool.namespace matches Some(namespace) ==> tool@.namespace == Some(namespace@),
{
    if exists|other: Seq<char>|
        other != name && #[trigger] names.contains_key(other) && names[other].name == tool@ {
        let other = choose|other: Seq<char>|
            other != name && #[trigger] names.contains_key(other) && names[other].name == tool@;
        assert(is_bound(names, other, tool@));
    }
}

} // verus!
