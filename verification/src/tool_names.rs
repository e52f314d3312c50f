//! Tool names on both sides: a tool has an optional namespace and a name of its
//! own, while the Messages API knows it under one flat name.

use crate::error::ApiError;
use crate::text::{copy_text, same_text, text_view};
use vstd::prelude::*;

verus! {

/// The name of a tool.
#[derive(Debug, PartialEq, Eq)]
pub struct ToolName {
    pub name: String,
    pub namespace: Option<String>,
}

pub struct ToolNameView {
    pub name: Seq<char>,
    pub namespace: Option<Seq<char>>,
}

impl View for ToolName {
    type V = ToolNameView;

    open spec fn view(&self) -> ToolNameView {
        ToolNameView { name: self.name@, namespace: text_view(self.namespace) }
    }
}

impl Clone for ToolName {
    fn clone(&self) -> (copy: Self)
        ensures
            copy@ == self@,
    {
        ToolName { name: self.name.clone(), namespace: copy_text(&self.namespace) }
    }
}

impl ToolNameView {
    /// The name of a tool without a namespace.
    pub open spec fn plain(name: Seq<char>) -> ToolNameView {
        ToolNameView { name, namespace: None }
    }

    /// The name of a tool in a namespace.
    pub open spec fn namespaced(namespace: Seq<char>, name: Seq<char>) -> ToolNameView {
        ToolNameView { name, namespace: Some(namespace) }
    }

    /// How the name is shown: the namespace, then the name.
    pub open spec fn shown(self) -> Seq<char> {
        match self.namespace {
            Some(namespace) => namespace + self.name,
            None => self.name,
        }
    }
}

impl ToolName {
    pub fn new(namespace: Option<String>, name: String) -> (tool: ToolName)
        ensures
            tool@ == (ToolNameView { name: name@, namespace: text_view(namespace) }),
    {
        ToolName { name, namespace }
    }

    /// The name of a tool without a namespace.
    pub fn plain(name: &str) -> (tool: ToolName)
        ensures
            tool@ == ToolNameView::plain(name@),
    {
        ToolName { name: name.to_string(), namespace: None }
    }

    /// The name of a tool in a namespace.
    pub fn namespaced(namespace: &str, name: &str) -> (tool: ToolName)
        ensures
            tool@ == ToolNameView::namespaced(namespace@, name@),
    {
        ToolName { name: name.to_string(), namespace: Some(namespace.to_string()) }
    }

    /// How the name is shown: the namespace, then the name.
    pub fn shown(&self) -> (text: String)
        ensures
            text@ == self@.shown(),
    {
        match &self.namespace {
            Some(namespace) => {
                let mut text = namespace.clone();
                text.append(self.name.as_str());
                text
            },
            None => self.name.clone(),
        }
    }

    /// Whether two tools have the same name and namespace.
    pub fn same(&self, other: &ToolName) -> (same: bool)
        ensures
            same == (self@ == other@),
    {
        if !same_text(self.name.as_str(), other.name.as_str()) {
            return false;
        }
        match (&self.namespace, &other.namespace) {
            (Some(left), Some(right)) => same_text(left.as_str(), right.as_str()),
            (None, None) => true,
            (_, _) => false,
        }
    }
}

/// How the input of a tool travels.
#[derive(Debug, Clone, Copy, PartialEq, Eq, Structural)]
pub enum AnthropicToolKind {
    /// The input is a JSON document.
    Function,
    /// The input is free text, which travels as the field `input` of an object.
    Custom,
}

impl Default for AnthropicToolKind {
    fn default() -> (kind: Self)
        ensures
            kind == AnthropicToolKind::Function,
    {
        AnthropicToolKind::Function
    }
}

/// One tool: the flat name, and what it stands for.
#[derive(Debug)]
struct Binding {
    anthropic_name: String,
    tool_name: ToolName,
    kind: AnthropicToolKind,
}

/// What a flat name stands for.
#[verifier::ext_equal]
pub struct BoundTool {
    pub name: ToolNameView,
    pub kind: AnthropicToolKind,
}

/// The tools of a request, found by their flat name or by their own.
#[derive(Debug)]
pub struct AnthropicToolNameMap {
    bindings: Vec<Binding>,
}

impl AnthropicToolNameMap {
    /// No two tools share a flat name, and none is bound under two.
    pub closed spec fn well_formed(&self) -> bool {
        &&& forall|i: int, j: int|
            0 <= i < j < self.bindings@.len() ==> (#[trigger] self.bindings@[i]).anthropic_name@ != (
            #[trigger] self.bindings@[j]).anthropic_name@
        &&& forall|i: int, j: int|
            0 <= i < j < self.bindings@.len() ==> (#[trigger] self.bindings@[i]).tool_name@ != (
            #[trigger] self.bindings@[j]).tool_name@
    }

    /// The flat names in the order in which they were bound, each with its tool.
    spec fn listing(&self) -> Seq<(Seq<char>, BoundTool)> {
        Seq::new(
            self.bindings@.len(),
            |at: int| (self.bindings@[at].anthropic_name@, self.bound_at(at)),
        )
    }

    #[verifier::inline]
    spec fn binds(&self, name: Seq<char>, at: int) -> bool {
        lists(self.listing(), name, at)
    }

    spec fn bound_at(&self, at: int) -> BoundTool {
        BoundTool { name: self.bindings@[at].tool_name@, kind: self.bindings@[at].kind }
    }
}

/// Whether a list has the flat name `name` at a place.
spec fn lists(listing: Seq<(Seq<char>, BoundTool)>, name: Seq<char>, at: int) -> bool {
    0 <= at < listing.len() && listing[at].0 == name
}

/// What each flat name of a list stands for.
spec fn names_of(listing: Seq<(Seq<char>, BoundTool)>) -> Map<Seq<char>, BoundTool> {
    Map::new(
        |name: Seq<char>| exists|at: int| lists(listing, name, at),
        |name: Seq<char>| listing[choose|at: int| lists(listing, name, at)].1,
    )
}

/// The map without tools.
impl Default for AnthropicToolNameMap {
    fn default() -> (map: Self)
        ensures
            map.well_formed(),
            map@ == Map::<Seq<char>, BoundTool>::empty(),
    {
        let map = AnthropicToolNameMap { bindings: Vec::new() };
        assert(map@ =~= Map::<Seq<char>, BoundTool>::empty());
        map
    }
}

/// What each flat name stands for.
impl View for AnthropicToolNameMap {
    type V = Map<Seq<char>, BoundTool>;

    closed spec fn view(&self) -> Map<Seq<char>, BoundTool> {
        names_of(self.listing())
    }
}

impl Clone for AnthropicToolNameMap {
    fn clone(&self) -> (copy: Self)
        ensures
            copy@ == self@,
            copy.well_formed() == self.well_formed(),
    {
        let mut bindings: Vec<Binding> = Vec::new();
        let mut at: usize = 0;
        while at < self.bindings.len()
            invariant
                at <= self.bindings@.len(),
                bindings@.len() == at,
                forall|i: int|
                    #![trigger bindings@[i]]
                    #![trigger self.bindings@[i]]
                    0 <= i < at ==> {
                        &&& bindings@[i].anthropic_name@ == self.bindings@[i].anthropic_name@
                        &&& bindings@[i].tool_name@ == self.bindings@[i].tool_name@
                        &&& bindings@[i].kind == self.bindings@[i].kind
                    },
            decreases self.bindings@.len() - at,
        {
            let binding = &self.bindings[at];
            bindings.push(
                Binding {
                    anthropic_name: binding.anthropic_name.clone(),
                    tool_name: binding.tool_name.clone(),
                    kind: binding.kind,
                },
            );
            at = at + 1;
        }
        let copy = AnthropicToolNameMap { bindings };
        assert(copy.listing() =~= self.listing());
        copy
    }
}

/// Whether `names` holds `tool` under the flat name `name`.
pub open spec fn is_bound(
    names: Map<Seq<char>, BoundTool>,
    name: Seq<char>,
    tool: ToolNameView,
) -> bool {
    names.contains_key(name) && names[name].name == tool
}

/// Why `tool` cannot be bound under the flat name `name`, where it cannot.
pub open spec fn conflict(
    names: Map<Seq<char>, BoundTool>,
    name: Seq<char>,
    tool: ToolNameView,
) -> Option<Seq<char>> {
    if names.contains_key(name) && names[name].name != tool {
        Some("Anthropic tool name collision for "@ + name)
    } else if exists|other: Seq<char>| other != name && #[trigger] is_bound(names, other, tool) {
        Some("multiple Anthropic tool names map to "@ + tool.shown())
    } else {
        None
    }
}

/// The tool that a flat name stands for; one that is not bound is the name of a
/// tool without a namespace.
pub open spec fn tool_named(names: Map<Seq<char>, BoundTool>, name: Seq<char>) -> ToolNameView {
    if names.contains_key(name) {
        names[name].name
    } else {
        ToolNameView::plain(name)
    }
}

/// How the input of the tool with a flat name travels.
pub open spec fn kind_named(names: Map<Seq<char>, BoundTool>, name: Seq<char>) -> AnthropicToolKind {
    if names.contains_key(name) {
        names[name].kind
    } else {
        AnthropicToolKind::Function
    }
}

/// The flat name of a tool, where it has one.
pub open spec fn flat_name(names: Map<Seq<char>, BoundTool>, tool: ToolNameView) -> Option<Seq<char>> {
    if exists|name: Seq<char>| #[trigger] is_bound(names, name, tool) {
        Some(choose|name: Seq<char>| #[trigger] is_bound(names, name, tool))
    } else {
        None
    }
}

/// No tool is bound under two flat names.
pub open spec fn one_name_each(names: Map<Seq<char>, BoundTool>) -> bool {
    forall|left: Seq<char>, right: Seq<char>, tool: ToolNameView|
        #![trigger is_bound(names, left, tool), is_bound(names, right, tool)]
        is_bound(names, left, tool) && is_bound(names, right, tool) ==> left == right
}

impl AnthropicToolNameMap {
    /// What stands at a place is what the map holds.
    proof fn lemma_at(&self, at: int)
        requires
            self.well_formed(),
            0 <= at < self.bindings@.len(),
        ensures
            self@.contains_key(self.bindings@[at].anthropic_name@),
            self@[self.bindings@[at].anthropic_name@] == self.bound_at(at),
    {
        let name = self.bindings@[at].anthropic_name@;
        assert(self.binds(name, at));
        let chosen = choose|i: int| self.binds(name, i);
        assert(self.binds(name, chosen));
        assert(chosen == at);
    }

    /// No tool of a well-formed map is bound under two flat names.
    pub proof fn lemma_one_name_each(&self)
        requires
            self.well_formed(),
        ensures
            one_name_each(self@),
    {
        assert forall|left: Seq<char>, right: Seq<char>, tool: ToolNameView|
            #![trigger is_bound(self@, left, tool), is_bound(self@, right, tool)]
            is_bound(self@, left, tool) && is_bound(self@, right, tool) implies left == right by {
            let i = choose|i: int| self.binds(left, i);
            let j = choose|j: int| self.binds(right, j);
            assert(self.binds(left, i) && self.binds(right, j));
            self.lemma_at(i);
            self.lemma_at(j);
            assert(i == j);
        }
    }

    /// The place of the tool with a flat name.
    fn find(&self, anthropic_name: &str) -> (at: Option<usize>)
        ensures
            match at {
                Some(at) => self.binds(anthropic_name@, at as int),
                None => !self@.contains_key(anthropic_name@),
            },
    {
        let mut at: usize = 0;
        while at < self.bindings.len()
            invariant
                at <= self.bindings@.len(),
                forall|i: int| 0 <= i < at ==> !#[trigger] self.binds(anthropic_name@, i),
            decreases self.bindings@.len() - at,
        {
            if same_text(self.bindings[at].anthropic_name.as_str(), anthropic_name) {
                return Some(at);
            }
            at = at + 1;
        }
        None
    }

    /// The place of a tool.
    fn find_tool(&self, tool_name: &ToolName) -> (at: Option<usize>)
        requires
            self.well_formed(),
        ensures
            match at {
                Some(at) => 0 <= at < self.bindings@.len() && self.bindings@[at as int].tool_name@
                    == tool_name@,
                None => forall|name: Seq<char>| !#[trigger] is_bound(self@, name, tool_name@),
            },
    {
        let mut at: usize = 0;
        while at < self.bindings.len()
            invariant
                self.well_formed(),
                at <= self.bindings@.len(),
                forall|i: int| 0 <= i < at ==> (#[trigger] self.bindings@[i]).tool_name@ != tool_name@,
            decreases self.bindings@.len() - at,
        {
            if self.bindings[at].tool_name.same(tool_name) {
                return Some(at);
            }
            at = at + 1;
        }
        proof {
            assert forall|name: Seq<char>| !#[trigger] is_bound(self@, name, tool_name@) by {
                if is_bound(self@, name, tool_name@) {
                    let i = choose|i: int| self.binds(name, i);
                    assert(self.binds(name, i));
                    self.lemma_at(i);
                }
            }
        }
        None
    }

    /// Binds a tool under a flat name. A name that stands for another tool, or a
    /// tool that has another name, is refused, and then nothing changes.
    pub fn insert(
        &mut self,
        anthropic_name: String,
        tool_name: ToolName,
        tool_kind: AnthropicToolKind,
    ) -> (result: Result<(), ApiError>)
        requires
            old(self).well_formed(),
        ensures
            final(self).well_formed(),
            match result {
                Ok(()) => {
                    &&& conflict(old(self)@, anthropic_name@, tool_name@) is None
                    &&& final(self)@ == old(self)@.insert(
                        anthropic_name@,
                        BoundTool { name: tool_name@, kind: tool_kind },
                    )
                },
                Err(error) => {
                    &&& conflict(old(self)@, anthropic_name@, tool_name@) == Some(error@)
                    &&& final(self)@ == old(self)@
                },
            },
    {
        let ghost before = *self;
        let ghost name = anthropic_name@;
        let ghost tool = BoundTool { name: tool_name@, kind: tool_kind };
        let found = self.find(anthropic_name.as_str());
        if let Some(at) = found {
            proof {
                self.lemma_at(at as int);
            }
            if !self.bindings[at].tool_name.same(&tool_name) {
                return Err(
                    ApiError::stream("Anthropic tool name collision for ", anthropic_name.as_str()),
                );
            }
        }
        let found_tool = self.find_tool(&tool_name);
        if let Some(at) = found_tool {
            proof {
                self.lemma_at(at as int);
            }
            if !same_text(self.bindings[at].anthropic_name.as_str(), anthropic_name.as_str()) {
                assert(is_bound(self@, self.bindings@[at as int].anthropic_name@, tool_name@));
                return Err(
                    ApiError::stream(
                        "multiple Anthropic tool names map to ",
                        tool_name.shown().as_str(),
                    ),
                );
            }
        }
        proof {
            self.lemma_one_name_each();
        }
        let binding = Binding { anthropic_name, tool_name, kind: tool_kind };
        let ghost place: int;
        match found {
            Some(at) => {
                proof {
                    place = at as int;
                }
                self.bindings.set(at, binding);
                assert(self.bindings@ == before.bindings@.update(at as int, binding));
            },
            None => {
                proof {
                    place = self.bindings@.len() as int;
                }
                self.bindings.push(binding);
            },
        }
        proof {
            assert(forall|i: int|
                0 <= i < before.bindings@.len() && i != place ==> #[trigger] self.bindings@[i]
                    == before.bindings@[i]);
            if found is None {
                assert forall|i: int| 0 <= i < before.bindings@.len() implies (
                #[trigger] before.bindings@[i]).anthropic_name@ != name
                    && before.bindings@[i].tool_name@ != tool.name by {
                    before.lemma_at(i);
                    assert(before.binds(before.bindings@[i].anthropic_name@, i));
                    if before.bindings@[i].tool_name@ == tool.name {
                        assert(is_bound(before@, before.bindings@[i].anthropic_name@, tool.name));
                    }
                }
            }
            assert(self.well_formed());
            let after = before@.insert(name, tool);
            assert forall|other: Seq<char>|
                #![trigger self@.dom().contains(other)]
                #![trigger self@[other]]
                self@.dom().contains(other) == after.dom().contains(other) && (self@.dom().contains(
                    other,
                ) ==> self@[other] == after[other]) by {
                self.lemma_at(place);
                if self@.contains_key(other) {
                    let i = choose|i: int| self.binds(other, i);
                    assert(self.binds(other, i));
                    self.lemma_at(i);
                    if i != place {
                        before.lemma_at(i);
                    }
                }
                if before@.contains_key(other) && other != name {
                    let i = choose|i: int| before.binds(other, i);
                    assert(before.binds(other, i));
                    before.lemma_at(i);
                    assert(i != place);
                    self.lemma_at(i);
                }
            }
            assert(self@ =~= after);
        }
        Ok(())
    }

    /// The tool that a flat name stands for; one that is not bound is the name of
    /// a tool without a namespace.
    pub fn tool_name(&self, anthropic_name: &str) -> (tool: ToolName)
        requires
            self.well_formed(),
        ensures
            tool@ == tool_named(self@, anthropic_name@),
    {
        match self.find(anthropic_name) {
            Some(at) => {
                proof {
                    self.lemma_at(at as int);
                }
                self.bindings[at].tool_name.clone()
            },
            None => ToolName::plain(anthropic_name),
        }
    }

    /// The flat name of a tool, where it has one.
    pub fn anthropic_name(&self, tool_name: &ToolName) -> (name: Option<&str>)
        requires
            self.well_formed(),
        ensures
            match name {
                Some(name) => flat_name(self@, tool_name@) == Some(name@),
                None => flat_name(self@, tool_name@) is None,
            },
    {
        match self.find_tool(tool_name) {
            Some(at) => {
                proof {
                    self.lemma_at(at as int);
                    self.lemma_one_name_each();
                    assert(is_bound(self@, self.bindings@[at as int].anthropic_name@, tool_name@));
                }
                Some(self.bindings[at].anthropic_name.as_str())
            },
            None => None,
        }
    }

    /// How the input of the tool with a flat name travels.
    pub fn tool_kind(&self, anthropic_name: &str) -> (kind: AnthropicToolKind)
        requires
            self.well_formed(),
        ensures
            kind == kind_named(self@, anthropic_name@),
    {
        match self.find(anthropic_name) {
            Some(at) => {
                proof {
                    self.lemma_at(at as int);
                }
                self.bindings[at].kind
            },
            None => AnthropicToolKind::default(),
        }
    }
}

} // verus!
