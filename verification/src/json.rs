use crate::text::same_text;
use crate::value::copy_number;
use serde_json::Number;
use vstd::prelude::*;

verus! {

/// A JSON document.
///
/// An object is the list of its entries. Where a key occurs more than once,
/// the last entry with that key is the one that counts.
#[derive(Debug)]
pub enum Json {
    Null,
    Bool(bool),
    Number(Number),
    String(String),
    Array(Vec<Json>),
    Object(Vec<(String, Json)>),
}

/// What a JSON document says: strings are sequences of characters and objects
/// are maps, so neither the order of the entries nor a shadowed entry shows.
#[verifier::ext_equal]
pub enum JsonView {
    Null,
    Bool(bool),
    Number(Number),
    String(Seq<char>),
    Array(Seq<JsonView>),
    Object(Map<Seq<char>, JsonView>),
}

/// The documents of a list.
pub open spec fn array_view(items: Seq<Json>) -> Seq<JsonView>
    decreases items,
{
    if items.len() == 0 {
        Seq::empty()
    } else {
        array_view(items.drop_last()).push(items.last().model())
    }
}

/// The map that a list of entries stands for.
pub open spec fn object_view(entries: Seq<(String, Json)>) -> Map<Seq<char>, JsonView>
    decreases entries,
{
    if entries.len() == 0 {
        Map::empty()
    } else {
        object_view(entries.drop_last()).insert(entries.last().0@, entries.last().1.model())
    }
}

pub broadcast proof fn lemma_array_view(items: Seq<Json>)
    ensures
        (#[trigger] array_view(items)).len() == items.len(),
        forall|i: int|
            #![trigger items[i]]
            #![trigger array_view(items)[i]]
            0 <= i < items.len() ==> array_view(items)[i] == items[i].model(),
    decreases items.len(),
{
    if items.len() > 0 {
        lemma_array_view(items.drop_last());
        assert forall|i: int| 0 <= i < items.len() implies (#[trigger] array_view(items)[i])
            == items[i].model() by {
            if i < items.len() - 1 {
                assert(items.drop_last()[i] == items[i]);
            }
        }
    }
}

/// An item of an array is a smaller document than the array.
pub proof fn lemma_item_decreases(items: Seq<JsonView>, at: int)
    requires
        0 <= at < items.len(),
    ensures
        decreases_to!(JsonView::Array(items) => items[at]),
{
    let document = JsonView::Array(items);
    assert(decreases_to!(document => document->Array_0));
    assert(decreases_to!(items => items[at]));
}

/// A value of an object is a smaller document than the object.
pub proof fn lemma_value_decreases(map: Map<Seq<char>, JsonView>, key: Seq<char>)
    requires
        map.contains_key(key),
    ensures
        decreases_to!(JsonView::Object(map) => map[key]),
{
    let document = JsonView::Object(map);
    assert(decreases_to!(document => document->Object_0));
    vstd::map::axiom_map_index_decreases_infinite(map, key);
}

/// The items of an array, and the values of an object, are smaller documents.
pub proof fn lemma_json_decreases(json: Json)
    ensures
        json matches Json::Array(items) ==> forall|i: int|
            0 <= i < items@.len() ==> decreases_to!(json => #[trigger] items@[i]),
        json matches Json::Object(entries) ==> forall|i: int|
            #![trigger entries@[i]]
            0 <= i < entries@.len() ==> decreases_to!(json => entries@[i].1),
{
    match json {
        Json::Array(items) => {
            assert(decreases_to!(json => json->Array_0));
            assert(decreases_to!(items => items@));
            assert forall|i: int| 0 <= i < items@.len() implies decreases_to!(
                json => #[trigger] items@[i]) by {
                assert(decreases_to!(items@ => items@[i]));
            }
        },
        Json::Object(entries) => {
            assert(decreases_to!(json => json->Object_0));
            assert(decreases_to!(entries => entries@));
            assert forall|i: int| #![trigger entries@[i]] 0 <= i < entries@.len() implies
                decreases_to!(json => entries@[i].1) by {
                assert(decreases_to!(entries@ => entries@[i]));
                assert(decreases_to!(entries@[i] => entries@[i].1));
            }
        },
        _ => {},
    }
}

/// An entry whose key no later entry repeats decides what the key maps to.
proof fn lemma_object_view_last(entries: Seq<(String, Json)>, at: int)
    requires
        0 <= at < entries.len(),
        forall|j: int| at < j < entries.len() ==> (#[trigger] entries[j]).0@ != entries[at].0@,
    ensures
        object_view(entries).contains_key(entries[at].0@),
        object_view(entries)[entries[at].0@] == entries[at].1.model(),
    decreases entries.len(),
{
    if at < entries.len() - 1 {
        let front = entries.drop_last();
        assert forall|j: int| at < j < front.len() implies (#[trigger] front[j]).0@
            != front[at].0@ by {
            assert(front[j] == entries[j]);
        }
        assert(front[at] == entries[at]);
        assert(entries[entries.len() - 1].0@ != entries[at].0@);
        lemma_object_view_last(front, at);
    }
}

/// A key that no entry has is not in the map.
proof fn lemma_object_view_absent(entries: Seq<(String, Json)>, key: Seq<char>)
    requires
        forall|j: int| 0 <= j < entries.len() ==> (#[trigger] entries[j]).0@ != key,
    ensures
        !object_view(entries).contains_key(key),
    decreases entries.len(),
{
    if entries.len() > 0 {
        let front = entries.drop_last();
        assert forall|j: int| 0 <= j < front.len() implies (#[trigger] front[j]).0@ != key by {
            assert(front[j] == entries[j]);
        }
        lemma_object_view_absent(front, key);
        assert(entries[entries.len() - 1].0@ != key);
    }
}

/// Replacing the entry that decides a key is an insertion into the map.
proof fn lemma_object_view_replace(
    entries: Seq<(String, Json)>,
    at: int,
    key: String,
    value: Json,
)
    requires
        0 <= at < entries.len(),
        entries[at].0@ == key@,
        forall|j: int| at < j < entries.len() ==> (#[trigger] entries[j]).0@ != key@,
    ensures
        object_view(entries.update(at, (key, value))) == object_view(entries).insert(
            key@,
            value.model(),
        ),
    decreases entries.len(),
{
    let changed = entries.update(at, (key, value));
    if at == entries.len() - 1 {
        assert(changed.drop_last() =~= entries.drop_last());
        assert(object_view(changed) =~= object_view(entries).insert(key@, value.model()));
    } else {
        let front = entries.drop_last();
        assert forall|j: int| at < j < front.len() implies (#[trigger] front[j]).0@ != key@ by {
            assert(front[j] == entries[j]);
        }
        lemma_object_view_replace(front, at, key, value);
        assert(changed.drop_last() =~= front.update(at, (key, value)));
        assert(changed.last() == entries.last());
        assert(entries[entries.len() - 1].0@ != key@);
        assert(object_view(changed) =~= object_view(entries).insert(key@, value.model()));
    }
}

impl JsonView {
    /// The object without entries.
    pub open spec fn object() -> JsonView {
        JsonView::Object(Map::empty())
    }

    /// The object with `key` set to `value`; what is no object stays as it is.
    pub open spec fn with(self, key: Seq<char>, value: JsonView) -> JsonView {
        match self {
            JsonView::Object(map) => JsonView::Object(map.insert(key, value)),
            _ => self,
        }
    }

    /// What an object holds under `key`.
    pub open spec fn field(self, key: Seq<char>) -> Option<JsonView> {
        match self {
            JsonView::Object(map) => if map.contains_key(key) {
                Some(map[key])
            } else {
                None
            },
            _ => None,
        }
    }

    /// The text of a string.
    pub open spec fn text(self) -> Option<Seq<char>> {
        match self {
            JsonView::String(text) => Some(text),
            _ => None,
        }
    }

    /// The text that an object holds under `key`, where that is a string.
    pub open spec fn text_field(self, key: Seq<char>) -> Option<Seq<char>> {
        match self.field(key) {
            Some(value) => value.text(),
            None => None,
        }
    }

    /// The items of an array.
    pub open spec fn items(self) -> Option<Seq<JsonView>> {
        match self {
            JsonView::Array(items) => Some(items),
            _ => None,
        }
    }
}

impl View for Json {
    type V = JsonView;

    open spec fn view(&self) -> JsonView {
        self.model()
    }
}

/// The document of an optional value.
pub open spec fn json_view(json: Option<Json>) -> Option<JsonView> {
    match json {
        Some(json) => Some(json@),
        None => None,
    }
}

impl Json {
    /// What the document says.
    pub open spec fn model(self) -> JsonView
        decreases self,
    {
        match self {
            Json::Null => JsonView::Null,
            Json::Bool(value) => JsonView::Bool(value),
            Json::Number(number) => JsonView::Number(number),
            Json::String(text) => JsonView::String(text@),
            Json::Array(items) => JsonView::Array(array_view(items@)),
            Json::Object(entries) => JsonView::Object(object_view(entries@)),
        }
    }

    /// A string.
    pub fn string(text: &str) -> (json: Json)
        ensures
            json@ == JsonView::String(text@),
    {
        Json::String(text.to_string())
    }

    /// The object without entries.
    pub fn object() -> (json: Json)
        ensures
            json@ == JsonView::object(),
    {
        Json::Object(Vec::new())
    }

    /// The array with one item.
    pub fn single(item: Json) -> (json: Json)
        ensures
            json@ == JsonView::Array(seq![item@]),
    {
        let mut items: Vec<Json> = Vec::new();
        items.push(item);
        proof {
            lemma_array_view(items@);
            assert(array_view(items@) =~= seq![item@]);
        }
        Json::Array(items)
    }

    /// The place of the last entry with `key`.
    fn position(entries: &Vec<(String, Json)>, key: &str) -> (at: Option<usize>)
        ensures
            match at {
                Some(at) => {
                    &&& 0 <= at < entries@.len()
                    &&& entries@[at as int].0@ == key@
                    &&& forall|j: int| at < j < entries@.len() ==> (#[trigger] entries@[j]).0@ != key@
                },
                None => forall|j: int| 0 <= j < entries@.len() ==> (#[trigger] entries@[j]).0@ != key@,
            },
    {
        let mut left: usize = entries.len();
        while left > 0
            invariant
                left <= entries@.len(),
                forall|j: int| left <= j < entries@.len() ==> (#[trigger] entries@[j]).0@ != key@,
            decreases left,
        {
            left = left - 1;
            if same_text(entries[left].0.as_str(), key) {
                return Some(left);
            }
        }
        None
    }

    /// Sets `key` of an object to `value`; what is no object stays as it is.
    pub fn insert(&mut self, key: &str, value: Json)
        ensures
            final(self)@ == old(self)@.with(key@, value@),
    {
        match self {
            Json::Object(entries) => {
                let ghost before = entries@;
                let key = key.to_string();
                match Self::position(entries, key.as_str()) {
                    Some(at) => {
                        proof {
                            lemma_object_view_replace(before, at as int, key, value);
                        }
                        entries.set(at, (key, value));
                    },
                    None => {
                        entries.push((key, value));
                        assert(entries@.drop_last() =~= before);
                    },
                }
            },
            _ => {},
        }
    }

    /// The object with `key` set to `value`; what is no object stays as it is.
    pub fn with(self, key: &str, value: Json) -> (json: Json)
        ensures
            json@ == self@.with(key@, value@),
    {
        let mut json = self;
        json.insert(key, value);
        json
    }

    /// What an object holds under `key`.
    pub fn get(&self, key: &str) -> (value: Option<&Json>)
        ensures
            match value {
                Some(value) => self@.field(key@) == Some(value@),
                None => self@.field(key@) is None,
            },
    {
        match self {
            Json::Object(entries) => match Self::position(entries, key) {
                Some(at) => {
                    proof {
                        lemma_object_view_last(entries@, at as int);
                    }
                    Some(&entries[at].1)
                },
                None => {
                    proof {
                        lemma_object_view_absent(entries@, key@);
                    }
                    None
                },
            },
            _ => None,
        }
    }

    /// The text of a string.
    pub fn as_str(&self) -> (text: Option<&str>)
        ensures
            match text {
                Some(text) => self@.text() == Some(text@),
                None => self@.text() is None,
            },
    {
        match self {
            Json::String(text) => Some(text.as_str()),
            _ => None,
        }
    }

    /// The text that an object holds under `key`, where that is a string.
    pub fn get_str(&self, key: &str) -> (text: Option<&str>)
        ensures
            match text {
                Some(text) => self@.text_field(key@) == Some(text@),
                None => self@.text_field(key@) is None,
            },
    {
        match self.get(key) {
            Some(value) => value.as_str(),
            None => None,
        }
    }

    /// The items of an array.
    pub fn as_array(&self) -> (items: Option<&Vec<Json>>)
        ensures
            match items {
                Some(items) => self@.items() == Some(array_view(items@)),
                None => self@.items() is None,
            },
    {
        match self {
            Json::Array(items) => Some(items),
            _ => None,
        }
    }

    /// The same document again.
    pub fn copy(&self) -> (json: Json)
        ensures
            json@ == self@,
        decreases *self,
    {
        match self {
            Json::Null => Json::Null,
            Json::Bool(value) => Json::Bool(*value),
            Json::Number(number) => Json::Number(copy_number(number)),
            Json::String(text) => Json::String(text.clone()),
            Json::Array(items) => {
                let mut copies: Vec<Json> = Vec::new();
                let mut at: usize = 0;
                #[verifier::loop_isolation(false)]
                while at < items.len()
                    invariant
                        at <= items@.len(),
                        copies@.len() == at,
                        forall|i: int| 0 <= i < at ==> (#[trigger] copies@[i])@ == items@[i]@,
                    decreases items@.len() - at,
                {
                    proof {
                        lemma_json_decreases(*self);
                    }
                    copies.push(items[at].copy());
                    at = at + 1;
                }
                proof {
                    lemma_array_view(items@);
                    lemma_array_view(copies@);
                    assert(array_view(copies@) =~= array_view(items@));
                }
                Json::Array(copies)
            },
            Json::Object(entries) => {
                let mut copies: Vec<(String, Json)> = Vec::new();
                let mut at: usize = 0;
                #[verifier::loop_isolation(false)]
                while at < entries.len()
                    invariant
                        at <= entries@.len(),
                        object_view(copies@) == object_view(entries@.take(at as int)),
                    decreases entries@.len() - at,
                {
                    proof {
                        lemma_json_decreases(*self);
                    }
                    let ghost before = copies@;
                    let value = entries[at].1.copy();
                    copies.push((entries[at].0.clone(), value));
                    assert(copies@.drop_last() =~= before);
                    assert(entries@.take(at + 1).drop_last() =~= entries@.take(at as int));
                    at = at + 1;
                }
                assert(entries@.take(at as int) =~= entries@);
                Json::Object(copies)
            },
        }
    }
}

} // verus!
