//! JSON values: the tree that the rest of the library reads and builds.

use vstd::prelude::*;

use crate::text;
use crate::text::same_text;

verus! {

/// The mathematical value of a JSON document. An object is a map from its
/// keys to its members.
pub enum JsonView {
    Null,
    Bool(bool),
    Number(serde_json::Number),
    Str(Seq<char>),
    Array(Seq<JsonView>),
    Object(Map<Seq<char>, JsonView>),
}

/// A JSON document. Numbers are carried through untouched. In an object, a
/// later entry replaces an earlier one with the same key.
pub enum Json {
    Null,
    Bool(bool),
    Number(serde_json::Number),
    Str(String),
    Array(Vec<Json>),
    Object(Vec<(String, Json)>),
}

/// The document that a `Json` stands for.
pub open spec fn json_view(json: Json) -> JsonView
    decreases json,
{
    match json {
        Json::Null => JsonView::Null,
        Json::Bool(b) => JsonView::Bool(b),
        Json::Number(n) => JsonView::Number(n),
        Json::Str(s) => JsonView::Str(s@),
        Json::Array(items) => JsonView::Array(
            Seq::new(
                items@.len(),
                |i: int|
                    if 0 <= i < items@.len() {
                        json_view(items@[i])
                    } else {
                        JsonView::Null
                    },
            ),
        ),
        Json::Object(entries) => JsonView::Object(entries_view(entries@)),
    }
}

/// The members of an object: of two entries with one key the later counts.
pub open spec fn entries_view(entries: Seq<(String, Json)>) -> Map<Seq<char>, JsonView>
    decreases entries,
{
    if entries.len() == 0 {
        Map::empty()
    } else {
        entries_view(entries.drop_last()).insert(entries.last().0@, json_view(entries.last().1))
    }
}

impl View for Json {
    type V = JsonView;

    open spec fn view(&self) -> JsonView {
        json_view(*self)
    }
}

/// A JSON number of `serde_json`, opaque: nothing here looks inside one.
#[verifier::external_type_specification]
#[verifier::external_body]
pub struct ExNumber(serde_json::Number);

/// What `serde_json::Number::as_i128` gives: the integer that a number is held
/// as, and nothing of one that is held as a fraction.
pub uninterp spec fn integer_of(number: serde_json::Number) -> Option<i128>;

/// `serde_json::Number::as_i128`: what it gives depends on the number alone.
pub assume_specification[ serde_json::Number::as_i128 ](number: &serde_json::Number) -> (integer:
    Option<i128>)
    ensures
        integer == integer_of(*number),
;

/// A clone of a `serde_json::Number` is the same number.
pub assume_specification[ <serde_json::Number as Clone>::clone ](
    number: &serde_json::Number,
) -> (copy: serde_json::Number)
    ensures
        copy == *number,
;

pub proof fn lemma_item_is_smaller(json: Json, i: int)
    requires
        json is Array,
        0 <= i < json->Array_0@.len(),
    ensures
        decreases_to!(json => json->Array_0@[i]),
{
    let items = json->Array_0;
    assert(decreases_to!(json => json->Array_0));
    assert(decreases_to!(items => items@));
    assert(decreases_to!(items@ => items@[i]));
}

pub proof fn lemma_member_is_smaller(json: Json, i: int)
    requires
        json is Object,
        0 <= i < json->Object_0@.len(),
    ensures
        decreases_to!(json => json->Object_0@[i].1),
{
    let entries = json->Object_0;
    assert(decreases_to!(json => json->Object_0));
    assert(decreases_to!(entries => entries@));
    assert(decreases_to!(entries@ => entries@[i]));
    assert(decreases_to!(entries@[i] => entries@[i].1));
}

/// The member of an object under `key`; `None` where there is none, and of a
/// value that is no object.
pub open spec fn member(value: JsonView, key: Seq<char>) -> Option<JsonView> {
    match value {
        JsonView::Object(members) => if members.contains_key(key) {
            Some(members[key])
        } else {
            None
        },
        _ => None,
    }
}

/// The text of a JSON string; `None` of any other value.
pub open spec fn text_of_value(value: JsonView) -> Option<Seq<char>> {
    match value {
        JsonView::Str(s) => Some(s),
        _ => None,
    }
}

/// The text of the string that an object has under `key`.
pub open spec fn text_member(value: JsonView, key: Seq<char>) -> Option<Seq<char>> {
    match member(value, key) {
        Some(found) => text_of_value(found),
        None => None,
    }
}

/// The truth value that an object has under `key`.
pub open spec fn bool_member(value: JsonView, key: Seq<char>) -> Option<bool> {
    match member(value, key) {
        Some(JsonView::Bool(b)) => Some(b),
        _ => None,
    }
}

/// Views of a list of documents.
pub open spec fn views(list: Seq<Json>) -> Seq<JsonView> {
    list.map_values(|json: Json| json@)
}

/// The view of an optional document.
pub open spec fn opt_view(json: Option<Json>) -> Option<JsonView> {
    match json {
        Some(json) => Some(json@),
        None => None,
    }
}

impl Json {
    /// An object without members.
    pub fn object() -> (json: Json)
        ensures
            json@ == JsonView::Object(Map::empty()),
    {
        let entries: Vec<(String, Json)> = Vec::new();
        assert(entries_view(entries@) =~= Map::empty());
        Json::Object(entries)
    }

    /// A JSON string.
    pub fn text(s: &str) -> (json: Json)
        ensures
            json@ == JsonView::Str(s@),
    {
        Json::Str(s.to_owned())
    }

    /// A JSON array.
    pub fn array(items: Vec<Json>) -> (json: Json)
        ensures
            json@ == JsonView::Array(views(items@)),
    {
        let json = Json::Array(items);
        assert(json@->Array_0 =~= views(items@));
        json
    }

    /// The object with one more member, which replaces the one that had the
    /// key.
    pub fn with(self, key: &str, value: Json) -> (json: Json)
        requires
            self@ is Object,
        ensures
            json@ == JsonView::Object(self@->Object_0.insert(key@, value@)),
    {
        match self {
            Json::Object(mut entries) => {
                let ghost before = entries@;
                entries.push((key.to_owned(), value));
                assert(entries@.drop_last() =~= before);
                assert(entries_view(entries@) == entries_view(before).insert(key@, value@));
                Json::Object(entries)
            },
            other => other,
        }
    }

    /// The member under `key`.
    pub fn get(&self, key: &str) -> (found: Option<&Json>)
        ensures
            match found {
                Some(value) => member(self@, key@) == Some(value@),
                None => member(self@, key@) is None,
            },
    {
        match self {
            Json::Object(entries) => {
                let mut i: usize = entries.len();
                assert(entries@.take(i as int) =~= entries@);
                while 0 < i
                    invariant
                        i <= entries@.len(),
                        *self == Json::Object(*entries),
                        member(self@, key@) == member(
                            JsonView::Object(entries_view(entries@.take(i as int))),
                            key@,
                        ),
                    decreases i,
                {
                    assert(entries@.take(i as int).drop_last() =~= entries@.take(i - 1));
                    if same_text(entries[i - 1].0.as_str(), key) {
                        return Some(&entries[i - 1].1);
                    }
                    i -= 1;
                }
                None
            },
            _ => None,
        }
    }

    /// The text of a JSON string.
    pub fn as_str(&self) -> (s: Option<&str>)
        ensures
            text::opt_text(s) == text_of_value(self@),
    {
        match self {
            Json::Str(s) => Some(s.as_str()),
            _ => None,
        }
    }

    /// The text of the string under `key`.
    pub fn get_str(&self, key: &str) -> (s: Option<&str>)
        ensures
            text::opt_text(s) == text_member(self@, key@),
    {
        match self.get(key) {
            Some(value) => value.as_str(),
            None => None,
        }
    }

    /// The truth value under `key`.
    pub fn get_bool(&self, key: &str) -> (b: Option<bool>)
        ensures
            b == bool_member(self@, key@),
    {
        match self.get(key) {
            Some(Json::Bool(b)) => Some(*b),
            _ => None,
        }
    }

    /// A copy of the document.
    pub fn copy(&self) -> (json: Json)
        ensures
            json@ == self@,
        decreases *self,
    {
        match self {
            Json::Null => Json::Null,
            Json::Bool(b) => Json::Bool(*b),
            Json::Number(n) => Json::Number(n.clone()),
            Json::Str(s) => Json::Str(s.clone()),
            Json::Array(items) => {
                let mut out: Vec<Json> = Vec::new();
                let mut i: usize = 0;
                while i < items.len()
                    invariant
                        i <= items@.len(),
                        out@.len() == i,
                        *self == Json::Array(*items),
                        forall|k: int| 0 <= k < i ==> (#[trigger] out@[k])@ == items@[k]@,
                    decreases items@.len() - i,
                {
                    proof {
                        lemma_item_is_smaller(*self, i as int);
                    }
                    out.push(items[i].copy());
                    i += 1;
                }
                let json = Json::Array(out);
                assert(json@->Array_0 =~= self@->Array_0);
                json
            },
            Json::Object(entries) => {
                let mut out: Vec<(String, Json)> = Vec::new();
                let mut i: usize = 0;
                while i < entries.len()
                    invariant
                        i <= entries@.len(),
                        *self == Json::Object(*entries),
                        entries_view(out@) == entries_view(entries@.take(i as int)),
                    decreases entries@.len() - i,
                {
                    assert(entries@.take(i + 1).drop_last() =~= entries@.take(i as int));
                    proof {
                        lemma_member_is_smaller(*self, i as int);
                    }
                    let member = entries[i].1.copy();
                    let ghost before = out@;
                    out.push((entries[i].0.clone(), member));
                    assert(out@.drop_last() =~= before);
                    i += 1;
                }
                assert(entries@.take(entries@.len() as int) =~= entries@);
                Json::Object(out)
            },
        }
    }
}

/// Copies of documents.
pub fn copy_all(list: &Vec<Json>) -> (copies: Vec<Json>)
    ensures
        views(copies@) == views(list@),
{
    let mut copies: Vec<Json> = Vec::new();
    let mut i: usize = 0;
    while i < list.len()
        invariant
            i <= list@.len(),
            copies@.len() == i,
            forall|k: int| 0 <= k < i ==> (#[trigger] copies@[k])@ == list@[k]@,
        decreases list@.len() - i,
    {
        copies.push(list[i].copy());
        i += 1;
    }
    assert(views(copies@) =~= views(list@));
    copies
}

} // verus!
