//! JSON text and `serde_json`: the library's documents as `serde_json` trees
//! and back, reading and writing.

use vstd::prelude::*;

use crate::json;
use crate::json::{Json, JsonView};

verus! {

/// A JSON tree of `serde_json`. `value_content` says what it holds.
#[verifier::external_type_specification]
#[verifier::external_body]
pub struct ExValue(serde_json::Value);

/// What a `serde_json::Value` holds.
pub uninterp spec fn value_content(value: serde_json::Value) -> JsonView;

/// One level of a `serde_json::Value`.
pub enum ValueShape<'a> {
    Null,
    Bool(bool),
    Number(serde_json::Number),
    Str(String),
    Array(Vec<&'a serde_json::Value>),
    Object(Vec<(String, &'a serde_json::Value)>),
}

/// The document of which `shape` is the outermost level.
pub open spec fn shape_view(shape: ValueShape<'_>) -> JsonView {
    match shape {
        ValueShape::Null => JsonView::Null,
        ValueShape::Bool(b) => JsonView::Bool(b),
        ValueShape::Number(n) => JsonView::Number(n),
        ValueShape::Str(s) => JsonView::Str(s@),
        ValueShape::Array(items) => JsonView::Array(
            items@.map_values(|item: &serde_json::Value| value_content(*item)),
        ),
        ValueShape::Object(members) => JsonView::Object(members_view(members@)),
    }
}

/// The map that a list of members with distinct keys stands for.
pub open spec fn members_view(members: Seq<(String, &serde_json::Value)>) -> Map<
    Seq<char>,
    JsonView,
>
    decreases members.len(),
{
    if members.len() == 0 {
        Map::empty()
    } else {
        members_view(members.drop_last()).insert(
            members.last().0@,
            value_content(*members.last().1),
        )
    }
}

/// Tells the variants of a `serde_json::Value` apart and hands out what the
/// variant holds: an array its items in order, an object its members, each
/// key once.
#[verifier::external_body]
fn value_shape<'a>(value: &'a serde_json::Value) -> (shape: ValueShape<'a>)
    ensures
        shape_view(shape) == value_content(*value),
        shape matches ValueShape::Object(members) ==> forall|i: int, j: int|
            0 <= i < j < members@.len() ==> (#[trigger] members@[i]).0@ != (
            #[trigger] members@[j]).0@,
{
    match value {
        serde_json::Value::Null => ValueShape::Null,
        serde_json::Value::Bool(b) => ValueShape::Bool(*b),
        serde_json::Value::Number(n) => ValueShape::Number(n.clone()),
        serde_json::Value::String(s) => ValueShape::Str(s.clone()),
        serde_json::Value::Array(items) => ValueShape::Array(items.iter().collect()),
        serde_json::Value::Object(members) => {
            ValueShape::Object(members.iter().map(|(k, v)| (k.clone(), v)).collect())
        },
    }
}

proof fn lemma_members_view(members: Seq<(String, &serde_json::Value)>)
    requires
        forall|i: int, j: int|
            0 <= i < j < members.len() ==> (#[trigger] members[i]).0@ != (#[trigger] members[j]).0@,
    ensures
        members_view(members).dom().finite(),
        forall|i: int|
            0 <= i < members.len() ==> #[trigger] members_view(members).contains_key(members[i].0@)
                && members_view(members)[members[i].0@] == value_content(*members[i].1),
    decreases members.len(),
{
    if members.len() > 0 {
        lemma_members_view(members.drop_last());
        let rest = members.drop_last();
        assert forall|i: int| 0 <= i < members.len() implies #[trigger] members_view(
            members,
        ).contains_key(members[i].0@) && members_view(members)[members[i].0@] == value_content(
            *members[i].1,
        ) by {
            if i < rest.len() {
                assert(rest[i] == members[i]);
                assert(members_view(rest).contains_key(rest[i].0@));
            }
        }
    }
}

/// The library's own copy of a `serde_json` tree.
pub fn json_from_value(value: &serde_json::Value) -> (json: Json)
    ensures
        json@ == value_content(*value),
    decreases value_content(*value),
{
    match value_shape(value) {
        ValueShape::Null => Json::Null,
        ValueShape::Bool(b) => Json::Bool(b),
        ValueShape::Number(n) => Json::Number(n),
        ValueShape::Str(s) => Json::Str(s),
        ValueShape::Array(items) => {
            let mut out: Vec<Json> = Vec::new();
            let mut i: usize = 0;
            while i < items.len()
                invariant
                    i <= items@.len(),
                    out@.len() == i,
                    value_content(*value) == shape_view(ValueShape::Array(items)),
                    forall|k: int|
                        0 <= k < i ==> (#[trigger] out@[k])@ == value_content(*items@[k]),
                decreases items@.len() - i,
            {
                proof {
                    let seq = value_content(*value)->Array_0;
                    assert(seq[i as int] == value_content(*items@[i as int]));
                    assert(decreases_to!(value_content(*value) => seq));
                    assert(decreases_to!(seq => seq[i as int]));
                }
                out.push(json_from_value(items[i]));
                i += 1;
            }
            let json = Json::Array(out);
            assert(json@->Array_0 =~= value_content(*value)->Array_0);
            json
        },
        ValueShape::Object(members) => {
            let mut out: Vec<(String, Json)> = Vec::new();
            let mut i: usize = 0;
            proof {
                lemma_members_view(members@);
            }
            while i < members.len()
                invariant
                    i <= members@.len(),
                    out@.len() == i,
                    value_content(*value) == shape_view(ValueShape::Object(members)),
                    members_view(members@).dom().finite(),
                    forall|k: int|
                        0 <= k < members@.len() ==> #[trigger] members_view(members@).contains_key(
                            members@[k].0@,
                        ) && members_view(members@)[members@[k].0@] == value_content(
                            *members@[k].1,
                        ),
                    json::entries_view(out@) == members_view(members@.take(i as int)),
                decreases members@.len() - i,
            {
                let key = members[i].0.clone();
                proof {
                    let map = value_content(*value)->Object_0;
                    assert(map.contains_key(members@[i as int].0@));
                    assert(decreases_to!(value_content(*value) => map));
                    assert(decreases_to!(map => map[members@[i as int].0@]));
                    assert(members@.take(i + 1).drop_last() =~= members@.take(i as int));
                }
                let member = json_from_value(members[i].1);
                let ghost before = out@;
                out.push((key, member));
                assert(out@.drop_last() =~= before);
                i += 1;
            }
            assert(members@.take(members@.len() as int) =~= members@);
            Json::Object(out)
        },
    }
}

/// An object of `serde_json`: a map from strings to values.
#[verifier::external_type_specification]
#[verifier::external_body]
#[verifier::reject_recursive_types(K)]
#[verifier::reject_recursive_types(V)]
pub struct ExMap<K, V>(serde_json::Map<K, V>);

/// The members that a `serde_json` object holds.
pub uninterp spec fn object_content(
    object: serde_json::Map<String, serde_json::Value>,
) -> Map<Seq<char>, JsonView>;

/// No members at all.
pub open spec fn no_members() -> Map<Seq<char>, JsonView> {
    Map::empty()
}

/// `serde_json::Map::new`: an object without members.
#[verifier::external_body]
fn object_new() -> (object: serde_json::Map<String, serde_json::Value>)
    ensures
        object_content(object) == no_members(),
{
    serde_json::Map::new()
}

/// `serde_json::Map::insert`: the member is added, or replaces the one that
/// had the key.
#[verifier::external_body]
fn object_insert(
    object: &mut serde_json::Map<String, serde_json::Value>,
    key: String,
    value: serde_json::Value,
)
    ensures
        object_content(*final(object)) == object_content(*old(object)).insert(
            key@,
            value_content(value),
        ),
{
    object.insert(key, value);
}

/// One level of a `serde_json::Value` about to be built.
pub enum ValueParts {
    Null,
    Bool(bool),
    Number(serde_json::Number),
    Str(String),
    Array(Vec<serde_json::Value>),
    Object(serde_json::Map<String, serde_json::Value>),
}

/// The document that is built from `parts`.
pub open spec fn parts_view(parts: ValueParts) -> JsonView {
    match parts {
        ValueParts::Null => JsonView::Null,
        ValueParts::Bool(b) => JsonView::Bool(b),
        ValueParts::Number(n) => JsonView::Number(n),
        ValueParts::Str(s) => JsonView::Str(s@),
        ValueParts::Array(items) => JsonView::Array(
            items@.map_values(|item: serde_json::Value| value_content(item)),
        ),
        ValueParts::Object(members) => JsonView::Object(object_content(members)),
    }
}

/// The variants of `serde_json::Value`, each made of what it holds.
#[verifier::external_body]
fn value_from_parts(parts: ValueParts) -> (value: serde_json::Value)
    ensures
        value_content(value) == parts_view(parts),
{
    match parts {
        ValueParts::Null => serde_json::Value::Null,
        ValueParts::Bool(b) => serde_json::Value::Bool(b),
        ValueParts::Number(n) => serde_json::Value::Number(n),
        ValueParts::Str(s) => serde_json::Value::String(s),
        ValueParts::Array(items) => serde_json::Value::Array(items),
        ValueParts::Object(members) => serde_json::Value::Object(members),
    }
}

/// The `serde_json` tree of the same document.
pub fn json_to_value(json: &Json) -> (value: serde_json::Value)
    ensures
        value_content(value) == json@,
    decreases *json,
{
    match json {
        Json::Null => value_from_parts(ValueParts::Null),
        Json::Bool(b) => value_from_parts(ValueParts::Bool(*b)),
        Json::Number(n) => value_from_parts(ValueParts::Number(n.clone())),
        Json::Str(s) => value_from_parts(ValueParts::Str(s.clone())),
        Json::Array(items) => {
            let mut out: Vec<serde_json::Value> = Vec::new();
            let mut i: usize = 0;
            while i < items.len()
                invariant
                    i <= items@.len(),
                    out@.len() == i,
                    *json == Json::Array(*items),
                    forall|k: int| 0 <= k < i ==> value_content(#[trigger] out@[k]) == items@[k]@,
                decreases items@.len() - i,
            {
                proof {
                    json::lemma_item_is_smaller(*json, i as int);
                }
                out.push(json_to_value(&items[i]));
                i += 1;
            }
            let value = value_from_parts(ValueParts::Array(out));
            assert(value_content(value)->Array_0 =~= json@->Array_0);
            value
        },
        Json::Object(entries) => {
            let mut out = object_new();
            let mut i: usize = 0;
            while i < entries.len()
                invariant
                    i <= entries@.len(),
                    *json == Json::Object(*entries),
                    object_content(out) == json::entries_view(entries@.take(i as int)),
                decreases entries@.len() - i,
            {
                assert(entries@.take(i + 1).drop_last() =~= entries@.take(i as int));
                proof {
                    json::lemma_member_is_smaller(*json, i as int);
                }
                let member = json_to_value(&entries[i].1);
                object_insert(&mut out, entries[i].0.clone(), member);
                i += 1;
            }
            assert(entries@.take(entries@.len() as int) =~= entries@);
            value_from_parts(ValueParts::Object(out))
        },
    }
}

/// What `serde_json::from_str` reads a text as: a document, or the message of
/// its error.
pub uninterp spec fn parsed(text: Seq<char>) -> Result<JsonView, Seq<char>>;

/// The compact text that `serde_json::to_string` writes for a document.
pub uninterp spec fn written(value: JsonView) -> Seq<char>;

/// The indented text that `serde_json::to_string_pretty` writes for a
/// document.
pub uninterp spec fn written_pretty(value: JsonView) -> Seq<char>;

/// Whether all numbers of a document are integers, and it nests arrays and
/// objects at most `levels` deep.
pub open spec fn plain(value: JsonView, levels: nat) -> bool
    decreases levels,
{
    match value {
        JsonView::Null => true,
        JsonView::Bool(_) => true,
        JsonView::Number(n) => json::integer_of(n) is Some,
        JsonView::Str(_) => true,
        JsonView::Array(items) => levels > 0 && forall|i: int|
            0 <= i < items.len() ==> plain(#[trigger] items[i], (levels - 1) as nat),
        JsonView::Object(members) => levels > 0 && forall|key: Seq<char>| #[trigger]
            members.contains_key(key) ==> plain(members[key], (levels - 1) as nat),
    }
}

/// How deep `serde_json` lets arrays and objects nest in what it reads.
pub const READ_LEVELS: u8 = 127;

/// Whether reading `text` gives `value`.
pub open spec fn reads_as(text: Seq<char>, value: JsonView) -> bool {
    parsed(text) == Ok::<JsonView, Seq<char>>(value)
}

/// Whether a text has no line break in it.
pub open spec fn single_line(text: Seq<char>) -> bool {
    forall|i: int| 0 <= i < text.len() ==> text[i] != '\n' && text[i] != '\r'
}

/// `serde_json::from_str`: the outcome depends on the text alone. An error is
/// handed out as its message.
#[verifier::external_body]
fn value_from_text(text: &str) -> (value: Result<serde_json::Value, String>)
    ensures
        match value {
            Ok(v) => parsed(text@) == Ok::<JsonView, Seq<char>>(value_content(v)),
            Err(e) => parsed(text@) == Err::<JsonView, Seq<char>>(e@),
        },
{
    serde_json::from_str(text).map_err(|e| e.to_string())
}

/// `serde_json::to_string`, which always succeeds on a `serde_json::Value`.
/// The text has no line break, that of an object begins with a brace, and what
/// has integers for its numbers and nests no deeper than the reader goes is
/// read back as it was. Of other numbers that is not claimed: the reader may
/// round a fraction differently.
#[verifier::external_body]
fn value_to_text(value: &serde_json::Value) -> (text: String)
    ensures
        text@ == written(value_content(*value)),
        single_line(text@),
        value_content(*value) is Object ==> text@.len() > 0 && text@[0] == '{',
        plain(value_content(*value), READ_LEVELS as nat) ==> reads_as(
            text@,
            value_content(*value),
        ),
{
    serde_json::to_string(value).unwrap()
}

/// `serde_json::to_string_pretty`, which always succeeds on a
/// `serde_json::Value`. What has integers for its numbers and nests no deeper
/// than the reader goes is read back as it was.
#[verifier::external_body]
fn value_to_text_pretty(value: &serde_json::Value) -> (text: String)
    ensures
        text@ == written_pretty(value_content(*value)),
        plain(value_content(*value), READ_LEVELS as nat) ==> reads_as(
            text@,
            value_content(*value),
        ),
{
    serde_json::to_string_pretty(value).unwrap()
}

/// The view of an outcome of reading.
pub open spec fn outcome_view(outcome: Result<Json, String>) -> Result<JsonView, Seq<char>> {
    match outcome {
        Ok(json) => Ok(json@),
        Err(e) => Err(e@),
    }
}

/// Reads a document.
pub fn parse_json(text: &str) -> (outcome: Result<Json, String>)
    ensures
        outcome_view(outcome) == parsed(text@),
{
    match value_from_text(text) {
        Ok(value) => Ok(json_from_value(&value)),
        Err(e) => Err(e),
    }
}

/// Writes a document on one line.
pub fn write_json(json: &Json) -> (text: String)
    ensures
        text@ == written(json@),
        single_line(text@),
        json@ is Object ==> text@.len() > 0 && text@[0] == '{',
        plain(json@, READ_LEVELS as nat) ==> reads_as(text@, json@),
{
    value_to_text(&json_to_value(json))
}

/// Writes a document indented.
pub fn write_json_pretty(json: &Json) -> (text: String)
    ensures
        text@ == written_pretty(json@),
        plain(json@, READ_LEVELS as nat) ==> reads_as(text@, json@),
{
    value_to_text_pretty(&json_to_value(json))
}

/// The keys of an object are those of its entries.
proof fn lemma_entry_keys(entries: Seq<(String, Json)>, key: Seq<char>)
    ensures
        json::entries_view(entries).contains_key(key) <==> exists|i: int|
            0 <= i < entries.len() && (#[trigger] entries[i]).0@ == key,
    decreases entries.len(),
{
    if entries.len() > 0 {
        let front = entries.drop_last();
        lemma_entry_keys(front, key);
        if json::entries_view(front).contains_key(key) {
            let i = choose|i: int| 0 <= i < front.len() && (#[trigger] front[i]).0@ == key;
            assert(entries[i] == front[i]);
        }
        if entries.last().0@ == key {
            assert(entries[entries.len() - 1].0@ == key);
        }
        if exists|i: int| 0 <= i < entries.len() && (#[trigger] entries[i]).0@ == key {
            let i = choose|i: int| 0 <= i < entries.len() && (#[trigger] entries[i]).0@ == key;
            if i < front.len() {
                assert(front[i].0@ == key);
            }
        }
    }
}

/// The items of a plain array are plain.
proof fn lemma_item_plain(items: Seq<JsonView>, i: int, levels: nat)
    requires
        0 <= i < items.len(),
        plain(JsonView::Array(items), levels),
    ensures
        levels > 0,
        plain(items[i], (levels - 1) as nat),
{
    let value = JsonView::Array(items);
    match value {
        JsonView::Array(inner) => {
            assert(plain(inner[i], (levels - 1) as nat));
        },
        _ => {},
    }
}

fn is_plain(json: &Json, levels: u8) -> (yes: bool)
    ensures
        yes == plain(json@, levels as nat),
    decreases levels,
{
    match json {
        Json::Null => true,
        Json::Bool(_) => true,
        Json::Number(n) => match n.as_i128() {
            Some(_) => true,
            None => false,
        },
        Json::Str(_) => true,
        Json::Array(items) => {
            if levels == 0 {
                return false;
            }
            let ghost all = json@->Array_0;
            let mut i: usize = 0;
            while i < items.len()
                invariant
                    i <= items@.len(),
                    levels > 0,
                    json@ == JsonView::Array(all),
                    all.len() == items@.len(),
                    forall|k: int| 0 <= k < items@.len() ==> #[trigger] all[k] == items@[k]@,
                    forall|k: int| 0 <= k < i ==> plain(#[trigger] all[k], (levels - 1) as nat),
                decreases items@.len() - i,
            {
                assert(all[i as int] == items@[i as int]@);
                if !is_plain(&items[i], levels - 1) {
                    proof {
                        if plain(json@, levels as nat) {
                            lemma_item_plain(all, i as int, levels as nat);
                        }
                    }
                    return false;
                }
                i += 1;
            }
            true
        },
        Json::Object(entries) => {
            if levels == 0 {
                return false;
            }
            let ghost all = json::entries_view(entries@);
            let mut i: usize = 0;
            while i < entries.len()
                invariant
                    i <= entries@.len(),
                    levels > 0,
                    *json == Json::Object(*entries),
                    all == json::entries_view(entries@),
                    json@ == JsonView::Object(all),
                    forall|k: int|
                        0 <= k < i ==> plain(
                            all[(#[trigger] entries@[k]).0@],
                            (levels - 1) as nat,
                        ),
                decreases entries@.len() - i,
            {
                let key = entries[i].0.as_str();
                proof {
                    lemma_entry_keys(entries@, key@);
                    assert(entries@[i as int].0@ == key@);
                }
                match json.get(key) {
                    Some(member) => {
                        if !is_plain(member, levels - 1) {
                            return false;
                        }
                    },
                    None => {},
                }
                i += 1;
            }
            assert forall|key: Seq<char>| #[trigger] all.contains_key(key) implies plain(
                all[key],
                (levels - 1) as nat,
            ) by {
                lemma_entry_keys(entries@, key);
                let k = choose|k: int|
                    0 <= k < entries@.len() && (#[trigger] entries@[k]).0@ == key;
                assert(plain(all[entries@[k].0@], (levels - 1) as nat));
            }
            true
        },
    }
}

/// Whether a document is one that is surely read back as it was written: all
/// its numbers are integers, and it nests no deeper than the reader goes.
pub fn reads_back(json: &Json) -> (yes: bool)
    ensures
        yes == plain(json@, READ_LEVELS as nat),
{
    is_plain(json, READ_LEVELS)
}

} // verus!
