//! JSON documents as trees of plain values, and the call that reads one from bytes.

use vstd::prelude::*;

use crate::text::same_text;

verus! {

/// A JSON document as specifications see it.
pub enum JsonValue {
    Null,
    Bool(bool),
    /// A number, by its decimal text.
    Number(Seq<char>),
    Text(Seq<char>),
    Array(Seq<JsonValue>),
    /// The members of an object, each a name and a value.
    Object(Seq<(Seq<char>, JsonValue)>),
}

/// One member of a JSON object.
#[derive(Debug, PartialEq, Eq)]
pub struct JsonField {
    pub name: String,
    pub value: Json,
}

/// A JSON document held in memory.
#[derive(Debug, PartialEq, Eq)]
pub enum Json {
    Null,
    Bool(bool),
    /// A number, by its decimal text.
    Number(String),
    Text(String),
    Array(Vec<Json>),
    Object(Vec<JsonField>),
}

impl View for Json {
    type V = JsonValue;

    open spec fn view(&self) -> JsonValue
        decreases self,
    {
        match self {
            Json::Null => JsonValue::Null,
            Json::Bool(b) => JsonValue::Bool(*b),
            Json::Number(digits) => JsonValue::Number(digits@),
            Json::Text(text) => JsonValue::Text(text@),
            Json::Array(items) => JsonValue::Array(
                Seq::new(
                    items@.len(),
                    |i: int|
                        if 0 <= i < items@.len() {
                            items@[i]@
                        } else {
                            JsonValue::Null
                        },
                ),
            ),
            Json::Object(fields) => JsonValue::Object(
                Seq::new(
                    fields@.len(),
                    |i: int|
                        if 0 <= i < fields@.len() {
                            (fields@[i].name@, fields@[i].value@)
                        } else {
                            (Seq::empty(), JsonValue::Null)
                        },
                ),
            ),
        }
    }
}

/// The value of the first of `fields`, from index `from` on, that is named `name`.
pub open spec fn first_named(
    fields: Seq<(Seq<char>, JsonValue)>,
    name: Seq<char>,
    from: int,
) -> Option<JsonValue>
    decreases fields.len() - from,
{
    if from < 0 || from >= fields.len() {
        None
    } else if fields[from].0 == name {
        Some(fields[from].1)
    } else {
        first_named(fields, name, from + 1)
    }
}

/// The members of an object's view are the viewed members of the object, in order.
pub proof fn lemma_object_view(fields: Vec<JsonField>)
    ensures
        Json::Object(fields)@ is Object,
        Json::Object(fields)@->Object_0.len() == fields@.len(),
        forall|k: int|
            0 <= k < fields@.len() ==> (#[trigger] Json::Object(fields)@->Object_0[k]) == (
                fields@[k].name@,
                fields@[k].value@,
            ),
{
    reveal_with_fuel(<Json as View>::view, 2);
}

/// The items of an array's view are the viewed items of the array, in order.
pub proof fn lemma_array_view(items: Vec<Json>)
    ensures
        Json::Array(items)@ is Array,
        Json::Array(items)@->Array_0.len() == items@.len(),
        forall|k: int|
            0 <= k < items@.len() ==> (#[trigger] Json::Array(items)@->Array_0[k]) == items@[k]@,
{
    reveal_with_fuel(<Json as View>::view, 2);
}

impl JsonValue {
    /// The member `name` of an object; `None` for any other document and for an object
    /// without such a member.
    pub open spec fn member(self, name: Seq<char>) -> Option<JsonValue> {
        match self {
            JsonValue::Object(fields) => first_named(fields, name, 0),
            _ => None,
        }
    }
}

impl Json {
    /// Looks up the member `name` of an object.
    pub fn member(&self, name: &str) -> (found: Option<&Json>)
        ensures
            match found {
                Some(value) => self@.member(name@) == Some(value@),
                None => self@.member(name@) is None,
            },
    {
        match self {
            Json::Object(fields) => {
                let ghost members = self@->Object_0;
                proof {
                    lemma_object_view(*fields);
                }
                let mut i: usize = 0;
                while i < fields.len()
                    invariant
                        i <= fields@.len(),
                        self@ == JsonValue::Object(members),
                        members.len() == fields@.len(),
                        forall|k: int|
                            0 <= k < fields@.len() ==> members[k] == (
                                fields@[k].name@,
                                fields@[k].value@,
                            ),
                        first_named(members, name@, 0) == first_named(members, name@, i as int),
                    decreases fields@.len() - i,
                {
                    if same_text(fields[i].name.as_str(), name) {
                        assert(members[i as int].0 == name@);
                        return Some(&fields[i].value);
                    }
                    assert(members[i as int].0 != name@);
                    i += 1;
                }
                None
            },
            _ => None,
        }
    }
}

#[verifier::external_type_specification]
#[verifier::external_body]
pub struct ExJsonError(serde_json::Error);

#[verifier::external_type_specification]
#[verifier::external_body]
pub struct ExJsonDocument(serde_json::Value);

/// The document that `serde_json::from_slice` reads from `bytes`, or `None` where it
/// reports an error.
pub uninterp spec fn json_parsed(bytes: Seq<u8>) -> Option<JsonValue>;

/// The document that a `serde_json::Value` holds: a number by the text that
/// `serde_json` prints for it, an object by its members in the order in which its map
/// hands them out.
pub uninterp spec fn document_of(value: serde_json::Value) -> JsonValue;

/// How deep a `serde_json::Value` is nested: more than each value that it holds.
pub uninterp spec fn depth_of(value: serde_json::Value) -> nat;

/// The top of a `serde_json::Value`, with the values that it holds left as they are.
enum JsonNode {
    Null,
    Bool(bool),
    Number(String),
    Text(String),
    Array(Vec<serde_json::Value>),
    Object(Vec<(String, serde_json::Value)>),
}

impl JsonNode {
    /// The document that the node stands for.
    spec fn document(self) -> JsonValue {
        match self {
            JsonNode::Null => JsonValue::Null,
            JsonNode::Bool(b) => JsonValue::Bool(b),
            JsonNode::Number(digits) => JsonValue::Number(digits@),
            JsonNode::Text(text) => JsonValue::Text(text@),
            JsonNode::Array(items) => JsonValue::Array(
                Seq::new(items@.len(), |i: int| document_of(items@[i])),
            ),
            JsonNode::Object(fields) => JsonValue::Object(
                Seq::new(fields@.len(), |i: int| (fields@[i].0@, document_of(fields@[i].1))),
            ),
        }
    }

    /// Whether every value that the node holds is nested less deep than `depth`.
    spec fn below(self, depth: nat) -> bool {
        match self {
            JsonNode::Array(items) => forall|i: int|
                0 <= i < items@.len() ==> depth_of(#[trigger] items@[i]) < depth,
            JsonNode::Object(fields) => forall|i: int|
                0 <= i < fields@.len() ==> depth_of((#[trigger] fields@[i]).1) < depth,
            _ => true,
        }
    }
}

/// Takes a `serde_json::Value` apart, one arm for each of its variants, and moves out
/// what the variant holds: a number as the text of its `Display`, the entries of an
/// object as its map's `into_iter` yields them. The contract claims that this is the
/// top of the document that [`document_of`] names, and that a value is nested deeper
/// than the values it holds.
#[verifier::external_body]
fn split_value(value: serde_json::Value) -> (node: JsonNode)
    ensures
        node.document() == document_of(value),
        node.below(depth_of(value)),
{
    match value {
        serde_json::Value::Null => JsonNode::Null,
        serde_json::Value::Bool(b) => JsonNode::Bool(b),
        serde_json::Value::Number(n) => JsonNode::Number(n.to_string()),
        serde_json::Value::String(s) => JsonNode::Text(s),
        serde_json::Value::Array(items) => JsonNode::Array(items),
        serde_json::Value::Object(map) => JsonNode::Object(map.into_iter().collect()),
    }
}

/// Calls `serde_json::from_slice` for a `serde_json::Value`. The contract claims only
/// that the outcome is a function of the bytes: the value read holds the document that
/// [`json_parsed`] names, and an error comes exactly where it names none.
#[verifier::external_body]
fn read_value(bytes: &[u8]) -> (read: Result<serde_json::Value, serde_json::Error>)
    ensures
        match read {
            Ok(value) => json_parsed(bytes@) == Some(document_of(value)),
            Err(_) => json_parsed(bytes@) is None,
        },
{
    serde_json::from_slice::<serde_json::Value>(bytes)
}

/// The document that `value` holds, as a [`Json`].
fn json_of_value(value: serde_json::Value) -> (json: Json)
    ensures
        json@ == document_of(value),
    decreases depth_of(value),
{
    let ghost depth = depth_of(value);
    match split_value(value) {
        JsonNode::Null => Json::Null,
        JsonNode::Bool(b) => Json::Bool(b),
        JsonNode::Number(digits) => Json::Number(digits),
        JsonNode::Text(text) => Json::Text(text),
        JsonNode::Array(values) => {
            let ghost held = values@;
            let mut rest = values;
            let mut items: Vec<Json> = Vec::new();
            while rest.len() > 0
                invariant
                    depth == depth_of(value),
                    rest@.len() <= held.len(),
                    rest@ == held.subrange(0, rest@.len() as int),
                    items@.len() == held.len() - rest@.len(),
                    forall|k: int| 0 <= k < held.len() ==> depth_of(#[trigger] held[k]) < depth,
                    forall|k: int|
                        0 <= k < items@.len() ==> (#[trigger] items@[k])@ == document_of(
                            held[held.len() - 1 - k],
                        ),
                decreases rest@.len(),
            {
                let last = rest.pop().unwrap();
                assert(last == held[rest@.len() as int]);
                items.push(json_of_value(last));
            }
            let items = reversed(items);
            proof {
                lemma_array_view(items);
                assert(Json::Array(items)@->Array_0 =~= Seq::new(
                    held.len(),
                    |i: int| document_of(held[i]),
                ));
            }
            Json::Array(items)
        },
        JsonNode::Object(entries) => {
            let ghost held = entries@;
            let mut rest = entries;
            let mut fields: Vec<JsonField> = Vec::new();
            while rest.len() > 0
                invariant
                    depth == depth_of(value),
                    rest@.len() <= held.len(),
                    rest@ == held.subrange(0, rest@.len() as int),
                    fields@.len() == held.len() - rest@.len(),
                    forall|k: int| 0 <= k < held.len() ==> depth_of((#[trigger] held[k]).1) < depth,
                    forall|k: int|
                        0 <= k < fields@.len() ==> {
                            &&& (#[trigger] fields@[k]).name@ == held[held.len() - 1 - k].0@
                            &&& fields@[k].value@ == document_of(held[held.len() - 1 - k].1)
                        },
                decreases rest@.len(),
            {
                let (name, last) = rest.pop().unwrap();
                assert((name, last) == held[rest@.len() as int]);
                fields.push(JsonField { name, value: json_of_value(last) });
            }
            let fields = reversed(fields);
            proof {
                lemma_object_view(fields);
                assert(Json::Object(fields)@->Object_0 =~= Seq::new(
                    held.len(),
                    |i: int| (held[i].0@, document_of(held[i].1)),
                ));
            }
            Json::Object(fields)
        },
    }
}

/// The items of `items`, last first.
fn reversed<T>(items: Vec<T>) -> (turned: Vec<T>)
    ensures
        turned@.len() == items@.len(),
        forall|k: int| 0 <= k < items@.len() ==> turned@[k] == items@[items@.len() - 1 - k],
{
    let mut rest = items;
    let mut turned: Vec<T> = Vec::new();
    while rest.len() > 0
        invariant
            rest@.len() <= items@.len(),
            rest@ == items@.subrange(0, rest@.len() as int),
            turned@.len() == items@.len() - rest@.len(),
            forall|k: int| 0 <= k < turned@.len() ==> turned@[k] == items@[items@.len() - 1 - k],
        decreases rest@.len(),
    {
        let last = rest.pop().unwrap();
        turned.push(last);
    }
    turned
}

/// Reads a JSON document from `bytes`; `None` where they hold none.
pub fn parse_json(bytes: &[u8]) -> (parsed: Option<Json>)
    ensures
        match parsed {
            Some(json) => json_parsed(bytes@) == Some(json@),
            None => json_parsed(bytes@) is None,
        },
{
    match read_value(bytes) {
        Ok(value) => Some(json_of_value(value)),
        Err(_) => None,
    }
}

} // verus!
