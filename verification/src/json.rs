//! The JSON documents that `multica ... --output json` prints, read through
//! `serde_json`. A parsed value is carried as a [`JsonNode`], whose view says
//! where it sits: the text the document was parsed from and the steps down
//! from the root. What `serde_json` finds there is named, not restated.

use vstd::prelude::*;
use serde_json::Value;

verus! {

#[verifier::external_type_specification]
#[verifier::external_body]
pub struct ExJsonValue(Value);

/// One step down into a JSON value: an array position or an object key.
pub enum JsonStep {
    Item(int),
    Key(Seq<char>),
}

/// The place of a value: the document text and the steps from its root.
pub struct JsonAt {
    pub text: Seq<char>,
    pub path: Seq<JsonStep>,
}

impl JsonAt {
    /// The root value of the document parsed from `text`.
    pub open spec fn root(text: Seq<char>) -> JsonAt {
        JsonAt { text, path: Seq::empty() }
    }

    /// Position `i` of this value (null when it is not an array or too short).
    pub open spec fn item(self, i: int) -> JsonAt {
        JsonAt { text: self.text, path: self.path.push(JsonStep::Item(i)) }
    }

    /// Key `k` of this value (null when it is not an object or lacks `k`).
    pub open spec fn field(self, k: Seq<char>) -> JsonAt {
        JsonAt { text: self.text, path: self.path.push(JsonStep::Key(k)) }
    }
}

/// Whether `serde_json::from_str::<Value>` accepts the text.
pub uninterp spec fn json_parses(text: Seq<char>) -> bool;

/// The length of the array at `at`, or `None` when the value there is no array.
pub uninterp spec fn json_array_len(at: JsonAt) -> Option<nat>;

/// The string at `at`, or `None` when the value there is no string.
pub uninterp spec fn json_string(at: JsonAt) -> Option<Seq<char>>;

/// Whether the value at `at` is null.
pub uninterp spec fn json_is_null(at: JsonAt) -> bool;

/// A parsed JSON value together with its place in the document.
pub struct JsonNode {
    value: Value,
    at: Ghost<JsonAt>,
}

impl View for JsonNode {
    type V = JsonAt;

    closed spec fn view(&self) -> JsonAt {
        self.at@
    }
}

/// Calls `serde_json::from_str::<Value>`: `Some` exactly when the text
/// parses, and then the node is the document's root.
#[verifier::external_body]
pub(crate) fn parse_json(text: &str) -> (r: Option<JsonNode>)
    ensures
        r is Some <==> json_parses(text@),
        r matches Some(n) ==> n@ == JsonAt::root(text@),
{
    match serde_json::from_str::<Value>(text) {
        Ok(value) => Some(JsonNode { value, at: Ghost(JsonAt::root(text@)) }),
        Err(_) => None,
    }
}

/// Calls `Value::as_array` and gives the array's length.
#[verifier::external_body]
pub(crate) fn json_array_length(node: &JsonNode) -> (r: Option<usize>)
    ensures
        match r {
            Some(n) => json_array_len(node@) == Some(n as nat),
            None => json_array_len(node@) is None,
        },
{
    match node.value.as_array() {
        Some(items) => Some(items.len()),
        None => None,
    }
}

/// Indexes the value by position (`value[i]`, null when out of reach).
#[verifier::external_body]
pub(crate) fn json_item(node: &JsonNode, i: usize) -> (r: JsonNode)
    ensures
        r@ == node@.item(i as int),
{
    JsonNode { value: node.value[i].clone(), at: Ghost(node@.item(i as int)) }
}

/// Indexes the value by key (`value[key]`, null when out of reach).
#[verifier::external_body]
pub(crate) fn json_field(node: &JsonNode, key: &str) -> (r: JsonNode)
    ensures
        r@ == node@.field(key@),
{
    JsonNode { value: node.value[key].clone(), at: Ghost(node@.field(key@)) }
}

/// Calls `Value::as_str`.
#[verifier::external_body]
pub(crate) fn json_as_str(node: &JsonNode) -> (r: Option<String>)
    ensures
        match r {
            Some(s) => json_string(node@) == Some(s@),
            None => json_string(node@) is None,
        },
{
    match node.value.as_str() {
        Some(s) => Some(s.to_string()),
        None => None,
    }
}

/// Calls `Value::is_null`.
#[verifier::external_body]
pub(crate) fn json_null(node: &JsonNode) -> (r: bool)
    ensures
        r == json_is_null(node@),
{
    node.value.is_null()
}

/// The string that was found, or `default` when there is none.
pub open spec fn string_or(found: Option<Seq<char>>, default: Seq<char>) -> Seq<char> {
    match found {
        Some(s) => s,
        None => default,
    }
}

} // verus!
