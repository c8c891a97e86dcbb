//! Reading values out of JSON text along a path of object keys and array
//! positions, with `serde_json`.
use vstd::prelude::*;

verus! {

/// One step into a JSON value: an object member or an array element.
#[derive(Debug)]
pub enum JsonStep {
    Key(String),
    Index(usize),
}

/// A step of a JSON path, as text and number.
pub enum JsonPathItem {
    Key(Seq<char>),
    Index(usize),
}

impl View for JsonStep {
    type V = JsonPathItem;

    open spec fn view(&self) -> JsonPathItem {
        match self {
            JsonStep::Key(k) => JsonPathItem::Key(k@),
            JsonStep::Index(i) => JsonPathItem::Index(*i),
        }
    }
}

/// The path that a list of steps describes.
pub open spec fn path_of(steps: Seq<JsonStep>) -> Seq<JsonPathItem> {
    steps.map_values(|s: JsonStep| s@)
}

/// The string found in the JSON text `data` at `path`, as `serde_json` reads
/// it: `None` when `data` is not JSON or nothing there is a string. A function
/// of its arguments alone.
pub uninterp spec fn json_string_at(data: Seq<char>, path: Seq<JsonPathItem>) -> Option<Seq<char>>;

/// The length of the array found in the JSON text `data` at `path`: `None`
/// when `data` is not JSON or nothing there is an array.
pub uninterp spec fn json_array_len_at(data: Seq<char>, path: Seq<JsonPathItem>) -> Option<usize>;

/// Parses `data` with `serde_json::from_str` into a `serde_json::Value`,
/// indexes it along `path` (indexing a missing member or element gives
/// `Null`, it never panics) and reads the result with `Value::as_str`. The
/// result is taken to be `json_string_at(data, path)`.
#[verifier::external_body]
pub fn json_str_at(data: &str, path: &[JsonStep]) -> (r: Option<String>)
    ensures
        match json_string_at(data@, path_of(path@)) {
            Some(t) => r is Some && r->0@ == t,
            None => r is None,
        },
{
    let value: serde_json::Value = serde_json::from_str(data).ok()?;
    let mut at = &value;
    for step in path {
        at = match step {
            JsonStep::Key(k) => &at[k.as_str()],
            JsonStep::Index(i) => &at[*i],
        };
    }
    at.as_str().map(str::to_string)
}

/// Parses `data` like `json_str_at` and reads the value at `path` with
/// `Value::as_array`, giving its length. The result is taken to be
/// `json_array_len_at(data, path)`.
#[verifier::external_body]
pub fn json_array_len(data: &str, path: &[JsonStep]) -> (r: Option<usize>)
    ensures
        r == json_array_len_at(data@, path_of(path@)),
{
    let value: serde_json::Value = serde_json::from_str(data).ok()?;
    let mut at = &value;
    for step in path {
        at = match step {
            JsonStep::Key(k) => &at[k.as_str()],
            JsonStep::Index(i) => &at[*i],
        };
    }
    at.as_array().map(|items| items.len())
}

/// A member step.
pub fn key(name: &str) -> (s: JsonStep)
    ensures
        s@ == JsonPathItem::Key(name@),
{
    JsonStep::Key(String::from_str(name))
}

} // verus!
