//! JSON values: what the library reads out of what yt-dlp prints. Parsing and
//! access are those of `serde_json`.
use serde_json::Value;
use vstd::prelude::*;

verus! {

/// What a JSON value holds. A number is held as it is printed.
pub enum JsonView {
    Null,
    Bool(bool),
    Number(Seq<char>),
    Text(Seq<char>),
    List(Seq<JsonView>),
    Object(Map<Seq<char>, JsonView>),
}

/// A parsed JSON value, `serde_json::Value`.
#[verifier::external_type_specification]
#[verifier::external_body]
pub struct ExValue(Value);

/// What a `serde_json::Value` holds.
pub uninterp spec fn contents(v: Value) -> JsonView;

/// What `serde_json::from_str` makes of a text: a value, or the error's message.
pub uninterp spec fn parsed(s: Seq<char>) -> Result<JsonView, Seq<char>>;

/// The member of a value: of an object, what stands under the key; of anything
/// else, and where nothing stands there, null.
pub open spec fn member_of(v: JsonView, key: Seq<char>) -> JsonView {
    match v {
        JsonView::Object(map) => if map.contains_key(key) {
            map[key]
        } else {
            JsonView::Null
        },
        _ => JsonView::Null,
    }
}

/// What the values of a list hold.
pub open spec fn all_contents(list: Seq<Value>) -> Seq<JsonView> {
    Seq::new(list.len(), |i: int| contents(list[i]))
}

/// `serde_json::from_str` for a `Value`: the result depends on the text alone, and
/// an error is handed on as its message.
#[verifier::external_body]
pub(crate) fn parse(s: &str) -> (r: Result<Value, String>)
    ensures
        match r {
            Ok(v) => parsed(s@) == Ok::<JsonView, Seq<char>>(contents(v)),
            Err(e) => parsed(s@) == Err::<JsonView, Seq<char>>(e@),
        },
{
    serde_json::from_str(s).map_err(|e: serde_json::Error| e.to_string())
}

/// Indexing a `serde_json::Value` with a key (`Index` for `str`): the member of
/// an object under that key, and null for anything that is not there.
#[verifier::external_body]
pub(crate) fn member<'a>(v: &'a Value, key: &str) -> (r: &'a Value)
    ensures
        contents(*r) == member_of(contents(*v), key@),
{
    &v[key]
}

/// `serde_json::Value::as_str`: the text of a string, nothing for anything else.
#[verifier::external_body]
pub(crate) fn as_text(v: &Value) -> (r: Option<&str>)
    ensures
        match r {
            Some(s) => contents(*v) == JsonView::Text(s@),
            None => !(contents(*v) is Text),
        },
{
    v.as_str()
}

/// `serde_json::Number`'s `to_string`: how a number is printed, nothing for a
/// value that is no number.
#[verifier::external_body]
pub(crate) fn number_text(v: &Value) -> (r: Option<String>)
    ensures
        match r {
            Some(s) => contents(*v) == JsonView::Number(s@),
            None => !(contents(*v) is Number),
        },
{
    match v {
        Value::Number(n) => Some(n.to_string()),
        _ => None,
    }
}

/// `serde_json::Value::as_array`: the values of an array in order, nothing for
/// anything else.
#[verifier::external_body]
pub(crate) fn as_list(v: &Value) -> (r: Option<&Vec<Value>>)
    ensures
        match r {
            Some(list) => contents(*v) == JsonView::List(all_contents(list@)),
            None => !(contents(*v) is List),
        },
{
    v.as_array()
}

} // verus!
