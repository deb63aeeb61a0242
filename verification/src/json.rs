//! JSON documents, read by `serde_json`.

use crate::table::Table;
use vstd::prelude::*;

verus! {

/// A JSON value. A number is kept as its text.
#[derive(Debug, PartialEq, Eq)]
pub enum Json {
    Null,
    Bool(bool),
    Number(String),
    Text(String),
    Array(Vec<Json>),
    Object(Table<Json>),
}

/// A JSON value as a mathematical value.
pub enum JsonView {
    Null,
    Bool(bool),
    Number(Seq<char>),
    Text(Seq<char>),
    Array(Seq<JsonView>),
    Object(Seq<(Seq<char>, JsonView)>),
}

impl View for Json {
    type V = JsonView;

    open spec fn view(&self) -> JsonView
        decreases self,
    {
        match self {
            Json::Null => JsonView::Null,
            Json::Bool(b) => JsonView::Bool(*b),
            Json::Number(n) => JsonView::Number(n@),
            Json::Text(s) => JsonView::Text(s@),
            Json::Array(items) => JsonView::Array(
                Seq::new(
                    items@.len(),
                    |i: int|
                        if 0 <= i < items@.len() {
                            items@[i]@
                        } else {
                            JsonView::Null
                        },
                ),
            ),
            Json::Object(members) => JsonView::Object(
                Seq::new(
                    members.entries@.len(),
                    |i: int|
                        if 0 <= i < members.entries@.len() {
                            (members.entries@[i].0@, members.entries@[i].1@)
                        } else {
                            (Seq::empty(), JsonView::Null)
                        },
                ),
            ),
        }
    }
}

impl DeepView for Json {
    type V = JsonView;

    open spec fn deep_view(&self) -> JsonView {
        self@
    }
}

/// The view of an object is the model of the table of its members, that of
/// an array the views of its items.
pub proof fn lemma_json_view(json: Json)
    ensures
        match json {
            Json::Object(members) => json@ == JsonView::Object(members.model()),
            Json::Array(items) => json@ == JsonView::Array(items.deep_view()),
            _ => true,
        },
{
    match json {
        Json::Object(members) => {
            let views = json@->Object_0;
            reveal_with_fuel(<Json as View>::view, 2);
            assert(views =~= members.model());
        },
        Json::Array(items) => {
            assert(json@->Array_0 =~= items.deep_view());
        },
        _ => {},
    }
}

/// `serde_json::Value`, which the library only carries from the parser to
/// `json_of_value`.
#[verifier::external_type_specification]
#[verifier::external_body]
pub struct ExValue(serde_json::Value);

/// The JSON value that a `serde_json::Value` holds.
pub uninterp spec fn json_in(value: serde_json::Value) -> JsonView;

/// What `serde_json` makes of a text: the JSON value that the text spells, or
/// the parser's message where it spells none.
pub uninterp spec fn json_document(text: Seq<char>) -> Result<JsonView, Seq<char>>;

/// `serde_json::from_str`, reading a `serde_json::Value`. The parser's error
/// is handed on as its message. The contract only gives the outcome its
/// name, `json_document`.
#[verifier::external_body]
fn value_from_str(text: &str) -> (r: Result<serde_json::Value, String>)
    ensures
        match r {
            Ok(value) => json_document(text@) == Ok::<JsonView, Seq<char>>(json_in(value)),
            Err(message) => json_document(text@) == Err::<JsonView, Seq<char>>(message@),
        },
{
    match serde_json::from_str::<serde_json::Value>(text) {
        Ok(value) => Ok(value),
        Err(e) => Err(e.to_string()),
    }
}

/// Rebuilds a `serde_json::Value` as a `Json`, variant by variant; a number
/// becomes the text that `serde_json` prints for it, an object's members come
/// in the order in which `serde_json` walks them. The contract only gives the
/// outcome its name, `json_in`.
#[verifier::external_body]
fn json_of_value(value: serde_json::Value) -> (r: Json)
    ensures
        r@ == json_in(value),
{
    match value {
        serde_json::Value::Null => Json::Null,
        serde_json::Value::Bool(b) => Json::Bool(b),
        serde_json::Value::Number(n) => Json::Number(n.to_string()),
        serde_json::Value::String(s) => Json::Text(s),
        serde_json::Value::Array(items) => Json::Array(
            items.into_iter().map(json_of_value).collect(),
        ),
        serde_json::Value::Object(members) => Json::Object(
            Table { entries: members.into_iter().map(|(k, v)| (k, json_of_value(v))).collect() },
        ),
    }
}

/// Reads `text` as one JSON document.
pub fn parse_json(text: &str) -> (r: Result<Json, String>)
    ensures
        match r {
            Ok(json) => json_document(text@) == Ok::<JsonView, Seq<char>>(json@),
            Err(message) => json_document(text@) == Err::<JsonView, Seq<char>>(message@),
        },
{
    match value_from_str(text) {
        Ok(value) => Ok(json_of_value(value)),
        Err(message) => Err(message),
    }
}

} // verus!
