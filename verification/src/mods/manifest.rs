//! From a JSON document to what a manifest says.

use crate::json::{lemma_json_view, Json, JsonView};
use crate::mods::local::{ModManifest, ModManifestView};
use crate::table::{value_at, Table};
use crate::text::{occurs_at, occurs_in};
use vstd::prelude::*;

verus! {

/// The name of the kind of JSON value that `json` is.
pub open spec fn kind_name(json: JsonView) -> Seq<char> {
    match json {
        JsonView::Null => "null"@,
        JsonView::Bool(_) => "boolean"@,
        JsonView::Number(_) => "number"@,
        JsonView::Text(_) => "string"@,
        JsonView::Array(_) => "array"@,
        JsonView::Object(_) => "object"@,
    }
}

/// The message for a document that is no object.
pub open spec fn wrong_document(found: JsonView) -> Seq<char> {
    "invalid type: "@ + kind_name(found) + ", expected an object"@
}

/// The message for a field that the manifest must have and has not.
pub open spec fn missing_field(field: Seq<char>) -> Seq<char> {
    "missing field `"@ + field + "`"@
}

/// The message for a field that holds a value of the wrong kind.
pub open spec fn wrong_type(found: JsonView, field: Seq<char>, wanted: Seq<char>) -> Seq<char> {
    "invalid type: "@ + kind_name(found) + " in field `"@ + field + "`, expected "@ + wanted
}

/// The text under `field`, which must be there and be a string.
pub open spec fn text_field(members: Seq<(Seq<char>, JsonView)>, field: Seq<char>) -> Result<
    Seq<char>,
    Seq<char>,
> {
    match value_at(members, field) {
        None => Err(missing_field(field)),
        Some(JsonView::Text(s)) => Ok(s),
        Some(other) => Err(wrong_type(other, field, "a string"@)),
    }
}

/// Whether `i` is the index of the first of `items` that is no string.
pub open spec fn first_other_at(items: Seq<JsonView>, i: int) -> bool {
    &&& 0 <= i < items.len()
    &&& !(items[i] is Text)
    &&& forall|j: int| 0 <= j < i ==> items[j] is Text
}

/// The first of `items` that is no string.
pub open spec fn first_other(items: Seq<JsonView>) -> JsonView {
    items[choose|i: int| first_other_at(items, i)]
}

/// The texts of `items`, all of which are strings.
pub open spec fn texts_of(items: Seq<JsonView>) -> Seq<Seq<char>> {
    Seq::new(items.len(), |i: int| items[i]->Text_0)
}

/// The texts under `field`, which may be missing or null, and else must be an
/// array of strings.
pub open spec fn list_field(members: Seq<(Seq<char>, JsonView)>, field: Seq<char>) -> Result<
    Option<Seq<Seq<char>>>,
    Seq<char>,
> {
    match value_at(members, field) {
        None => Ok(None),
        Some(JsonView::Null) => Ok(None),
        Some(JsonView::Array(items)) => if forall|i: int|
            0 <= i < items.len() ==> items[i] is Text {
            Ok(Some(texts_of(items)))
        } else {
            Err(wrong_type(first_other(items), field, "a list of strings"@))
        },
        Some(other) => Err(wrong_type(other, field, "a list of strings"@)),
    }
}

/// The message for the value under `field`, if there is one and it is no
/// string.
pub open spec fn text_fault(members: Seq<(Seq<char>, JsonView)>, field: Seq<char>) -> Option<
    Seq<char>,
> {
    match value_at(members, field) {
        None => None,
        Some(JsonView::Text(_)) => None,
        Some(other) => Some(wrong_type(other, field, "a string"@)),
    }
}

/// The message for the value under `field`, if there is one and it is
/// neither null nor an array of strings.
pub open spec fn list_fault(members: Seq<(Seq<char>, JsonView)>, field: Seq<char>) -> Option<
    Seq<char>,
> {
    match list_field(members, field) {
        Ok(_) => None,
        Err(message) => Some(message),
    }
}

/// The message for the first field of a manifest that holds a value of the
/// wrong kind. The fields are looked at in this order: `uniqueName`, `name`,
/// `version`, `dependencies`, `conflicts`.
pub open spec fn type_fault(members: Seq<(Seq<char>, JsonView)>) -> Option<Seq<char>> {
    if text_fault(members, "uniqueName"@) is Some {
        text_fault(members, "uniqueName"@)
    } else if text_fault(members, "name"@) is Some {
        text_fault(members, "name"@)
    } else if text_fault(members, "version"@) is Some {
        text_fault(members, "version"@)
    } else if list_fault(members, "dependencies"@) is Some {
        list_fault(members, "dependencies"@)
    } else {
        list_fault(members, "conflicts"@)
    }
}

/// What the members of a document say as a manifest, all of them being of
/// the right kind; or the message for the first of `uniqueName`, `name` and
/// `version` that is missing.
pub open spec fn manifest_of_members(members: Seq<(Seq<char>, JsonView)>) -> Result<
    ModManifestView,
    Seq<char>,
> {
    match text_field(members, "uniqueName"@) {
        Err(e) => Err(e),
        Ok(unique_name) => match text_field(members, "name"@) {
            Err(e) => Err(e),
            Ok(name) => match text_field(members, "version"@) {
                Err(e) => Err(e),
                Ok(version) => match list_field(members, "dependencies"@) {
                    Err(e) => Err(e),
                    Ok(dependencies) => match list_field(members, "conflicts"@) {
                        Err(e) => Err(e),
                        Ok(conflicts) => Ok(
                            ModManifestView { unique_name, name, version, dependencies, conflicts },
                        ),
                    },
                },
            },
        },
    }
}

/// What a JSON document says as a manifest, or the message that says why it
/// is none. The document must be an object. A field that holds a value of
/// the wrong kind comes before a field that is missing: where `uniqueName`,
/// `name` or `version` is no string, or `dependencies` or `conflicts` neither
/// null nor an array of strings, the message names the kind that was found
/// and the kind that was expected. Fields that a manifest does not have are
/// passed over.
pub open spec fn manifest_of(json: JsonView) -> Result<ModManifestView, Seq<char>> {
    match json {
        JsonView::Object(members) => match type_fault(members) {
            Some(message) => Err(message),
            None => manifest_of_members(members),
        },
        other => Err(wrong_document(other)),
    }
}

/// The message for a value of the wrong kind names the kind that was
/// expected, which is a string or a list of strings.
pub proof fn lemma_wrong_type_names_string(found: JsonView, field: Seq<char>, list: bool)
    ensures
        occurs_in(
            "string"@,
            wrong_type(
                found,
                field,
                if list {
                    "a list of strings"@
                } else {
                    "a string"@
                },
            ),
        ),
{
    reveal_strlit("string");
    reveal_strlit("a string");
    reveal_strlit("a list of strings");
    let head = "invalid type: "@ + kind_name(found) + " in field `"@ + field + "`, expected "@;
    let wanted = if list {
        "a list of strings"@
    } else {
        "a string"@
    };
    let message = wrong_type(found, field, wanted);
    let at = head.len() + if list {
        10int
    } else {
        2int
    };
    assert(message == head + wanted);
    assert(message.subrange(at, at + 6) =~= "string"@);
    assert(occurs_at("string"@, message, at));
}

/// The message for a field of the wrong kind names a string.
pub proof fn lemma_type_fault_names_string(members: Seq<(Seq<char>, JsonView)>)
    requires
        type_fault(members) is Some,
    ensures
        occurs_in("string"@, type_fault(members)->0),
{
    lemma_fault_names_string(members, "uniqueName"@);
    lemma_fault_names_string(members, "name"@);
    lemma_fault_names_string(members, "version"@);
    lemma_fault_names_string(members, "dependencies"@);
    lemma_fault_names_string(members, "conflicts"@);
}

proof fn lemma_fault_names_string(members: Seq<(Seq<char>, JsonView)>, field: Seq<char>)
    ensures
        text_fault(members, field) is Some ==> occurs_in("string"@, text_fault(members, field)->0),
        list_fault(members, field) is Some ==> occurs_in("string"@, list_fault(members, field)->0),
{
    match value_at(members, field) {
        Some(found) => {
            lemma_wrong_type_names_string(found, field, false);
            lemma_wrong_type_names_string(found, field, true);
            match found {
                JsonView::Array(items) => {
                    lemma_wrong_type_names_string(first_other(items), field, true);
                },
                _ => {},
            }
        },
        None => {},
    }
}

/// A document whose `version` is there and is no string is no manifest, and
/// the message says so: it names the string that was expected.
pub proof fn lemma_version_must_be_string(members: Seq<(Seq<char>, JsonView)>)
    requires
        value_at(members, "version"@) is Some,
        !(value_at(members, "version"@)->0 is Text),
    ensures
        manifest_of(JsonView::Object(members)) is Err,
        occurs_in("string"@, manifest_of(JsonView::Object(members))->Err_0),
{
    assert(text_fault(members, "version"@) is Some);
    lemma_type_fault_names_string(members);
}

/// The name of the kind of JSON value that `json` is.
pub fn kind_of(json: &Json) -> (r: &'static str)
    ensures
        r@ == kind_name(json@),
{
    match json {
        Json::Null => "null",
        Json::Bool(_) => "boolean",
        Json::Number(_) => "number",
        Json::Text(_) => "string",
        Json::Array(_) => "array",
        Json::Object(_) => "object",
    }
}

/// The message for a field that holds a value of the wrong kind.
pub fn wrong_type_message(found: &Json, field: &str, wanted: &str) -> (r: String)
    ensures
        r@ == wrong_type(found@, field@, wanted@),
{
    String::from_str("invalid type: ").concat(kind_of(found)).concat(" in field `").concat(
        field,
    ).concat("`, expected ").concat(wanted)
}

/// The message for a field that must be there and is not.
pub fn missing_field_message(field: &str) -> (r: String)
    ensures
        r@ == missing_field(field@),
{
    String::from_str("missing field `").concat(field).concat("`")
}

/// The message for a document that is no object.
pub fn wrong_document_message(found: &Json) -> (r: String)
    ensures
        r@ == wrong_document(found@),
{
    String::from_str("invalid type: ").concat(kind_of(found)).concat(", expected an object")
}

fn read_text(members: &Table<Json>, field: &str) -> (r: Result<String, String>)
    ensures
        match r {
            Ok(s) => text_field(members.model(), field@) == Ok::<Seq<char>, Seq<char>>(s@),
            Err(e) => text_field(members.model(), field@) == Err::<Seq<char>, Seq<char>>(e@),
        },
{
    proof {
        members.lemma_model(field@);
    }
    match members.get(field) {
        None => Err(missing_field_message(field)),
        Some(Json::Text(s)) => Ok(s.clone()),
        Some(other) => Err(wrong_type_message(other, field, "a string")),
    }
}

fn read_list(members: &Table<Json>, field: &str) -> (r: Result<Option<Vec<String>>, String>)
    ensures
        match r {
            Ok(list) => list_field(members.model(), field@) == Ok::<
                Option<Seq<Seq<char>>>,
                Seq<char>,
            >(list.deep_view()),
            Err(e) => list_field(members.model(), field@) == Err::<
                Option<Seq<Seq<char>>>,
                Seq<char>,
            >(e@),
        },
{
    proof {
        members.lemma_model(field@);
    }
    match members.get(field) {
        None => Ok(None),
        Some(Json::Null) => Ok(None),
        Some(Json::Array(items)) => {
            let ghost views = items.deep_view();
            proof {
                lemma_json_view(Json::Array(*items));
            }
            let mut out: Vec<String> = Vec::new();
            let mut i: usize = 0;
            while i < items.len()
                invariant
                    value_at(members.model(), field@) == Some(JsonView::Array(views)),
                    views == items.deep_view(),
                    i <= items@.len(),
                    out@.len() == i,
                    forall|j: int| 0 <= j < i ==> views[j] is Text,
                    forall|j: int| 0 <= j < i ==> #[trigger] out@[j]@ == views[j]->Text_0,
                decreases items@.len() - i,
            {
                assert(views[i as int] == items@[i as int]@);
                match &items[i] {
                    Json::Text(s) => {
                        out.push(s.clone());
                    },
                    other => {
                        proof {
                            assert(*other == items@[i as int]);
                            assert(!(views[i as int] is Text));
                            assert(first_other_at(views, i as int));
                            let k = choose|k: int| first_other_at(views, k);
                            assert(k == i) by {
                                if k < i {
                                    assert(views[k] is Text);
                                } else if i < k {
                                    assert(views[i as int] is Text);
                                }
                            }
                        }
                        return Err(wrong_type_message(other, field, "a list of strings"));
                    },
                }
                i += 1;
            }
            assert(out.deep_view() =~= texts_of(views));
            Ok(Some(out))
        },
        Some(other) => Err(wrong_type_message(other, field, "a list of strings")),
    }
}

fn find_text_fault(members: &Table<Json>, field: &str) -> (r: Option<String>)
    ensures
        r.deep_view() == text_fault(members.model(), field@),
{
    proof {
        members.lemma_model(field@);
    }
    match members.get(field) {
        None => None,
        Some(Json::Text(_)) => None,
        Some(other) => Some(wrong_type_message(other, field, "a string")),
    }
}

fn find_list_fault(members: &Table<Json>, field: &str) -> (r: Option<String>)
    ensures
        r.deep_view() == list_fault(members.model(), field@),
{
    match read_list(members, field) {
        Ok(_) => None,
        Err(message) => Some(message),
    }
}

fn find_type_fault(members: &Table<Json>) -> (r: Option<String>)
    ensures
        r.deep_view() == type_fault(members.model()),
{
    let fault = find_text_fault(members, "uniqueName");
    if fault.is_some() {
        return fault;
    }
    let fault = find_text_fault(members, "name");
    if fault.is_some() {
        return fault;
    }
    let fault = find_text_fault(members, "version");
    if fault.is_some() {
        return fault;
    }
    let fault = find_list_fault(members, "dependencies");
    if fault.is_some() {
        return fault;
    }
    find_list_fault(members, "conflicts")
}

impl ModManifest {
    /// Reads a manifest from a JSON document.
    pub fn from_json(json: &Json) -> (r: Result<ModManifest, String>)
        ensures
            match r {
                Ok(manifest) => manifest_of(json@) == Ok::<ModManifestView, Seq<char>>(manifest@),
                Err(message) => manifest_of(json@) == Err::<ModManifestView, Seq<char>>(message@),
            },
    {
        proof {
            lemma_json_view(*json);
        }
        match json {
            Json::Object(members) => {
                match find_type_fault(members) {
                    Some(message) => {
                        return Err(message);
                    },
                    None => {},
                }
                let unique_name = match read_text(members, "uniqueName") {
                    Ok(s) => s,
                    Err(e) => {
                        return Err(e);
                    },
                };
                let name = match read_text(members, "name") {
                    Ok(s) => s,
                    Err(e) => {
                        return Err(e);
                    },
                };
                let version = match read_text(members, "version") {
                    Ok(s) => s,
                    Err(e) => {
                        return Err(e);
                    },
                };
                let dependencies = match read_list(members, "dependencies") {
                    Ok(s) => s,
                    Err(e) => {
                        return Err(e);
                    },
                };
                let conflicts = match read_list(members, "conflicts") {
                    Ok(s) => s,
                    Err(e) => {
                        return Err(e);
                    },
                };
                Ok(ModManifest { unique_name, name, version, dependencies, conflicts })
            },
            other => Err(wrong_document_message(other)),
        }
    }
}

} // verus!
