//! JSON documents, as far as the server writes them.
//!
//! A document is built as a value of this library and turned into text by
//! `serde_json`.

use vstd::prelude::*;

verus! {

/// A JSON value.
pub enum JsonValue {
    Integer(i64),
    Text(String),
    Array(Vec<JsonValue>),
    /// The members of an object, each a name and a value.
    Object(Vec<(String, JsonValue)>),
}

/// A JSON value as mathematics: text as characters, lists as sequences.
pub enum JsonDocument {
    Integer(int),
    Text(Seq<char>),
    Array(Seq<JsonDocument>),
    Object(Seq<(Seq<char>, JsonDocument)>),
}

/// The documents that a sequence of values stands for.
pub open spec fn documents(items: Seq<JsonValue>) -> Seq<JsonDocument>
    decreases items, 0nat,
    via documents_decreases
{
    if items.len() == 0 {
        Seq::empty()
    } else {
        documents(items.drop_last()).push(document(items.last()))
    }
}

/// The named documents that a sequence of members stands for.
pub open spec fn member_documents(members: Seq<(String, JsonValue)>) -> Seq<
    (Seq<char>, JsonDocument),
>
    decreases members, 0nat,
    via member_documents_decreases
{
    if members.len() == 0 {
        Seq::empty()
    } else {
        member_documents(members.drop_last()).push(
            (members.last().0@, document(members.last().1)),
        )
    }
}

/// The document that a value stands for.
pub open spec fn document(value: JsonValue) -> JsonDocument
    decreases value, 1nat,
    via document_decreases
{
    match value {
        JsonValue::Integer(n) => JsonDocument::Integer(n as int),
        JsonValue::Text(text) => JsonDocument::Text(text@),
        JsonValue::Array(items) => JsonDocument::Array(documents(items@)),
        JsonValue::Object(members) => JsonDocument::Object(member_documents(members@)),
    }
}

#[via_fn]
proof fn documents_decreases(items: Seq<JsonValue>) {
    broadcast use vstd::seq::group_seq_axioms;

    if items.len() > 0 {
        vstd::seq::axiom_seq_len_decreases(items, items.drop_last());
    }
}

#[via_fn]
proof fn member_documents_decreases(members: Seq<(String, JsonValue)>) {
    broadcast use vstd::seq::group_seq_axioms;

    if members.len() > 0 {
        vstd::seq::axiom_seq_len_decreases(members, members.drop_last());
    }
}

#[via_fn]
proof fn document_decreases(value: JsonValue) {
    broadcast use vstd::std_specs::vec::group_vec_axioms;

}

impl View for JsonValue {
    type V = JsonDocument;

    open spec fn view(&self) -> JsonDocument {
        document(*self)
    }
}

/// `serde_json::Value`, which only passes from the conversion to the
/// writing; nothing of it is known.
#[verifier::external_type_specification]
#[verifier::external_body]
pub struct ExValue(serde_json::Value);

/// The text that `serde_json` writes for a document, in its compact form. It
/// depends on the document alone.
pub uninterp spec fn json_text(document: JsonDocument) -> Seq<char>;

/// The `serde_json::Value` that holds what `value` holds: `Value::from` for
/// numbers and text, `Value::Array` and `Value::Object` for what is made of
/// values. Nothing is claimed of the result.
#[verifier::external_body]
fn to_outside(value: &JsonValue) -> serde_json::Value {
    match value {
        JsonValue::Integer(n) => serde_json::Value::from(*n),
        JsonValue::Text(text) => serde_json::Value::from(text.as_str()),
        JsonValue::Array(items) => serde_json::Value::Array(items.iter().map(to_outside).collect()),
        JsonValue::Object(members) => serde_json::Value::Object(
            members.iter().map(|member| (member.0.clone(), to_outside(&member.1))).collect(),
        ),
    }
}

/// `to_string` of `serde_json::Value`, on `value` as a `Value`: the text of
/// the document that `value` stands for. The claim is that the text depends
/// on the document alone; what the text is, only the crate says.
#[verifier::external_body]
fn to_text(value: &JsonValue) -> (text: String)
    ensures
        text@ == json_text(value@),
{
    to_outside(value).to_string()
}

impl JsonValue {
    /// A number.
    pub fn integer(n: i64) -> (value: JsonValue)
        ensures
            value@ == JsonDocument::Integer(n as int),
    {
        JsonValue::Integer(n)
    }

    /// A piece of text.
    pub fn text(text: &str) -> (value: JsonValue)
        ensures
            value@ == JsonDocument::Text(text@),
    {
        JsonValue::Text(text.to_owned())
    }

    /// A list of values.
    pub fn array(items: Vec<JsonValue>) -> (value: JsonValue)
        ensures
            value@ == JsonDocument::Array(documents(items@)),
    {
        JsonValue::Array(items)
    }

    /// An object with the given members.
    pub fn object(members: Vec<(String, JsonValue)>) -> (value: JsonValue)
        ensures
            value@ == JsonDocument::Object(member_documents(members@)),
    {
        JsonValue::Object(members)
    }

    /// The document as text, in the compact form of `serde_json`.
    pub fn render(&self) -> (text: String)
        ensures
            text@ == json_text(self@),
    {
        to_text(self)
    }
}

/// Adds a value at the end of a list.
pub fn push_item(items: &mut Vec<JsonValue>, value: JsonValue)
    ensures
        documents(final(items)@) == documents(old(items)@).push(value@),
{
    let ghost before = items@;
    items.push(value);
    proof {
        assert(items@.drop_last() =~= before);
    }
}

/// Adds a member at the end of an object's members.
pub fn push_member(members: &mut Vec<(String, JsonValue)>, name: &str, value: JsonValue)
    ensures
        member_documents(final(members)@) == member_documents(old(members)@).push(
            (name@, value@),
        ),
{
    let ghost before = members@;
    members.push((name.to_owned(), value));
    proof {
        assert(members@.drop_last() =~= before);
    }
}

} // verus!
