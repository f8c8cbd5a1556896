//! JSON documents. Reading, writing and holding them is the work of
//! `serde_json`; this module says what the library relies on of it, over a
//! mathematical model of a document.

use vstd::prelude::*;

verus! {

/// A number of a JSON document, as `serde_json` tells them apart.
pub enum JsonNumber {
    /// An integer that is zero or more.
    Unsigned(u64),
    /// An integer below zero.
    Negative(i64),
    /// Any other number, by the bits of its 64-bit floating-point form.
    Float(u64),
}

/// A JSON document as a mathematical value. The members of an object are
/// held in the order of the document, each name once.
pub enum Json {
    Null,
    Bool(bool),
    Number(JsonNumber),
    String(Seq<char>),
    Array(Seq<Json>),
    Object(Seq<(Seq<char>, Json)>),
}

/// The value of the first member called `name` among `members`.
pub open spec fn member_of(members: Seq<(Seq<char>, Json)>, name: Seq<char>) -> Option<Json>
    decreases members.len(),
{
    if members.len() == 0 {
        None
    } else if members[0].0 == name {
        Some(members[0].1)
    } else {
        member_of(members.drop_first(), name)
    }
}

/// Whether no two of `members` have the same name.
pub open spec fn distinct_names(members: Seq<(Seq<char>, Json)>) -> bool {
    forall|i: int, j: int|
        0 <= i < j < members.len() ==> (#[trigger] members[i]).0 != (#[trigger] members[j]).0
}

impl Json {
    /// The member called `name`, where this is an object that has one.
    pub open spec fn member(self, name: Seq<char>) -> Option<Json> {
        match self {
            Json::Object(members) => member_of(members, name),
            _ => None,
        }
    }

    /// The text, where this is a string.
    pub open spec fn text(self) -> Option<Seq<char>> {
        match self {
            Json::String(text) => Some(text),
            _ => None,
        }
    }

    /// The items, where this is an array.
    pub open spec fn items(self) -> Option<Seq<Json>> {
        match self {
            Json::Array(items) => Some(items),
            _ => None,
        }
    }

    /// The number, where this is an integer that is zero or more.
    pub open spec fn unsigned(self) -> Option<u64> {
        match self {
            Json::Number(JsonNumber::Unsigned(n)) => Some(n),
            _ => None,
        }
    }
}

/// `serde_json::Value`: a JSON document as `serde_json` holds it. Nothing of
/// its inside is seen here; what it holds goes by the name `value_model`.
#[verifier::external_type_specification]
#[verifier::external_body]
pub struct ExValue(serde_json::Value);

/// The document that a `serde_json::Value` holds.
pub uninterp spec fn value_model(value: serde_json::Value) -> Json;

/// The document that `serde_json::from_str` reads from a text, or `None`
/// where it reads none.
pub uninterp spec fn parsed(text: Seq<char>) -> Option<Json>;

/// The text that `serde_json` writes for a document, in the compact form.
pub uninterp spec fn printed(json: Json) -> Seq<char>;

/// The documents that a sequence of values holds.
pub open spec fn value_models(values: Seq<serde_json::Value>) -> Seq<Json> {
    values.map_values(|value: serde_json::Value| value_model(value))
}

/// The members that a sequence of named values holds.
pub open spec fn member_models(members: Seq<(String, serde_json::Value)>) -> Seq<(Seq<char>, Json)> {
    members.map_values(|member: (String, serde_json::Value)| (member.0@, value_model(member.1)))
}

/// `serde_json::from_str` for a `Value`: reads a JSON document from a text.
/// Trusted: the value holds the document that `parsed` names for the text,
/// and the call fails exactly where `parsed` names none. The error comes
/// back as its message, of which nothing is claimed.
#[verifier::external_body]
pub(crate) fn parse_value(text: &str) -> (outcome: Result<serde_json::Value, String>)
    ensures
        match outcome {
            Ok(value) => parsed(text@) == Some(value_model(value)),
            Err(_) => parsed(text@) is None,
        },
{
    serde_json::from_str::<serde_json::Value>(text).map_err(|error| error.to_string())
}

/// `Display` of `serde_json::Value`: writes a document as text, in the
/// compact form. Trusted: the text is the one that `printed` names for
/// the document.
#[verifier::external_body]
pub(crate) fn print_value(value: &serde_json::Value) -> (text: String)
    ensures
        text@ == printed(value_model(*value)),
{
    value.to_string()
}

/// `Value::get` with a name: the member of an object. Trusted: the answer
/// is the member called `name`, and `None` where the value is no object or
/// has no such member.
#[verifier::external_body]
pub(crate) fn member<'a>(value: &'a serde_json::Value, name: &str) -> (found: Option<
    &'a serde_json::Value,
>)
    ensures
        match found {
            Some(inner) => value_model(*value).member(name@) == Some(value_model(*inner)),
            None => value_model(*value).member(name@) is None,
        },
{
    value.get(name)
}

/// `Value::as_str`: the text of a string. Trusted: the answer is the text
/// where the value is a string, and `None` otherwise.
#[verifier::external_body]
pub(crate) fn text_of<'a>(value: &'a serde_json::Value) -> (found: Option<&'a str>)
    ensures
        match found {
            Some(text) => value_model(*value).text() == Some(text@),
            None => value_model(*value).text() is None,
        },
{
    value.as_str()
}

/// `Value::as_array`: the items of an array. Trusted: the answer holds the
/// items in order where the value is an array, and is `None` otherwise.
#[verifier::external_body]
pub(crate) fn items_of<'a>(value: &'a serde_json::Value) -> (found: Option<
    &'a Vec<serde_json::Value>,
>)
    ensures
        match found {
            Some(items) => value_model(*value).items() == Some(value_models(items@)),
            None => value_model(*value).items() is None,
        },
{
    value.as_array()
}

/// `Value::as_u64`: the number of an integer that is zero or more. Trusted:
/// the answer is the number where the value is such an integer, and `None`
/// otherwise.
#[verifier::external_body]
pub(crate) fn unsigned_of(value: &serde_json::Value) -> (found: Option<u64>)
    ensures
        found == value_model(*value).unsigned(),
{
    value.as_u64()
}

/// `Value::is_null`. Trusted: the answer says whether the value is `null`.
#[verifier::external_body]
pub(crate) fn is_null(value: &serde_json::Value) -> (null: bool)
    ensures
        null == (value_model(*value) is Null),
{
    value.is_null()
}

/// `Value::from` for a string slice. Trusted: the value is the string with
/// that text.
#[verifier::external_body]
pub(crate) fn string_value(text: &str) -> (value: serde_json::Value)
    ensures
        value_model(value) == Json::String(text@),
{
    serde_json::Value::from(text)
}

/// `Value::from` for a `u64`. Trusted: the value is that number.
#[verifier::external_body]
pub(crate) fn unsigned_value(number: u64) -> (value: serde_json::Value)
    ensures
        value_model(value) == Json::Number(JsonNumber::Unsigned(number)),
{
    serde_json::Value::from(number)
}

/// `Value::from` for a vector of values. Trusted: the value is the array of
/// the items in order.
#[verifier::external_body]
pub(crate) fn array_value(items: Vec<serde_json::Value>) -> (value: serde_json::Value)
    ensures
        value_model(value) == Json::Array(value_models(items@)),
{
    serde_json::Value::from(items)
}

/// `Value::from_iter` for named values. Trusted: for members with different
/// names, the value is the object of the members in order.
#[verifier::external_body]
pub(crate) fn object_value(members: Vec<(String, serde_json::Value)>) -> (value: serde_json::Value)
    requires
        distinct_names(member_models(members@)),
    ensures
        value_model(value) == Json::Object(member_models(members@)),
{
    members.into_iter().collect::<serde_json::Value>()
}

} // verus!
