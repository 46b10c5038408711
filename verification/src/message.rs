//! The messages that say what is wrong with a JSON value.
use crate::codec::{describe_text, described_text, print_json, printed_json};
use crate::json::{Json, JsonView, NumberView};
use crate::text::join;
use vstd::prelude::*;

verus! {

/// A value in a message: what it is, and what it holds where that is short.
pub open spec fn found_text(json: JsonView) -> Seq<char> {
    match json {
        JsonView::Null => "null"@,
        JsonView::Bool(b) => if b {
            "boolean `true`"@
        } else {
            "boolean `false`"@
        },
        JsonView::Number(NumberView::Float(_)) => "floating point `"@ + printed_json(json) + "`"@,
        JsonView::Number(_) => "integer `"@ + printed_json(json) + "`"@,
        JsonView::String(text) => described_text(text),
        JsonView::Array(_) => "sequence"@,
        JsonView::Object(_) => "map"@,
    }
}

/// A number of elements in a message.
pub open spec fn count_text(n: nat) -> Seq<char> {
    printed_json(JsonView::Number(NumberView::Unsigned(n as u64)))
}

/// The message for a value of another type than the one that is expected.
pub open spec fn type_message(json: JsonView, expected: Seq<char>) -> Seq<char> {
    "invalid type: "@ + found_text(json) + ", expected "@ + expected
}

/// The message for a value of the right type that is out of range.
pub open spec fn value_message(json: JsonView, expected: Seq<char>) -> Seq<char> {
    "invalid value: "@ + found_text(json) + ", expected "@ + expected
}

/// The message for an array of `n` elements, or one that ends before the element of this number.
pub open spec fn length_message(n: nat, expected: Seq<char>) -> Seq<char> {
    "invalid length "@ + count_text(n) + ", expected "@ + expected
}

/// The message for a field that is not there.
pub open spec fn missing_message(name: Seq<char>) -> Seq<char> {
    "missing field `"@ + name + "`"@
}

/// The message for a type of content that there is not.
pub open spec fn variant_message(name: Seq<char>) -> Seq<char> {
    "unknown variant `"@ + name + "`, expected one of `text`, `image`, `resource`"@
}

/// Describes a value.
pub fn found(json: &Json) -> (text: String)
    ensures
        text@ == found_text(json@),
{
    match json {
        Json::Null => "null".to_owned(),
        Json::Bool(b) => if *b {
            "boolean `true`".to_owned()
        } else {
            "boolean `false`".to_owned()
        },
        Json::Number(_) => {
            let start = if json.as_u64().is_some() || json.as_i64().is_some() {
                "integer `"
            } else {
                "floating point `"
            };
            let mut text = join(start, print_json(json.clone()).as_str());
            text.append("`");
            text
        },
        Json::String(text) => describe_text(text.as_str()),
        Json::Array(_) => "sequence".to_owned(),
        Json::Object(_) => "map".to_owned(),
    }
}

/// The message for a value of another type than the one that is expected.
pub fn wrong_type(json: &Json, expected: &str) -> (message: String)
    ensures
        message@ == type_message(json@, expected@),
{
    let mut message = join("invalid type: ", found(json).as_str());
    message.append(", expected ");
    message.append(expected);
    message
}

/// The message for a value of the right type that is out of range.
pub fn wrong_value(json: &Json, expected: &str) -> (message: String)
    ensures
        message@ == value_message(json@, expected@),
{
    let mut message = join("invalid value: ", found(json).as_str());
    message.append(", expected ");
    message.append(expected);
    message
}

/// The message for an array of `n` elements, or one that ends before the element of this number.
pub fn wrong_length(n: usize, expected: &str) -> (message: String)
    ensures
        message@ == length_message(n as nat, expected@),
{
    let mut message = join("invalid length ", print_json(Json::from_u64(n as u64)).as_str());
    message.append(", expected ");
    message.append(expected);
    message
}

/// The message for a field that is not there.
pub fn missing(name: &str) -> (message: String)
    ensures
        message@ == missing_message(name@),
{
    let mut message = join("missing field `", name);
    message.append("`");
    message
}

/// The message for a type of content that there is not.
pub fn unknown_variant(name: &str) -> (message: String)
    ensures
        message@ == variant_message(name@),
{
    let mut message = join("unknown variant `", name);
    message.append("`, expected one of `text`, `image`, `resource`");
    message
}

} // verus!
