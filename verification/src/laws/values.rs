//! What JSON values hold, and what is said of those that are wrong.
use crate::codec::{
    described_text, json_from_value, json_into_value, number_contents, number_double, parse_json, parsed_json,
    printed_json, reads_back, value_contents,
};
use crate::json::{add_member, members_view, Json, JsonView, NumberView};
use crate::message::{
    found, missing, missing_message, type_message, unknown_variant, value_message, variant_message, wrong_length,
    wrong_type, wrong_value,
};
use vstd::prelude::*;

verus! {

/// A value that is no object holds what it was made of.
pub proof fn law_plain_values(b: bool, number: serde_json::Number, text: String, items: Vec<Json>)
    ensures
        Json::Null@ is Null,
        Json::Bool(b)@ == JsonView::Bool(b),
        Json::Number(number)@ == JsonView::Number(number_contents(number)),
        Json::String(text)@ == JsonView::String(text@),
        Json::Array(items)@ matches JsonView::Array(all) && all.len() == items@.len() && forall|i: int|
            0 <= i < all.len() ==> #[trigger] all[i] == items@[i]@,
{
}

/// An object has a member of a name where it was made with one, and of several with one name the
/// last one counts.
pub proof fn law_members(entries: Seq<(String, Json)>, name: Seq<char>)
    ensures
        members_view(entries).contains_key(name) <==> exists|i: int|
            0 <= i < entries.len() && (#[trigger] entries[i]).0@ == name,
        forall|i: int|
            0 <= i < entries.len() && (#[trigger] entries[i]).0@ == name && (forall|j: int|
                i < j < entries.len() ==> (#[trigger] entries[j]).0@ != name) ==> members_view(entries)[name]
                == entries[i].1@,
    decreases entries.len(),
{
    if entries.len() > 0 {
        let fewer = entries.drop_last();
        let last = entries.last();
        let n = entries.len() - 1;
        assert(entries[n] == last);
        law_members(fewer, name);
        assert forall|i: int| 0 <= i < n implies fewer[i] == #[trigger] entries[i] by {}
        if exists|i: int| 0 <= i < fewer.len() && (#[trigger] fewer[i]).0@ == name {
            let i = choose|i: int| 0 <= i < fewer.len() && (#[trigger] fewer[i]).0@ == name;
            assert(entries[i].0@ == name);
        }
        if exists|i: int| 0 <= i < entries.len() && (#[trigger] entries[i]).0@ == name {
            let i = choose|i: int| 0 <= i < entries.len() && (#[trigger] entries[i]).0@ == name;
            if i < n {
                assert(fewer[i].0@ == name);
            }
        }
        assert forall|i: int|
            0 <= i < entries.len() && (#[trigger] entries[i]).0@ == name && (forall|j: int|
                i < j < entries.len() ==> (#[trigger] entries[j]).0@ != name) implies members_view(entries)[name]
            == entries[i].1@ by {
            if i < n {
                assert(fewer[i].0@ == name);
                assert(last.0@ != name);
                assert forall|j: int| i < j < fewer.len() implies (#[trigger] fewer[j]).0@ != name by {
                    assert(entries[j].0@ != name);
                }
            }
        }
    }
}

/// An object holds the members that it was made with.
pub proof fn law_object(entries: Vec<(String, Json)>)
    ensures
        Json::Object(entries)@ == JsonView::Object(members_view(entries@)),
{
}

/// A member that is added is there with its value, and the others stay.
pub proof fn law_add_member(name: &str, value: Json)
    ensures
        forall|entries: &mut Vec<(String, Json)>, out: ()| #[trigger]
            call_ensures(add_member, (entries, name, value), out) ==> members_view(final(entries)@)[name@] == value@
                && members_view(final(entries)@).contains_key(name@) && forall|other: Seq<char>|
                other != name@ ==> (#[trigger] members_view(final(entries)@).contains_key(other) <==> members_view(
                    entries@,
                ).contains_key(other)) && (members_view(entries@).contains_key(other) ==> members_view(
                    final(entries)@,
                )[other] == members_view(entries@)[other]),
{
}

/// The member of an object is found by its name, and nothing but an object has members.
pub proof fn law_get(json: Json, name: &str, found: Option<&Json>)
    requires
        call_ensures(Json::get, (&json, name), found),
    ensures
        match json@ {
            JsonView::Object(members) => if members.dom().contains(name@) {
                found matches Some(own) && own@ == members[name@]
            } else {
                found is None
            },
            _ => found is None,
        },
{
}

/// A text is taken out of a string, and out of nothing else.
pub proof fn law_as_str(json: Json, text: Option<&str>)
    requires
        call_ensures(Json::as_str, (&json,), text),
    ensures
        match json@ {
            JsonView::String(own) => text matches Some(found) && found@ == own,
            _ => text is None,
        },
{
}

/// A truth value is taken out of a boolean, and out of nothing else.
pub proof fn law_as_bool(json: Json, b: Option<bool>)
    requires
        call_ensures(Json::as_bool, (&json,), b),
    ensures
        b == match json@ {
            JsonView::Bool(own) => Some(own),
            _ => None,
        },
{
}

/// A `u64` is taken out of a whole number from zero up, and out of nothing else.
pub proof fn law_as_u64(json: Json, n: Option<u64>)
    requires
        call_ensures(Json::as_u64, (&json,), n),
    ensures
        n == match json@ {
            JsonView::Number(NumberView::Unsigned(own)) => Some(own),
            _ => None,
        },
{
}

/// An `i64` is taken out of a whole number in its range, with its value, and out of nothing else.
pub proof fn law_as_i64(json: Json, n: Option<i64>)
    requires
        call_ensures(Json::as_i64, (&json,), n),
    ensures
        match json@ {
            JsonView::Number(NumberView::Unsigned(own)) => if own <= 0x7fff_ffff_ffff_ffff {
                n matches Some(found) && found as int == own as int
            } else {
                n is None
            },
            JsonView::Number(NumberView::Negative(own)) => n == Some(own),
            _ => n is None,
        },
{
}

/// A double is taken out of a number: the very one of a floating-point number, and the one that a
/// whole number is converted to. Nothing else has any.
pub proof fn law_as_double(json: Json, bits: Option<u64>)
    requires
        call_ensures(Json::as_double, (&json,), bits),
    ensures
        bits == match json@ {
            JsonView::Number(NumberView::Float(own)) => Some(own),
            JsonView::Number(number) => Some(number_double(number)),
            _ => None,
        },
{
}

/// Values that are made hold what they are made of, and a copy holds the same.
pub proof fn law_made_values(n: u64, text: &str, number: Json, string: Json, copy: Json)
    requires
        call_ensures(Json::from_u64, (n,), number),
        call_ensures(Json::from_text, (text,), string),
        call_ensures(Json::clone, (&string,), copy),
    ensures
        number@ == JsonView::Number(NumberView::Unsigned(n)),
        string@ == JsonView::String(text@),
        copy@ == JsonView::String(text@),
{
}

/// A copy of a value holds the same.
pub proof fn law_copy(json: Json, copy: Json)
    requires
        call_ensures(Json::clone, (&json,), copy),
    ensures
        copy@ == json@,
{
}

/// A text is read as the JSON reader reads it, or refused in its words.
pub proof fn law_parse_json(text: &str, result: Result<Json, String>)
    requires
        call_ensures(parse_json, (text,), result),
    ensures
        match parsed_json(text@) {
            Ok(own) => result matches Ok(json) && json@ == own,
            Err(own) => result matches Err(message) && message@ == own,
        },
        reads_back(text@, parsed_json(text@)),
{
}

/// A value of the JSON crate becomes one that holds the same, and back.
pub proof fn law_there_and_back(value: serde_json::Value, json: Json, again: serde_json::Value)
    requires
        call_ensures(json_from_value, (value,), json),
        call_ensures(json_into_value, (json,), again),
    ensures
        json@ == value_contents(value),
        value_contents(again) == value_contents(value),
{
}

/// A value is described by what it is, and by what it holds where that is short.
pub proof fn law_found(json: Json, text: String)
    requires
        call_ensures(found, (&json,), text),
    ensures
        match json@ {
            JsonView::Null => text@ == "null"@,
            JsonView::Bool(true) => text@ == "boolean `true`"@,
            JsonView::Bool(false) => text@ == "boolean `false`"@,
            JsonView::Number(NumberView::Float(_)) => text@ == "floating point `"@ + printed_json(json@) + "`"@,
            JsonView::Number(NumberView::Unsigned(_)) => text@ == "integer `"@ + printed_json(json@) + "`"@,
            JsonView::Number(NumberView::Negative(_)) => text@ == "integer `"@ + printed_json(json@) + "`"@,
            JsonView::String(own) => text@ == described_text(own),
            JsonView::Array(_) => text@ == "sequence"@,
            JsonView::Object(_) => text@ == "map"@,
        },
{
}

/// The messages say what was found and what was expected.
pub proof fn law_messages(json: Json, expected: &str, what: String, wrong: String, out_of_range: String)
    requires
        call_ensures(found, (&json,), what),
        call_ensures(wrong_type, (&json, expected), wrong),
        call_ensures(wrong_value, (&json, expected), out_of_range),
    ensures
        wrong@ == "invalid type: "@ + what@ + ", expected "@ + expected@,
        out_of_range@ == "invalid value: "@ + what@ + ", expected "@ + expected@,
        type_message(json@, expected@) == wrong@,
        value_message(json@, expected@) == out_of_range@,
{
}

/// The messages on lengths, fields and variants name what they are about.
pub proof fn law_more_messages(
    n: usize,
    expected: &str,
    length: String,
    name: &str,
    absent: String,
    variant: String,
)
    requires
        call_ensures(wrong_length, (n, expected), length),
        call_ensures(missing, (name,), absent),
        call_ensures(unknown_variant, (name,), variant),
    ensures
        length@ == "invalid length "@ + printed_json(JsonView::Number(NumberView::Unsigned(n as u64)))
            + ", expected "@ + expected@,
        crate::message::length_message(n as nat, expected@) == length@,
        absent@ == "missing field `"@ + name@ + "`"@,
        missing_message(name@) == absent@,
        variant@ == "unknown variant `"@ + name@ + "`, expected one of `text`, `image`, `resource`"@,
        variant_message(name@) == variant@,
{
}

} // verus!
