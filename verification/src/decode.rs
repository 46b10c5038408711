//! Reading typed values out of JSON.
//!
//! A record is written as an object, whose members may come in any order among others that are of
//! no interest, or as an array of the values of all its fields in order. Where several things are
//! wrong with a record the message is that of the first: in an object the members are read in the
//! order of their names, and then the fields that are missing are found in the order of the fields;
//! in an array the values are read in order.
use crate::json::{optional_json, referred_json, Json, JsonView, NumberView};
use crate::message::{
    length_message, missing, missing_message, type_message, value_message, wrong_length, wrong_type, wrong_value,
};
use vstd::prelude::*;

verus! {

/// A type whose values can be read out of JSON.
pub trait Decode: View + Sized {
    /// The value that the JSON stands for, or the message that says why it stands for none.
    spec fn decoded(json: JsonView) -> Result<<Self as View>::V, Seq<char>>;

    /// Reads a value; the error is the message that says what is wrong with the JSON.
    fn decode(json: &Json) -> (result: Result<Self, String>)
        ensures
            match result {
                Ok(value) => Self::decoded(json@) == Ok::<<Self as View>::V, Seq<char>>(value@),
                Err(message) => Self::decoded(json@) == Err::<<Self as View>::V, Seq<char>>(message@),
            },
    ;
}

/// The views of a list of values.
pub open spec fn views<T: View>(list: Seq<T>) -> Seq<T::V> {
    Seq::new(list.len(), |i: int| list[i]@)
}

/// The message of the first item that stands for no value.
pub open spec fn first_message<T: Decode>(items: Seq<JsonView>) -> Seq<char>
    decreases items.len(),
{
    if items.len() == 0 {
        Seq::empty()
    } else {
        match T::decoded(items[0]) {
            Ok(_) => first_message::<T>(items.drop_first()),
            Err(message) => message,
        }
    }
}

/// The list of values that an array stands for, if every item of it stands for one.
pub open spec fn decoded_list<T: Decode>(json: JsonView) -> Result<Seq<T::V>, Seq<char>> {
    match json {
        JsonView::Array(items) => if forall|i: int| 0 <= i < items.len() ==> (#[trigger] T::decoded(items[i])) is Ok {
            Ok(Seq::new(items.len(), |i: int| T::decoded(items[i])->Ok_0))
        } else {
            Err(first_message::<T>(items))
        },
        _ => Err(type_message(json, "a sequence"@)),
    }
}

/// An item with only good ones before it gives the message, where it is bad.
pub proof fn lemma_first_message<T: Decode>(items: Seq<JsonView>, n: int)
    requires
        0 <= n < items.len(),
        forall|i: int| 0 <= i < n ==> (#[trigger] T::decoded(items[i])) is Ok,
        T::decoded(items[n]) is Err,
    ensures
        first_message::<T>(items) == T::decoded(items[n])->Err_0,
    decreases n,
{
    if n > 0 {
        let rest = items.drop_first();
        assert(T::decoded(items[0]) is Ok);
        assert forall|i: int| 0 <= i < n - 1 implies (#[trigger] T::decoded(rest[i])) is Ok by {
            assert(rest[i] == items[i + 1]);
        }
        lemma_first_message::<T>(rest, n - 1);
    }
}

/// Reads a list of values.
pub fn decode_list<T: Decode>(json: &Json) -> (result: Result<Vec<T>, String>)
    ensures
        match result {
            Ok(list) => decoded_list::<T>(json@) == Ok::<Seq<T::V>, Seq<char>>(views(list@)),
            Err(message) => decoded_list::<T>(json@) == Err::<Seq<T::V>, Seq<char>>(message@),
        },
{
    match json {
        Json::Array(items) => {
            let mut list: Vec<T> = Vec::new();
            let mut i: usize = 0;
            while i < items.len()
                invariant
                    i <= items@.len(),
                    list@.len() == i,
                    json@ matches JsonView::Array(all) && all.len() == items@.len() && forall|k: int|
                        0 <= k < all.len() ==> #[trigger] all[k] == items@[k]@,
                    forall|k: int|
                        0 <= k < i ==> #[trigger] T::decoded(json@->Array_0[k]) == Ok::<T::V, Seq<char>>(list@[k]@),
                decreases items@.len() - i,
            {
                match T::decode(&items[i]) {
                    Ok(value) => {
                        list.push(value);
                    },
                    Err(message) => {
                        assert(T::decoded(json@->Array_0[i as int]) is Err);
                        proof {
                            lemma_first_message::<T>(json@->Array_0, i as int);
                        }
                        return Err(message);
                    },
                }
                i += 1;
            }
            proof {
                let all = json@->Array_0;
                assert(views(list@) =~= Seq::new(all.len(), |k: int| T::decoded(all[k])->Ok_0));
            }
            Ok(list)
        },
        _ => Err(wrong_type(json, "a sequence")),
    }
}

/// The field of a record that has the given name, or the given place in an array.
pub open spec fn field_of(json: JsonView, place: nat, name: Seq<char>) -> Option<JsonView> {
    match json {
        JsonView::Array(items) => if place < items.len() {
            Some(items[place as int])
        } else {
            None
        },
        _ => json.member(name),
    }
}

/// The field of a record that has the given name, or the given place in an array.
pub fn field<'a>(json: &'a Json, place: usize, name: &str) -> (value: Option<&'a Json>)
    ensures
        referred_json(value) == field_of(json@, place as nat, name@),
{
    match json {
        Json::Array(items) => if place < items.len() {
            Some(&items[place])
        } else {
            None
        },
        _ => json.get(name),
    }
}

/// How many values an array has; nothing else has any.
pub open spec fn values_in(json: JsonView) -> nat {
    match json {
        JsonView::Array(items) => items.len(),
        _ => 0,
    }
}

/// Counts the values of an array.
pub fn count_values(json: &Json) -> (n: usize)
    ensures
        n == values_in(json@),
{
    match json {
        Json::Array(items) => items.len(),
        _ => 0,
    }
}

/// The text of a string.
pub open spec fn text_of(json: JsonView) -> Result<Seq<char>, Seq<char>> {
    match json {
        JsonView::String(text) => Ok(text),
        _ => Err(type_message(json, "a string"@)),
    }
}

/// The truth value of a boolean.
pub open spec fn bool_of(json: JsonView) -> Result<bool, Seq<char>> {
    match json {
        JsonView::Bool(b) => Ok(b),
        _ => Err(type_message(json, "a boolean"@)),
    }
}

/// A number as a `u64`.
pub open spec fn u64_of(json: JsonView) -> Result<u64, Seq<char>> {
    match json {
        JsonView::Number(NumberView::Unsigned(n)) => Ok(n),
        JsonView::Number(NumberView::Negative(_)) => Err(value_message(json, "u64"@)),
        _ => Err(type_message(json, "u64"@)),
    }
}

/// A number as an `i64`.
pub open spec fn i64_of(json: JsonView) -> Result<i64, Seq<char>> {
    match json {
        JsonView::Number(NumberView::Unsigned(n)) => if n <= i64::MAX {
            Ok(n as i64)
        } else {
            Err(value_message(json, "i64"@))
        },
        JsonView::Number(NumberView::Negative(n)) => Ok(n),
        _ => Err(type_message(json, "i64"@)),
    }
}

/// A field that must be there, as far as it is: what `read` makes of it.
pub open spec fn required_field<T>(
    value: Option<JsonView>,
    read: spec_fn(JsonView) -> Result<T, Seq<char>>,
) -> Result<Option<T>, Seq<char>> {
    match value {
        None => Ok(None),
        Some(json) => match read(json) {
            Ok(found) => Ok(Some(found)),
            Err(message) => Err(message),
        },
    }
}

/// A field that may be missing or null: otherwise what `read` makes of it.
pub open spec fn optional_field<T>(
    value: Option<JsonView>,
    read: spec_fn(JsonView) -> Result<T, Seq<char>>,
) -> Result<Option<T>, Seq<char>> {
    match value {
        Some(JsonView::Null) => Ok(None),
        _ => required_field(value, read),
    }
}

/// A field that must be there and holds a text.
pub open spec fn required_text(value: Option<JsonView>) -> Result<Option<Seq<char>>, Seq<char>> {
    required_field(value, |json: JsonView| text_of(json))
}

/// A field that may be missing or null and holds a text.
pub open spec fn optional_text(value: Option<JsonView>) -> Result<Option<Seq<char>>, Seq<char>> {
    optional_field(value, |json: JsonView| text_of(json))
}

/// A field that may be missing or null and holds a truth value.
pub open spec fn optional_bool(value: Option<JsonView>) -> Result<Option<bool>, Seq<char>> {
    optional_field(value, |json: JsonView| bool_of(json))
}

/// A field that must be there and holds a `u64`.
pub open spec fn required_u64(value: Option<JsonView>) -> Result<Option<u64>, Seq<char>> {
    required_field(value, |json: JsonView| u64_of(json))
}

/// A field that must be there and holds an `i64`.
pub open spec fn required_i64(value: Option<JsonView>) -> Result<Option<i64>, Seq<char>> {
    required_field(value, |json: JsonView| i64_of(json))
}

/// A field that may be missing or null and holds any JSON.
pub open spec fn optional_value(value: Option<JsonView>) -> Option<JsonView> {
    match value {
        Some(JsonView::Null) => None,
        _ => value,
    }
}

/// The view of an optional text.
pub open spec fn text_view(text: Option<String>) -> Option<Seq<char>> {
    match text {
        Some(text) => Some(text@),
        None => None,
    }
}

/// The view of a text that was read, or of the message.
pub open spec fn text_read(read: Result<Option<String>, String>) -> Result<Option<Seq<char>>, Seq<char>> {
    match read {
        Ok(text) => Ok(text_view(text)),
        Err(message) => Err(message@),
    }
}

/// The view of a plain value that was read, or of the message.
pub open spec fn plain_read<T>(read: Result<T, String>) -> Result<T, Seq<char>> {
    match read {
        Ok(value) => Ok(value),
        Err(message) => Err(message@),
    }
}

/// The message for what was read, where it is wrong.
pub open spec fn problem<T>(read: Result<T, Seq<char>>) -> Option<Seq<char>> {
    match read {
        Ok(_) => None,
        Err(message) => Some(message),
    }
}

/// The message for a field that must be there, where it is missing.
pub open spec fn absent<T>(read: Result<Option<T>, Seq<char>>, name: Seq<char>) -> Option<Seq<char>> {
    match read {
        Ok(None) => Some(missing_message(name)),
        _ => None,
    }
}

/// The first of two messages that there is.
pub open spec fn first(one: Option<Seq<char>>, other: Option<Seq<char>>) -> Option<Seq<char>> {
    match one {
        Some(_) => one,
        None => other,
    }
}

/// The message for the value at a place of an array of `n` values: its own, or that the array is
/// too short.
pub open spec fn value_problem(n: nat, place: nat, expected: Seq<char>, own: Option<Seq<char>>) -> Option<Seq<char>> {
    if place < n {
        own
    } else {
        Some(length_message(place, expected))
    }
}

/// The message for an array of `n` values, where it has more than the `fields` fields.
pub open spec fn surplus(n: nat, fields: nat, expected: Seq<char>) -> Option<Seq<char>> {
    if n > fields {
        Some(length_message(n, expected))
    } else {
        None
    }
}

/// The message for a record: that for the members of an object, that for the values of an array, or
/// that it is neither.
pub open spec fn record_problem(
    json: JsonView,
    expected: Seq<char>,
    members: Option<Seq<char>>,
    values: Option<Seq<char>>,
) -> Option<Seq<char>> {
    match json {
        JsonView::Object(_) => members,
        JsonView::Array(_) => values,
        _ => Some(type_message(json, expected)),
    }
}

/// Reads a text that must be there.
pub fn read_text(value: Option<&Json>) -> (read: Result<Option<String>, String>)
    ensures
        text_read(read) == required_text(referred_json(value)),
{
    match value {
        None => Ok(None),
        Some(json) => match json.as_str() {
            Some(text) => Ok(Some(text.to_owned())),
            None => Err(wrong_type(json, "a string")),
        },
    }
}

/// Reads a text that may be missing.
pub fn read_optional_text(value: Option<&Json>) -> (read: Result<Option<String>, String>)
    ensures
        text_read(read) == optional_text(referred_json(value)),
{
    match value {
        Some(Json::Null) => Ok(None),
        _ => read_text(value),
    }
}

/// Reads a truth value that may be missing.
pub fn read_optional_bool(value: Option<&Json>) -> (read: Result<Option<bool>, String>)
    ensures
        plain_read(read) == optional_bool(referred_json(value)),
{
    match value {
        None => Ok(None),
        Some(Json::Null) => Ok(None),
        Some(json) => match json.as_bool() {
            Some(b) => Ok(Some(b)),
            None => Err(wrong_type(json, "a boolean")),
        },
    }
}

/// Reads a `u64` that must be there.
pub fn read_u64(value: Option<&Json>) -> (read: Result<Option<u64>, String>)
    ensures
        plain_read(read) == required_u64(referred_json(value)),
{
    match value {
        None => Ok(None),
        Some(json) => match json.as_u64() {
            Some(n) => Ok(Some(n)),
            None => if json.as_i64().is_some() {
                Err(wrong_value(json, "u64"))
            } else {
                Err(wrong_type(json, "u64"))
            },
        },
    }
}

/// Reads an `i64` that must be there.
pub fn read_i64(value: Option<&Json>) -> (read: Result<Option<i64>, String>)
    ensures
        plain_read(read) == required_i64(referred_json(value)),
{
    match value {
        None => Ok(None),
        Some(json) => match json.as_i64() {
            Some(n) => Ok(Some(n)),
            None => if json.as_u64().is_some() {
                Err(wrong_value(json, "i64"))
            } else {
                Err(wrong_type(json, "i64"))
            },
        },
    }
}

/// Copies a value that may be missing.
pub fn read_optional_value(value: Option<&Json>) -> (copy: Option<Json>)
    ensures
        optional_json(copy) == optional_value(referred_json(value)),
{
    match value {
        None => None,
        Some(Json::Null) => None,
        Some(json) => Some(json.clone()),
    }
}

/// Takes the message of what was read, where it is wrong.
pub fn problem_in<T>(read: &Result<T, String>) -> (message: Option<String>)
    ensures
        text_view(message) == match *read {
            Ok(_) => None,
            Err(own) => Some(own@),
        },
{
    match read {
        Ok(_) => None,
        Err(own) => Some(own.clone()),
    }
}

/// Makes the message for a field that must be there, where it is missing.
pub fn absent_in<T>(read: &Result<Option<T>, String>, name: &str) -> (message: Option<String>)
    ensures
        text_view(message) == match *read {
            Ok(None) => Some(missing_message(name@)),
            _ => None,
        },
{
    match read {
        Ok(None) => Some(missing(name)),
        _ => None,
    }
}

/// Takes the first of two messages that there is.
pub fn first_of(one: Option<String>, other: Option<String>) -> (message: Option<String>)
    ensures
        text_view(message) == first(text_view(one), text_view(other)),
{
    match one {
        Some(own) => Some(own),
        None => other,
    }
}

/// Takes the message for the value at a place of an array of `n` values: its own, or that the array
/// is too short.
pub fn problem_at(n: usize, place: usize, expected: &str, own: Option<String>) -> (message: Option<String>)
    ensures
        text_view(message) == value_problem(n as nat, place as nat, expected@, text_view(own)),
{
    if place < n {
        own
    } else {
        Some(wrong_length(place, expected))
    }
}

/// Makes the message for an array of `n` values, where it has more than the `fields` fields.
pub fn surplus_in(n: usize, fields: usize, expected: &str) -> (message: Option<String>)
    ensures
        text_view(message) == surplus(n as nat, fields as nat, expected@),
{
    if n > fields {
        Some(wrong_length(n, expected))
    } else {
        None
    }
}

/// Takes the message for a record.
pub fn check_record(json: &Json, expected: &str, members: Option<String>, values: Option<String>) -> (message: Option<
    String,
>)
    ensures
        text_view(message) == record_problem(json@, expected@, text_view(members), text_view(values)),
{
    match json {
        Json::Object(_) => members,
        Json::Array(_) => values,
        _ => Some(wrong_type(json, expected)),
    }
}

} // verus!
