//! JSON text. Reading and printing JSON is the work of the crate `serde_json`, and describing a text
//! that was not expected that of the crate `serde`: the functions of these crates that the library
//! calls stand here, each with what the library relies on.
use crate::json::{Json, JsonView, NumberView};
use vstd::prelude::*;

verus! {

/// A JSON value of the crate `serde_json`.
#[verifier::external_type_specification]
#[verifier::external_body]
pub struct ExValue(serde_json::Value);

/// A JSON number of the crate `serde_json`.
#[verifier::external_type_specification]
#[verifier::external_body]
pub struct ExNumber(serde_json::Number);

/// What a `serde_json::Value` holds.
pub uninterp spec fn value_contents(value: serde_json::Value) -> JsonView;

/// What a `serde_json::Number` holds.
pub uninterp spec fn number_contents(number: serde_json::Number) -> NumberView;

/// What `serde_json::from_str` reads in a text as a `serde_json::Value`, or its message where it
/// refuses the text.
pub uninterp spec fn parsed_json(text: Seq<char>) -> Result<JsonView, Seq<char>>;

/// The text that `serde_json::to_string` prints for a value with these contents.
pub uninterp spec fn printed_json(value: JsonView) -> Seq<char>;

/// The bits of the double that `serde_json::Number::as_f64` gives for a number with these contents.
pub uninterp spec fn number_double(number: NumberView) -> u64;

/// How `serde` describes a text that came where something else was expected: the text that
/// `serde::de::Unexpected::Str` displays for it.
pub uninterp spec fn described_text(text: Seq<char>) -> Seq<char>;

/// A member of an object as text: its name, a colon and its value.
pub open spec fn member_text(member: (Seq<char>, JsonView)) -> Seq<char> {
    printed_json(JsonView::String(member.0)) + seq![':'] + printed_json(member.1)
}

/// The members of an object as text, with a comma between two of them.
pub open spec fn members_text(members: Seq<(Seq<char>, JsonView)>) -> Seq<char>
    decreases members.len(),
{
    if members.len() == 0 {
        Seq::empty()
    } else if members.len() == 1 {
        member_text(members[0])
    } else {
        members_text(members.drop_last()) + seq![','] + member_text(members.last())
    }
}

/// An object as text, with its members in the given order.
pub open spec fn object_text(members: Seq<(Seq<char>, JsonView)>) -> Seq<char> {
    seq!['{'] + members_text(members) + seq!['}']
}

/// The members that a list of names and values gives an object: of several with one name the last
/// one counts.
pub open spec fn object_members(members: Seq<(Seq<char>, JsonView)>) -> Map<Seq<char>, JsonView>
    decreases members.len(),
{
    if members.len() == 0 {
        Map::empty()
    } else {
        object_members(members.drop_last()).insert(members.last().0, members.last().1)
    }
}

/// The value holds whole numbers only, and arrays and objects are nested in it at most `depth`
/// deep.
pub open spec fn plain_json(value: JsonView, depth: nat) -> bool
    decreases depth,
{
    match value {
        JsonView::Number(NumberView::Unsigned(_)) => true,
        JsonView::Number(NumberView::Negative(n)) => n < 0,
        JsonView::Number(NumberView::Float(_)) => false,
        JsonView::Array(items) => depth > 0 && forall|i: int|
            0 <= i < items.len() ==> plain_json(#[trigger] items[i], (depth - 1) as nat),
        JsonView::Object(members) => depth > 0 && members.dom().finite() && forall|name: Seq<char>| #[trigger]
            members.contains_key(name) ==> plain_json(members[name], (depth - 1) as nat),
        _ => true,
    }
}

/// Every member of the list is plain, nested at most `depth` deep.
pub open spec fn plain_members(members: Seq<(Seq<char>, JsonView)>, depth: nat) -> bool {
    forall|i: int| 0 <= i < members.len() ==> plain_json((#[trigger] members[i]).1, depth)
}

/// The text holds no character below the space, so neither a line feed nor a carriage return.
pub open spec fn printable(text: Seq<char>) -> bool {
    forall|i: int| 0 <= i < text.len() ==> #[trigger] text[i] >= ' '
}

/// What a reader made of a text: a value, or the message of its error.
pub open spec fn value_read(result: Result<serde_json::Value, String>) -> Result<JsonView, Seq<char>> {
    match result {
        Ok(value) => Ok(value_contents(value)),
        Err(message) => Err(message@),
    }
}

/// Where the text is that of an object whose members are plain and not nested too deep for the
/// reader, which goes 127 levels down, `read` is that object.
pub open spec fn reads_back(text: Seq<char>, read: Result<JsonView, Seq<char>>) -> bool {
    forall|members: Seq<(Seq<char>, JsonView)>|
        text == #[trigger] object_text(members) && plain_members(members, 126) ==> read == Ok::<
            JsonView,
            Seq<char>,
        >(JsonView::Object(object_members(members)))
}

/// `serde_json::from_str`, read as a `serde_json::Value`, with its error given by its message. It
/// depends on the text alone. It reads an object back from what `serde_json::to_string` prints for
/// the names and the values of the members, as long as the members hold no floating-point number,
/// which may come back a little different, and stay below the depth at which the reader gives up.
#[verifier::external_body]
fn from_str(text: &str) -> (result: Result<serde_json::Value, String>)
    ensures
        value_read(result) == parsed_json(text@),
        reads_back(text@, value_read(result)),
{
    serde_json::from_str(text).map_err(|error| error.to_string())
}

/// `serde_json::to_string`, applied to a `serde_json::Value`. It prints every such value, its text
/// depends on what the value holds alone, and no character of the text is below the space.
#[verifier::external_body]
fn to_string(value: &serde_json::Value) -> (text: String)
    ensures
        text@ == printed_json(value_contents(*value)),
        printable(text@),
{
    serde_json::to_string(value).unwrap()
}

/// Takes a `serde_json::Value` apart: the same value as a `Json`.
#[verifier::external_body]
fn take_apart(value: serde_json::Value) -> (json: Json)
    ensures
        json@ == value_contents(value),
{
    match value {
        serde_json::Value::Null => Json::Null,
        serde_json::Value::Bool(b) => Json::Bool(b),
        serde_json::Value::Number(n) => Json::Number(n),
        serde_json::Value::String(s) => Json::String(s),
        serde_json::Value::Array(items) => Json::Array(items.into_iter().map(take_apart).collect()),
        serde_json::Value::Object(members) => Json::Object(
            members.into_iter().map(|(name, member)| (name, take_apart(member))).collect(),
        ),
    }
}

/// Puts a `serde_json::Value` together from a `Json`; members enter an object one after the other
/// with `serde_json::Map::insert`, which replaces the value of a name that is there already.
#[verifier::external_body]
fn put_together(json: Json) -> (value: serde_json::Value)
    ensures
        value_contents(value) == json@,
{
    match json {
        Json::Null => serde_json::Value::Null,
        Json::Bool(b) => serde_json::Value::Bool(b),
        Json::Number(n) => serde_json::Value::Number(n),
        Json::String(s) => serde_json::Value::String(s),
        Json::Array(items) => serde_json::Value::Array(items.into_iter().map(put_together).collect()),
        Json::Object(entries) => {
            let mut members = serde_json::Map::new();
            for (name, member) in entries {
                members.insert(name, put_together(member));
            }
            serde_json::Value::Object(members)
        },
    }
}

/// `serde_json::Number::clone`: the copy holds the same number.
pub assume_specification[ <serde_json::Number as Clone>::clone ](number: &serde_json::Number) -> (copy: serde_json::Number)
    ensures
        number_contents(copy) == number_contents(*number),
;

/// `serde_json::Number::from`, for a `u64`: the number holds the given one.
#[verifier::external_body]
pub(crate) fn number_from_u64(n: u64) -> (number: serde_json::Number)
    ensures
        number_contents(number) == NumberView::Unsigned(n),
{
    serde_json::Number::from(n)
}

/// `serde_json::Number::as_u64`: a whole number from zero up, and nothing else.
#[verifier::external_body]
pub(crate) fn number_as_u64(number: &serde_json::Number) -> (result: Option<u64>)
    ensures
        result == number_contents(*number).as_u64(),
{
    number.as_u64()
}

/// `serde_json::Number::as_i64`: a whole number in the range of `i64`, and nothing else.
#[verifier::external_body]
pub(crate) fn number_as_i64(number: &serde_json::Number) -> (result: Option<i64>)
    ensures
        result == number_contents(*number).as_i64(),
{
    number.as_i64()
}

/// `serde_json::Number::as_f64`, given by the bits of the double: a number that is no whole number
/// as it is, a whole number as the double that the conversion gives.
#[verifier::external_body]
pub(crate) fn number_as_f64(number: &serde_json::Number) -> (result: Option<u64>)
    ensures
        result == Some(number_double(number_contents(*number))),
        number_contents(*number) matches NumberView::Float(bits) ==> result == Some(bits),
{
    number.as_f64().map(|double| double.to_bits())
}

/// `serde::de::Unexpected::Str`, displayed: it depends on the text alone.
#[verifier::external_body]
pub(crate) fn describe_text(text: &str) -> (description: String)
    ensures
        description@ == described_text(text@),
{
    serde::de::Unexpected::Str(text).to_string()
}

/// Reads a JSON text.
pub fn parse_json(text: &str) -> (result: Result<Json, String>)
    ensures
        match result {
            Ok(json) => parsed_json(text@) == Ok::<JsonView, Seq<char>>(json@),
            Err(message) => parsed_json(text@) == Err::<JsonView, Seq<char>>(message@),
        },
        reads_back(text@, parsed_json(text@)),
{
    match from_str(text) {
        Ok(value) => Ok(take_apart(value)),
        Err(message) => Err(message),
    }
}

/// Prints a JSON value without spaces or line breaks.
pub fn print_json(json: Json) -> (text: String)
    ensures
        text@ == printed_json(json@),
        printable(text@),
{
    to_string(&put_together(json))
}

/// A `serde_json::Value` as a `Json`.
pub fn json_from_value(value: serde_json::Value) -> (json: Json)
    ensures
        json@ == value_contents(value),
{
    take_apart(value)
}

/// A `Json` as a `serde_json::Value`.
pub fn json_into_value(json: Json) -> (value: serde_json::Value)
    ensures
        value_contents(value) == json@,
{
    put_together(json)
}

/// The view of a list of members.
pub open spec fn members_of(entries: Seq<(String, Json)>) -> Seq<(Seq<char>, JsonView)> {
    Seq::new(entries.len(), |i: int| (entries[i].0@, entries[i].1@))
}

/// Prints an object with its members in the given order.
pub fn print_object(entries: &Vec<(String, Json)>) -> (text: String)
    ensures
        text@ == object_text(members_of(entries@)),
        printable(text@),
{
    let mut text: String = "{".to_owned();
    proof {
        reveal_strlit("{");
        reveal_strlit("}");
        reveal_strlit(",");
        reveal_strlit(":");
    }
    let ghost members = members_of(entries@);
    assert(members.take(0) =~= Seq::empty());
    assert(text@ =~= seq!['{'] + members_text(members.take(0)));
    let mut i: usize = 0;
    while i < entries.len()
        invariant
            i <= entries@.len(),
            members == members_of(entries@),
            text@ == seq!['{'] + members_text(members.take(i as int)),
            printable(text@),
            ","@ == seq![','],
            ":"@ == seq![':'],
        decreases entries@.len() - i,
    {
        let ghost before = text@;
        if i > 0 {
            text.append(",");
        }
        let name = print_json(Json::String(entries[i].0.clone()));
        text.append(name.as_str());
        text.append(":");
        let value = print_json(entries[i].1.clone());
        text.append(value.as_str());
        proof {
            let done = members.take(i + 1);
            assert(done.drop_last() =~= members.take(i as int));
            assert(done.last() == members[i as int]);
            assert(members[i as int] == (entries@[i as int].0@, entries@[i as int].1@));
            if i > 0 {
                assert(text@ =~= before + seq![','] + member_text(members[i as int]));
            } else {
                assert(text@ =~= before + member_text(members[i as int]));
            }
            assert(text@ =~= seq!['{'] + members_text(done));
        }
        i += 1;
    }
    text.append("}");
    assert(members.take(members.len() as int) =~= members);
    assert(text@ =~= object_text(members));
    text
}

} // verus!
