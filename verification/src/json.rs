//! JSON values.
use crate::codec::{number_as_f64, number_as_i64, number_as_u64, number_contents, number_double, number_from_u64};
use vstd::prelude::*;

verus! {

/// What a JSON number holds: a whole number, or a floating-point number given by the bits of its
/// IEEE 754 double.
pub enum NumberView {
    /// A whole number from zero up.
    Unsigned(u64),
    /// A whole number below zero.
    Negative(i64),
    /// Any other number, by its bit pattern.
    Float(u64),
}

impl NumberView {
    /// The number as a `u64`, where it is one.
    pub open spec fn as_u64(self) -> Option<u64> {
        match self {
            NumberView::Unsigned(n) => Some(n),
            _ => None,
        }
    }

    /// The number as an `i64`, where it is one.
    pub open spec fn as_i64(self) -> Option<i64> {
        match self {
            NumberView::Unsigned(n) => if n <= i64::MAX {
                Some(n as i64)
            } else {
                None
            },
            NumberView::Negative(n) => Some(n),
            NumberView::Float(_) => None,
        }
    }
}

/// The mathematical model of a JSON value. The members of an object have no order.
#[verifier::ext_equal]
pub enum JsonView {
    Null,
    Bool(bool),
    Number(NumberView),
    String(Seq<char>),
    Array(Seq<JsonView>),
    Object(Map<Seq<char>, JsonView>),
}

/// A JSON value.
#[derive(Debug)]
pub enum Json {
    Null,
    Bool(bool),
    Number(serde_json::Number),
    String(String),
    Array(Vec<Json>),
    /// The members of an object. Of several members with one name the last one counts.
    Object(Vec<(String, Json)>),
}

/// The members that a list of name and value pairs gives an object.
pub open spec fn members_view(entries: Seq<(String, Json)>) -> Map<Seq<char>, JsonView>
    decreases entries,
{
    if entries.len() == 0 {
        Map::empty()
    } else {
        members_view(entries.drop_last()).insert(entries.last().0@, entries.last().1.view())
    }
}

impl Json {
    pub open spec fn view(self) -> JsonView
        decreases self,
    {
        match self {
            Json::Null => JsonView::Null,
            Json::Bool(b) => JsonView::Bool(b),
            Json::Number(n) => JsonView::Number(number_contents(n)),
            Json::String(s) => JsonView::String(s@),
            Json::Array(items) => JsonView::Array(
                Seq::new(items@.len(), |i: int| if 0 <= i < items@.len() { items@[i].view() } else { JsonView::Null }),
            ),
            Json::Object(entries) => JsonView::Object(members_view(entries@)),
        }
    }
}

/// One more entry adds its member to the object.
proof fn lemma_members_step(entries: Seq<(String, Json)>, n: int)
    requires
        0 < n <= entries.len(),
    ensures
        members_view(entries.take(n)) == members_view(entries.take(n - 1)).insert(
            entries[n - 1].0@,
            entries[n - 1].1@,
        ),
{
    assert(entries.take(n).drop_last() =~= entries.take(n - 1));
}

/// A list of members that reads like another one, pair by pair, gives the same object.
proof fn lemma_members_equal(a: Seq<(String, Json)>, b: Seq<(String, Json)>)
    requires
        a.len() == b.len(),
        forall|i: int| 0 <= i < a.len() ==> (#[trigger] a[i]).0@ == b[i].0@ && a[i].1@ == b[i].1@,
    ensures
        members_view(a) == members_view(b),
    decreases a.len(),
{
    if a.len() > 0 {
        lemma_members_equal(a.drop_last(), b.drop_last());
        assert(a[a.len() - 1] == a.last());
    }
}

impl Clone for Json {
    fn clone(&self) -> (copy: Self)
        ensures
            copy@ == self@,
        decreases self,
    {
        match self {
            Json::Null => Json::Null,
            Json::Bool(b) => Json::Bool(*b),
            Json::Number(n) => Json::Number(n.clone()),
            Json::String(s) => Json::String(s.clone()),
            Json::Array(items) => {
                let mut copies: Vec<Json> = Vec::new();
                let mut i: usize = 0;
                while i < items.len()
                    invariant
                        i <= items@.len(),
                        copies@.len() == i,
                        decreases_to!(self => items),
                        forall|k: int| 0 <= k < i ==> (#[trigger] copies@[k])@ == items@[k]@,
                    decreases items@.len() - i,
                {
                    copies.push(items[i].clone());
                    i += 1;
                }
                let copy = Json::Array(copies);
                assert(copy@->Array_0 =~= self@->Array_0);
                copy
            },
            Json::Object(entries) => {
                let mut copies: Vec<(String, Json)> = Vec::new();
                let mut i: usize = 0;
                while i < entries.len()
                    invariant
                        i <= entries@.len(),
                        copies@.len() == i,
                        decreases_to!(self => entries),
                        forall|k: int|
                            0 <= k < i ==> (#[trigger] copies@[k]).0@ == entries@[k].0@ && copies@[k].1@ == entries@[k].1@,
                    decreases entries@.len() - i,
                {
                    copies.push((entries[i].0.clone(), entries[i].1.clone()));
                    i += 1;
                }
                proof {
                    lemma_members_equal(copies@, entries@);
                }
                Json::Object(copies)
            },
        }
    }
}

impl JsonView {
    /// The member of an object that is called `name`; nothing else has members.
    pub open spec fn member(self, name: Seq<char>) -> Option<JsonView> {
        match self {
            JsonView::Object(members) => if members.contains_key(name) {
                Some(members[name])
            } else {
                None
            },
            _ => None,
        }
    }

    /// The text of a string.
    pub open spec fn as_text(self) -> Option<Seq<char>> {
        match self {
            JsonView::String(text) => Some(text),
            _ => None,
        }
    }

    /// The truth value of a boolean.
    pub open spec fn as_bool(self) -> Option<bool> {
        match self {
            JsonView::Bool(b) => Some(b),
            _ => None,
        }
    }

    /// The number as a `u64`, where the value is one.
    pub open spec fn as_u64(self) -> Option<u64> {
        match self {
            JsonView::Number(number) => number.as_u64(),
            _ => None,
        }
    }

    /// The number as an `i64`, where the value is one.
    pub open spec fn as_i64(self) -> Option<i64> {
        match self {
            JsonView::Number(number) => number.as_i64(),
            _ => None,
        }
    }

    /// The bits of the number as a double, where the value is a number: a floating-point number as
    /// it is, a whole number as the double that it is converted to.
    pub open spec fn as_double(self) -> Option<u64> {
        match self {
            JsonView::Number(NumberView::Float(bits)) => Some(bits),
            JsonView::Number(number) => Some(number_double(number)),
            _ => None,
        }
    }
}

/// The view of an optional reference to a JSON value.
pub open spec fn referred_json(value: Option<&Json>) -> Option<JsonView> {
    match value {
        Some(json) => Some(json@),
        None => None,
    }
}

/// The view of an optional JSON value.
pub open spec fn optional_json(value: Option<Json>) -> Option<JsonView> {
    match value {
        Some(json) => Some(json@),
        None => None,
    }
}

impl Json {
    /// The member of an object that is called `name`.
    pub fn get(&self, name: &str) -> (member: Option<&Json>)
        ensures
            match member {
                Some(json) => self@.member(name@) == Some(json@),
                None => self@.member(name@) is None,
            },
    {
        match self {
            Json::Object(entries) => {
                let key: String = name.to_owned();
                let mut n: usize = entries.len();
                proof {
                    assert(entries@.take(n as int) =~= entries@);
                }
                while n > 0
                    invariant
                        n <= entries@.len(),
                        key@ == name@,
                        self@ == JsonView::Object(members_view(entries@)),
                        members_view(entries@).contains_key(name@) <==> members_view(
                            entries@.take(n as int),
                        ).contains_key(name@),
                        members_view(entries@).contains_key(name@) ==> members_view(entries@)[name@]
                            == members_view(entries@.take(n as int))[name@],
                    decreases n,
                {
                    proof {
                        lemma_members_step(entries@, n as int);
                    }
                    let entry = &entries[n - 1];
                    if entry.0 == key {
                        return Some(&entry.1);
                    }
                    n -= 1;
                }
                proof {
                    assert(entries@.take(0) =~= Seq::empty());
                }
                None
            },
            _ => None,
        }
    }

    /// The text of a string.
    pub fn as_str(&self) -> (text: Option<&str>)
        ensures
            match text {
                Some(text) => self@.as_text() == Some(text@),
                None => self@.as_text() is None,
            },
    {
        match self {
            Json::String(text) => Some(text.as_str()),
            _ => None,
        }
    }

    /// The truth value of a boolean.
    pub fn as_bool(&self) -> (b: Option<bool>)
        ensures
            b == self@.as_bool(),
    {
        match self {
            Json::Bool(b) => Some(*b),
            _ => None,
        }
    }

    /// The number as a `u64`, where the value is one.
    pub fn as_u64(&self) -> (n: Option<u64>)
        ensures
            n == self@.as_u64(),
    {
        match self {
            Json::Number(number) => number_as_u64(number),
            _ => None,
        }
    }

    /// The number as an `i64`, where the value is one.
    pub fn as_i64(&self) -> (n: Option<i64>)
        ensures
            n == self@.as_i64(),
    {
        match self {
            Json::Number(number) => number_as_i64(number),
            _ => None,
        }
    }

    /// The bits of the number as a double, where the value is a number.
    pub fn as_double(&self) -> (bits: Option<u64>)
        ensures
            bits == self@.as_double(),
    {
        match self {
            Json::Number(number) => number_as_f64(number),
            _ => None,
        }
    }

    /// The JSON number for a `u64`.
    pub fn from_u64(n: u64) -> (json: Json)
        ensures
            json@ == JsonView::Number(NumberView::Unsigned(n)),
    {
        Json::Number(number_from_u64(n))
    }

    /// The JSON string for a text.
    pub fn from_text(text: &str) -> (json: Json)
        ensures
            json@ == JsonView::String(text@),
    {
        Json::String(text.to_owned())
    }
}

/// Adds a member to the members of an object.
pub fn add_member(entries: &mut Vec<(String, Json)>, name: &str, value: Json)
    ensures
        members_view(final(entries)@) == members_view(old(entries)@).insert(name@, value@),
{
    let ghost before = entries@;
    entries.push((name.to_owned(), value));
    assert(entries@.drop_last() =~= before);
}

} // verus!
