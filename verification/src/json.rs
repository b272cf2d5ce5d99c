//! JSON documents as plain values.
//!
//! The gateway builds search requests and reads search responses. Both are
//! JSON; this module holds them as a tree of plain values, so that the
//! functions that build and read them can say exactly which tree they build
//! and what they read from one.

use vstd::prelude::*;
use vstd::string::StringExecFns;
use crate::text::str_eq;

verus! {

/// A JSON number.
#[derive(Clone, Debug, PartialEq, Eq)]
pub enum JsonNumber {
    /// A number without fraction that is zero or more.
    Unsigned(u64),
    /// A number without fraction that is below zero.
    Negative(i64),
    /// Any other number, held as the text that writes it.
    Decimal(String),
}

/// A JSON document.
#[derive(Debug, PartialEq, Eq)]
pub enum JsonValue {
    Null,
    Bool(bool),
    Number(JsonNumber),
    Text(String),
    Array(Vec<JsonValue>),
    /// The members of an object, in the order in which they were written.
    Object(Vec<(String, JsonValue)>),
}

/// What a [`JsonNumber`] stands for.
pub enum JsonNumberView {
    Unsigned(u64),
    Negative(i64),
    Decimal(Seq<char>),
}

/// What a [`JsonValue`] stands for: the same tree over sequences.
pub enum JsonView {
    Null,
    Bool(bool),
    Number(JsonNumberView),
    Text(Seq<char>),
    Array(Seq<JsonView>),
    Object(Seq<(Seq<char>, JsonView)>),
}

impl View for JsonNumber {
    type V = JsonNumberView;

    open spec fn view(&self) -> JsonNumberView {
        match self {
            JsonNumber::Unsigned(n) => JsonNumberView::Unsigned(*n),
            JsonNumber::Negative(n) => JsonNumberView::Negative(*n),
            JsonNumber::Decimal(text) => JsonNumberView::Decimal(text@),
        }
    }
}

/// What `value` stands for.
pub open spec fn view_of(value: JsonValue) -> JsonView
    decreases value,
{
    match value {
        JsonValue::Null => JsonView::Null,
        JsonValue::Bool(b) => JsonView::Bool(b),
        JsonValue::Number(n) => JsonView::Number(n@),
        JsonValue::Text(text) => JsonView::Text(text@),
        JsonValue::Array(items) => JsonView::Array(
            Seq::new(
                items@.len(),
                |i: int|
                    if 0 <= i < items@.len() {
                        view_of(items@[i])
                    } else {
                        JsonView::Null
                    },
            ),
        ),
        JsonValue::Object(members) => JsonView::Object(
            Seq::new(
                members@.len(),
                |i: int|
                    if 0 <= i < members@.len() {
                        (members@[i].0@, view_of(members@[i].1))
                    } else {
                        (Seq::empty(), JsonView::Null)
                    },
            ),
        ),
    }
}

impl View for JsonValue {
    type V = JsonView;

    open spec fn view(&self) -> JsonView {
        view_of(*self)
    }
}

/// The views of the items of an array, in order.
pub open spec fn array_view(items: Seq<JsonValue>) -> Seq<JsonView> {
    Seq::new(items.len(), |i: int| items[i]@)
}

/// The views of the members of an object, in order.
pub open spec fn members_view(members: Seq<(String, JsonValue)>) -> Seq<(Seq<char>, JsonView)> {
    Seq::new(members.len(), |i: int| (members[i].0@, members[i].1@))
}

/// An array's view is the array of its items' views.
pub proof fn lemma_array_view(items: Vec<JsonValue>)
    ensures
        JsonValue::Array(items)@ == JsonView::Array(array_view(items@)),
{
    assert(JsonValue::Array(items)@->Array_0 =~= array_view(items@));
}

/// An object's view is the object of its members' views.
pub proof fn lemma_object_view(members: Vec<(String, JsonValue)>)
    ensures
        JsonValue::Object(members)@ == JsonView::Object(members_view(members@)),
{
    assert(JsonValue::Object(members)@->Object_0 =~= members_view(members@));
}

/// The value that an object's members give to `key`: that of the last member
/// written under that key, or none.
pub open spec fn lookup(members: Seq<(Seq<char>, JsonView)>, key: Seq<char>) -> Option<JsonView>
    decreases members.len(),
{
    if members.len() == 0 {
        None
    } else if members.last().0 == key {
        Some(members.last().1)
    } else {
        lookup(members.drop_last(), key)
    }
}

impl JsonView {
    /// The object whose one member is `inner` under `key`.
    pub open spec fn object1(key: Seq<char>, inner: JsonView) -> JsonView {
        JsonView::Object(seq![(key, inner)])
    }

    /// The number that holds `n`, which is zero or more.
    pub open spec fn unsigned(n: u64) -> JsonView {
        JsonView::Number(JsonNumberView::Unsigned(n))
    }

    /// What indexing by `key` gives: the member's value where `self` is an
    /// object that has the key, and null in every other case.
    pub open spec fn member(self, key: Seq<char>) -> JsonView {
        match self {
            JsonView::Object(members) => match lookup(members, key) {
                Some(value) => value,
                None => JsonView::Null,
            },
            _ => JsonView::Null,
        }
    }
}

impl JsonValue {
    /// A JSON string holding `text`.
    pub fn text(text: &str) -> (value: JsonValue)
        ensures
            value@ == JsonView::Text(text@),
    {
        JsonValue::Text(String::from_str(text))
    }

    /// A JSON number holding `n`.
    pub fn unsigned(n: u64) -> (value: JsonValue)
        ensures
            value@ == JsonView::unsigned(n),
    {
        JsonValue::Number(JsonNumber::Unsigned(n))
    }

    /// A JSON number holding `n`, whatever its sign.
    pub fn integer(n: i64) -> (value: JsonValue)
        ensures
            value@ == integer_view(n as int),
    {
        if n < 0 {
            JsonValue::Number(JsonNumber::Negative(n))
        } else {
            JsonValue::Number(JsonNumber::Unsigned(n as u64))
        }
    }

    /// A JSON array of `items`.
    pub fn array(items: Vec<JsonValue>) -> (value: JsonValue)
        ensures
            value@ == JsonView::Array(array_view(items@)),
    {
        proof {
            lemma_array_view(items);
        }
        JsonValue::Array(items)
    }

    /// A JSON object with one member.
    pub fn object1(key: &str, inner: JsonValue) -> (value: JsonValue)
        ensures
            value@ == JsonView::object1(key@, inner@),
    {
        let mut members: Vec<(String, JsonValue)> = Vec::new();
        members.push((String::from_str(key), inner));
        proof {
            lemma_object_view(members);
            assert(members_view(members@) =~= seq![(key@, inner@)]);
        }
        JsonValue::Object(members)
    }

    /// A JSON object without members.
    pub fn empty_object() -> (value: JsonValue)
        ensures
            value@ == JsonView::Object(Seq::empty()),
    {
        let members: Vec<(String, JsonValue)> = Vec::new();
        proof {
            lemma_object_view(members);
            assert(members_view(members@) =~= Seq::empty());
        }
        JsonValue::Object(members)
    }

    /// Adds a member to an object, after those it has. A document that is no
    /// object stays as it is.
    pub fn with_member(self, key: &str, inner: JsonValue) -> (value: JsonValue)
        ensures
            self@ is Object ==> value@ == JsonView::Object(self@->Object_0.push((key@, inner@))),
            !(self@ is Object) ==> value == self,
    {
        match self {
            JsonValue::Object(mut members) => {
                let ghost before = members;
                members.push((String::from_str(key), inner));
                proof {
                    lemma_object_view(before);
                    lemma_object_view(members);
                    assert(members_view(members@) =~= members_view(before@).push((key@, inner@)));
                }
                JsonValue::Object(members)
            },
            other => other,
        }
    }

    /// The value under `key`, where `self` is an object that has the key: of
    /// several members under the key, the last. Indexing by the key gives
    /// null in every other case.
    pub fn member(&self, key: &str) -> (found: Option<&JsonValue>)
        ensures
            match found {
                Some(value) => value@ == self@.member(key@) && self@ is Object && lookup(
                    self@->Object_0,
                    key@,
                ) is Some,
                None => self@.member(key@) == JsonView::Null && (self@ is Object ==> lookup(
                    self@->Object_0,
                    key@,
                ) is None),
            },
    {
        match self {
            JsonValue::Object(members) => {
                proof {
                    lemma_object_view(*members);
                    assert(members_view(members@).take(members.len() as int) =~= members_view(
                        members@,
                    ));
                }
                let mut i: usize = members.len();
                while i > 0
                    invariant
                        i <= members.len(),
                        self@ is Object,
                        self@->Object_0 == members_view(members@),
                        lookup(members_view(members@), key@) == lookup(
                            members_view(members@).take(i as int),
                            key@,
                        ),
                    decreases i,
                {
                    i -= 1;
                    let ghost prefix = members_view(members@).take(i + 1);
                    assert(prefix.last() == members_view(members@)[i as int]);
                    assert(prefix.drop_last() =~= members_view(members@).take(i as int));
                    if str_eq(members[i].0.as_str(), key) {
                        return Some(&members[i].1);
                    }
                }
                assert(members_view(members@).take(0).len() == 0);
                None
            },
            _ => None,
        }
    }

    /// The items, where `self` is an array.
    pub fn as_array(&self) -> (items: Option<&Vec<JsonValue>>)
        ensures
            match items {
                Some(items) => self@ == JsonView::Array(array_view(items@)),
                None => !(self@ is Array),
            },
    {
        match self {
            JsonValue::Array(items) => {
                proof {
                    lemma_array_view(*items);
                }
                Some(items)
            },
            _ => None,
        }
    }

    /// The text, where `self` is a string.
    pub fn as_text(&self) -> (text: Option<&str>)
        ensures
            match text {
                Some(text) => self@ == JsonView::Text(text@),
                None => !(self@ is Text),
            },
    {
        match self {
            JsonValue::Text(text) => Some(text.as_str()),
            _ => None,
        }
    }

    /// The number, where `self` is a number without fraction that is zero or
    /// more.
    pub fn as_u64(&self) -> (n: Option<u64>)
        ensures
            match n {
                Some(n) => self@ == JsonView::unsigned(n),
                None => !(self@ matches JsonView::Number(JsonNumberView::Unsigned(_))),
            },
    {
        match self {
            JsonValue::Number(JsonNumber::Unsigned(n)) => Some(*n),
            _ => None,
        }
    }
}

/// The view of the JSON number that holds `n`.
pub open spec fn integer_view(n: int) -> JsonView {
    if n < 0 {
        JsonView::Number(JsonNumberView::Negative(n as i64))
    } else {
        JsonView::unsigned(n as u64)
    }
}

} // verus!
