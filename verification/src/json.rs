//! A small document model for the JSON values the gateway emits.

use crate::decimal::{decimal, decimal_text};
use vstd::prelude::*;

verus! {

/// The mathematical model of a JSON document.
///
/// An object is an ordered sequence of members; the order is the one in
/// which the members were written.
pub enum JsonValue {
    Null,
    Bool(bool),
    Number(nat),
    Text(Seq<char>),
    List(Seq<JsonValue>),
    Object(Seq<(Seq<char>, JsonValue)>),
}

/// A JSON document held in memory.
#[derive(Debug, PartialEq, Eq)]
pub enum Json {
    Null,
    Bool(bool),
    Number(u64),
    Text(String),
    List(Vec<Json>),
    Object(Vec<(String, Json)>),
}

/// The model of the document `j`.
pub open spec fn model_of(j: Json) -> JsonValue
    decreases j,
{
    match j {
        Json::Null => JsonValue::Null,
        Json::Bool(b) => JsonValue::Bool(b),
        Json::Number(n) => JsonValue::Number(n as nat),
        Json::Text(s) => JsonValue::Text(s@),
        Json::List(items) => JsonValue::List(
            Seq::new(
                items.len() as nat,
                |i: int|
                    if 0 <= i < items.len() {
                        model_of(items[i])
                    } else {
                        JsonValue::Null
                    },
            ),
        ),
        Json::Object(members) => JsonValue::Object(
            Seq::new(
                members.len() as nat,
                |i: int|
                    if 0 <= i < members.len() {
                        (members[i].0@, model_of(members[i].1))
                    } else {
                        (Seq::empty(), JsonValue::Null)
                    },
            ),
        ),
    }
}

impl View for Json {
    type V = JsonValue;

    open spec fn view(&self) -> JsonValue {
        model_of(*self)
    }
}

/// The models of a sequence of documents, in order.
pub open spec fn items_view(items: Seq<Json>) -> Seq<JsonValue> {
    Seq::new(items.len(), |i: int| model_of(items[i]))
}

/// The models of a sequence of object members, in order.
pub open spec fn members_view(members: Seq<(String, Json)>) -> Seq<(Seq<char>, JsonValue)> {
    Seq::new(members.len(), |i: int| (members[i].0@, model_of(members[i].1)))
}

impl JsonValue {
    /// The object without members.
    pub open spec fn object() -> JsonValue {
        JsonValue::Object(Seq::empty())
    }

    /// The object `self` with the member `name: value` written after its
    /// own; any other document is left as it is.
    pub open spec fn with(self, name: Seq<char>, value: JsonValue) -> JsonValue {
        match self {
            JsonValue::Object(members) => JsonValue::Object(members.push((name, value))),
            _ => self,
        }
    }
}

impl Json {
    /// The object without members.
    pub fn object() -> (j: Json)
        ensures
            j@ == JsonValue::object(),
    {
        let j = Json::Object(Vec::new());
        assert(j@->Object_0 =~= Seq::<(Seq<char>, JsonValue)>::empty());
        j
    }

    /// Writes the member `name: value` after the members of an object; any
    /// other document is returned as it is.
    pub fn with(self, name: &str, value: Json) -> (j: Json)
        ensures
            j@ == self@.with(name@, value@),
    {
        match self {
            Json::Object(mut members) => {
                let ghost before = members@;
                members.push((name.to_owned(), value));
                let j = Json::Object(members);
                assert(j@->Object_0 =~= members_view(before).push((name@, value@)));
                assert(self@->Object_0 =~= members_view(before));
                j
            },
            other => other,
        }
    }
}

/// Whether two texts hold the same characters.
pub fn same_text(a: &str, b: &str) -> (same: bool)
    ensures
        same == (a@ == b@),
{
    let left: String = a.to_owned();
    let right: String = b.to_owned();
    left == right
}

/// A text document holding a copy of `s`.
pub fn text(s: &str) -> (j: Json)
    ensures
        j@ == JsonValue::Text(s@),
{
    Json::Text(s.to_owned())
}

/// A list document holding `items`.
pub fn list(items: Vec<Json>) -> (j: Json)
    ensures
        j@ == JsonValue::List(items_view(items@)),
{
    let j = Json::List(items);
    assert(j@->List_0 =~= items_view(items@));
    j
}

/// A page of a listing: the items under `name`, and a pagination record
/// that counts them and names no further page.
pub open spec fn page_json(name: Seq<char>, items: Seq<JsonValue>) -> JsonValue {
    JsonValue::object().with(name, JsonValue::List(items)).with(
        "pagination"@,
        JsonValue::object().with("next_key"@, JsonValue::Null).with(
            "total"@,
            JsonValue::Text(decimal(items.len())),
        ),
    )
}

/// Writes the one page of a listing that holds all of `items`.
pub fn page(name: &str, items: Vec<Json>) -> (doc: Json)
    ensures
        doc@ == page_json(name@, items_view(items@)),
{
    let pagination = Json::object().with("next_key", Json::Null).with(
        "total",
        Json::Text(decimal_text(items.len() as u128)),
    );
    Json::object().with(name, list(items)).with("pagination", pagination)
}

/// The items of a list under construction, none so far.
pub fn items() -> (items: Vec<Json>)
    ensures
        items@.len() == 0,
        items_view(items@) == Seq::<JsonValue>::empty(),
{
    let items: Vec<Json> = Vec::new();
    assert(items_view(items@) =~= Seq::<JsonValue>::empty());
    items
}

/// Appends `item` to the items of a list under construction.
pub fn append(items: &mut Vec<Json>, item: Json)
    ensures
        final(items)@.len() == old(items)@.len() + 1,
        items_view(final(items)@) == items_view(old(items)@).push(item@),
{
    items.push(item);
    assert(items_view(items@) =~= items_view(old(items)@).push(item@));
}

} // verus!
