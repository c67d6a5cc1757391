//! JSON documents, built and written by `serde_json`.

use vstd::prelude::*;

use crate::text;

verus! {

/// What a JSON value holds.
pub enum Json {
    Null,
    Bool(bool),
    /// A number, as it is written.
    Number(Seq<char>),
    Text(Seq<char>),
    List(Seq<Json>),
    /// The members of an object by key.
    Object(Map<Seq<char>, Json>),
}

/// A JSON value.
#[verifier::external_type_specification]
#[verifier::external_body]
pub struct ExValue(serde_json::Value);

/// The members of an object.
#[verifier::external_type_specification]
#[verifier::external_body]
#[verifier::reject_recursive_types(K)]
#[verifier::reject_recursive_types(V)]
pub struct ExMembers<K, V>(serde_json::Map<K, V>);

/// What the members of an object are, by key.
pub uninterp spec fn members_of(m: serde_json::Map<String, serde_json::Value>) -> Map<
    Seq<char>,
    Json,
>;

/// What a value holds.
pub uninterp spec fn content(v: serde_json::Value) -> Json;

/// The compact text of a value: what `Value::to_string` writes.
pub uninterp spec fn compact_text(j: Json) -> Seq<char>;

/// The indented text of a value: what `serde_json::to_string_pretty` writes.
pub uninterp spec fn pretty_text(j: Json) -> Seq<char>;

/// `Value::Null` is the null value.
#[verifier::external_body]
pub(crate) fn null() -> (r: serde_json::Value)
    ensures
        content(r) == Json::Null,
{
    serde_json::Value::Null
}

/// `Value::Bool` holds a truth value.
#[verifier::external_body]
pub(crate) fn truth(b: bool) -> (r: serde_json::Value)
    ensures
        content(r) == Json::Bool(b),
{
    serde_json::Value::Bool(b)
}

/// `Value::from` makes a number of an unsigned integer, which is written in
/// decimal.
#[verifier::external_body]
pub(crate) fn number(n: u64) -> (r: serde_json::Value)
    ensures
        content(r) == Json::Number(text::decimal(n as nat)),
{
    serde_json::Value::from(n)
}

/// `Value::String` holds a text.
#[verifier::external_body]
pub(crate) fn string(s: &str) -> (r: serde_json::Value)
    ensures
        content(r) == Json::Text(s@),
{
    serde_json::Value::String(s.to_string())
}

pub open spec fn contents(vs: Seq<serde_json::Value>) -> Seq<Json> {
    vs.map_values(|v: serde_json::Value| content(v))
}

/// `Value::Array` holds values in order.
#[verifier::external_body]
pub(crate) fn list(vs: Vec<serde_json::Value>) -> (r: serde_json::Value)
    ensures
        content(r) == Json::List(contents(vs@)),
{
    serde_json::Value::Array(vs)
}

/// `Map::new` makes an object without members.
#[verifier::external_body]
fn no_members() -> (r: serde_json::Map<String, serde_json::Value>)
    ensures
        members_of(r) =~= map![],
{
    serde_json::Map::new()
}

/// `Map::insert` puts a member under a key; where there is one, it takes its
/// place.
#[verifier::external_body]
fn put_member(
    m: &mut serde_json::Map<String, serde_json::Value>,
    key: &str,
    v: serde_json::Value,
)
    ensures
        members_of(*final(m)) == members_of(*old(m)).insert(key@, content(v)),
{
    m.insert(key.to_string(), v);
}

/// `Value::Object` holds members by key.
#[verifier::external_body]
fn object(ms: serde_json::Map<String, serde_json::Value>) -> (r: serde_json::Value)
    ensures
        content(r) == Json::Object(members_of(ms)),
{
    serde_json::Value::Object(ms)
}

/// `Value::to_string` writes a value without spaces, the members of an object
/// in the order of their keys. The text depends on what the value holds alone.
#[verifier::external_body]
pub(crate) fn to_text(v: &serde_json::Value) -> (r: String)
    ensures
        r@ == compact_text(content(*v)),
{
    v.to_string()
}

/// The text, where there is one.
pub open spec fn written(r: Option<String>) -> Option<Seq<char>> {
    match r {
        Some(t) => Some(t@),
        None => None,
    }
}

/// `serde_json::to_string_pretty` writes a value with indentation. The text
/// depends on what the value holds alone. It fails only where a `Serialize`
/// impl decides to fail or a map has a key that is no string, and neither is
/// so of a `Value`.
#[verifier::external_body]
pub(crate) fn to_pretty_text(v: &serde_json::Value) -> (r: Option<String>)
    ensures
        written(r) == Some(pretty_text(content(*v))),
{
    serde_json::to_string_pretty(v).ok()
}

/// A text, or null where there is none.
pub open spec fn text_or_null(t: Option<String>) -> Json {
    match t {
        Some(s) => Json::Text(s@),
        None => Json::Null,
    }
}

pub(crate) fn string_or_null(t: &Option<String>) -> (r: serde_json::Value)
    ensures
        content(r) == text_or_null(*t),
{
    match t {
        Some(s) => string(s.as_str()),
        None => null(),
    }
}

/// A truth value, or null where there is none.
pub open spec fn bool_or_null(b: Option<bool>) -> Json {
    match b {
        Some(b) => Json::Bool(b),
        None => Json::Null,
    }
}

pub(crate) fn truth_or_null(b: Option<bool>) -> (r: serde_json::Value)
    ensures
        content(r) == bool_or_null(b),
{
    match b {
        Some(b) => truth(b),
        None => null(),
    }
}

/// A list of members that grows.
pub(crate) struct Members {
    all: serde_json::Map<String, serde_json::Value>,
}

impl Members {
    pub closed spec fn map(&self) -> Map<Seq<char>, Json> {
        members_of(self.all)
    }

    pub(crate) fn new() -> (r: Members)
        ensures
            r.map() == Map::<Seq<char>, Json>::empty(),
    {
        Members { all: no_members() }
    }

    pub(crate) fn put(&mut self, key: &'static str, v: serde_json::Value)
        ensures
            final(self).map() == old(self).map().insert(key@, content(v)),
    {
        put_member(&mut self.all, key, v);
    }

    pub(crate) fn put_text(&mut self, key: &'static str, s: &str)
        ensures
            final(self).map() == old(self).map().insert(key@, Json::Text(s@)),
    {
        self.put(key, string(s));
    }

    pub(crate) fn put_number(&mut self, key: &'static str, n: u64)
        ensures
            final(self).map() == old(self).map().insert(
                key@,
                Json::Number(text::decimal(n as nat)),
            ),
    {
        self.put(key, number(n));
    }

    pub(crate) fn object(self) -> (r: serde_json::Value)
        ensures
            content(r) == Json::Object(self.map()),
    {
        object(self.all)
    }
}

/// A list of one value.
pub(crate) fn only(v: serde_json::Value) -> (r: serde_json::Value)
    ensures
        content(r) == Json::List(seq![content(v)]),
{
    let vs = vec![v];
    assert(contents(vs@) =~= seq![content(v)]);
    list(vs)
}

} // verus!
