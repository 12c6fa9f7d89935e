//! A JSON value model the verified code can read, and the parser behind it.
//!
//! Objects keep their members in the order `serde_json` yields them (sorted by
//! key, each key once); lookups take the first member with the key.

use vstd::prelude::*;

verus! {

/// A JSON number as `serde_json` classifies it.
#[derive(Debug, PartialEq)]
pub enum JsonNumber {
    /// A non-negative integer.
    PosInt(u64),
    /// A negative integer.
    NegInt(i64),
    /// Any other number, kept as its decimal text.
    Float(String),
}

/// A JSON value.
#[derive(Debug, PartialEq)]
pub enum Json {
    Null,
    Bool(bool),
    Number(JsonNumber),
    Str(String),
    Array(Vec<Json>),
    Object(Vec<(String, Json)>),
}

/// The value of the first member named `key` among `members`.
pub open spec fn lookup(members: Seq<(String, Json)>, key: Seq<char>) -> Option<Json>
    decreases members.len(),
{
    if members.len() == 0 {
        None
    } else if members[0].0@ == key {
        Some(members[0].1)
    } else {
        lookup(members.drop_first(), key)
    }
}

/// The member `key` of an object; `None` for a missing member or a non-object.
pub open spec fn get(j: Json, key: Seq<char>) -> Option<Json> {
    match j {
        Json::Object(members) => lookup(members@, key),
        _ => None,
    }
}

/// The element `i` of an array; `None` out of range or for a non-array.
pub open spec fn at(j: Json, i: int) -> Option<Json> {
    match j {
        Json::Array(items) => if 0 <= i < items@.len() {
            Some(items@[i])
        } else {
            None
        },
        _ => None,
    }
}

/// The text of a JSON string.
pub open spec fn str_of(j: Json) -> Option<Seq<char>> {
    match j {
        Json::Str(s) => Some(s@),
        _ => None,
    }
}

/// The text of `get(j, key)` when that member is a string.
pub open spec fn get_str(j: Json, key: Seq<char>) -> Option<Seq<char>> {
    match get(j, key) {
        Some(v) => str_of(v),
        None => None,
    }
}

/// The value of `get(j, key)` when that member is a non-negative integer.
pub open spec fn get_u64(j: Json, key: Seq<char>) -> Option<u64> {
    match get(j, key) {
        Some(Json::Number(JsonNumber::PosInt(n))) => Some(n),
        _ => None,
    }
}

/// The value of `get(j, key)` when that member is a boolean.
pub open spec fn get_bool(j: Json, key: Seq<char>) -> Option<bool> {
    match get(j, key) {
        Some(Json::Bool(b)) => Some(b),
        _ => None,
    }
}

/// What `serde_json` parses from `text`: the value, or the text of its error.
pub uninterp spec fn serde_parse(text: Seq<char>) -> Result<Json, Seq<char>>;

/// The member `key` of an object.
pub fn get_exec<'a>(j: &'a Json, key: &str) -> (r: Option<&'a Json>)
    ensures
        r matches Some(v) ==> get(*j, key@) == Some(*v),
        r is None ==> get(*j, key@) is None,
{
    match j {
        Json::Object(members) => {
            let mut i: usize = 0;
            assert(members@.skip(0) =~= members@);
            while i < members.len()
                invariant
                    i <= members@.len(),
                    get(*j, key@) == lookup(members@, key@),
                    lookup(members@, key@) == lookup(members@.skip(i as int), key@),
                decreases members@.len() - i,
            {
                assert(members@.skip(i as int).drop_first() =~= members@.skip(i + 1));
                assert(members@.skip(i as int)[0] == members@[i as int]);
                let entry = &members[i];
                if crate::text::str_eq(entry.0.as_str(), key) {
                    assert(entry.0@ == key@);
                    assert(lookup(members@.skip(i as int), key@) == Some(members@[i as int].1));
                    return Some(&entry.1);
                }
                i = i + 1;
            }
            assert(members@.skip(i as int) =~= Seq::<(String, Json)>::empty());
            None
        },
        _ => None,
    }
}

/// The element `i` of an array.
pub fn at_exec(j: &Json, i: usize) -> (r: Option<&Json>)
    ensures
        r matches Some(v) ==> at(*j, i as int) == Some(*v),
        r is None ==> at(*j, i as int) is None,
{
    match j {
        Json::Array(items) => if i < items.len() {
            Some(&items[i])
        } else {
            None
        },
        _ => None,
    }
}

/// The text of a JSON string.
pub fn as_str(j: &Json) -> (r: Option<&String>)
    ensures
        r matches Some(s) ==> str_of(*j) == Some(s@),
        r is None ==> str_of(*j) is None,
{
    match j {
        Json::Str(s) => Some(s),
        _ => None,
    }
}

/// The text of member `key` when it is a string.
pub fn get_str_exec<'a>(j: &'a Json, key: &str) -> (r: Option<&'a String>)
    ensures
        r matches Some(s) ==> get_str(*j, key@) == Some(s@),
        r is None ==> get_str(*j, key@) is None,
{
    match get_exec(j, key) {
        Some(v) => as_str(v),
        None => None,
    }
}

/// Member `key` when it is a non-negative integer.
pub fn get_u64_exec(j: &Json, key: &str) -> (r: Option<u64>)
    ensures
        r == get_u64(*j, key@),
{
    match get_exec(j, key) {
        Some(Json::Number(JsonNumber::PosInt(n))) => Some(*n),
        _ => None,
    }
}

/// Member `key` when it is a boolean.
pub fn get_bool_exec(j: &Json, key: &str) -> (r: Option<bool>)
    ensures
        r == get_bool(*j, key@),
{
    match get_exec(j, key) {
        Some(Json::Bool(b)) => Some(*b),
        _ => None,
    }
}

/// `serde_json`'s value type, carried through the conversion below.
#[verifier::external_type_specification]
#[verifier::external_body]
pub struct ExSerdeValue(serde_json::Value);

/// `serde_json`'s number type, carried through the conversion below.
#[verifier::external_type_specification]
#[verifier::external_body]
pub struct ExSerdeNumber(serde_json::Number);

/// Converts a parsed `serde_json` value, variant for variant.
#[verifier::external_body]
fn from_serde(v: &serde_json::Value) -> Json {
    match v {
        serde_json::Value::Null => Json::Null,
        serde_json::Value::Bool(b) => Json::Bool(*b),
        serde_json::Value::Number(n) => Json::Number(from_serde_number(n)),
        serde_json::Value::String(s) => Json::Str(s.clone()),
        serde_json::Value::Array(a) => Json::Array(a.iter().map(from_serde).collect()),
        serde_json::Value::Object(o) => Json::Object(
            o.iter().map(|(k, x)| (k.clone(), from_serde(x))).collect(),
        ),
    }
}

/// Converts a `serde_json` number by the representation it holds.
#[verifier::external_body]
fn from_serde_number(n: &serde_json::Number) -> JsonNumber {
    match (n.as_u64(), n.as_i64()) {
        (Some(u), _) => JsonNumber::PosInt(u),
        (None, Some(i)) => JsonNumber::NegInt(i),
        (None, None) => JsonNumber::Float(n.to_string()),
    }
}

/// Parses JSON text with `serde_json::from_str`; the error is the text of
/// `serde_json::Error`'s `Display`. The value and the error are a function of the
/// text alone (`serde_parse`).
#[verifier::external_body]
pub fn parse_json(text: &str) -> (r: Result<Json, String>)
    ensures
        serde_parse(text@) == (match r {
            Ok(j) => Ok::<Json, Seq<char>>(j),
            Err(e) => Err::<Json, Seq<char>>(e@),
        }),
{
    match serde_json::from_str::<serde_json::Value>(text) {
        Ok(v) => Ok(from_serde(&v)),
        Err(e) => Err(e.to_string()),
    }
}


/// What `serde_json::from_slice` makes of some bytes, when they hold one JSON value.
pub uninterp spec fn serde_parse_bytes(bytes: Seq<u8>) -> Option<Json>;

/// Parses JSON from bytes with `serde_json::from_slice`; the value (or its absence) is
/// a function of the bytes alone (`serde_parse_bytes`).
#[verifier::external_body]
pub fn parse_json_bytes(bytes: &[u8]) -> (r: Option<Json>)
    ensures
        r == serde_parse_bytes(bytes@),
{
    match serde_json::from_slice::<serde_json::Value>(bytes) {
        Ok(v) => Some(from_serde(&v)),
        Err(_) => None,
    }
}

/// Member `i` of an object when its name is `key`.
pub open spec fn member(j: Json, i: int, key: Seq<char>) -> Option<Json> {
    match j {
        Json::Object(members) => if 0 <= i < members@.len() && members@[i].0@ == key {
            Some(members@[i].1)
        } else {
            None
        },
        _ => None,
    }
}

/// The number of members of an object, or of items of an array.
pub open spec fn size(j: Json) -> int {
    match j {
        Json::Object(members) => members@.len() as int,
        Json::Array(items) => items@.len() as int,
        _ => 0,
    }
}

/// `j` is the JSON string `t`.
pub open spec fn is_text(j: Json, t: Seq<char>) -> bool {
    str_of(j) == Some(t)
}

/// A JSON string with the given text.
pub fn text(s: &str) -> (r: Json)
    ensures
        is_text(r, s@),
{
    Json::Str(String::from_str(s))
}

/// An empty JSON object.
pub fn empty_object() -> (r: Json)
    ensures
        r matches Json::Object(m) && m@.len() == 0,
{
    Json::Object(Vec::new())
}

/// The JSON schema of a tool that takes any object: `{"type":"object","properties":{}}`
/// with further properties allowed.
pub fn open_object_schema() -> (r: Json)
    ensures
        size(r) == 3,
        member(r, 0, "type"@) matches Some(t) && is_text(t, "object"@),
        member(r, 1, "properties"@) matches Some(p) && p matches Json::Object(m) && m@.len() == 0,
        member(r, 2, "additionalProperties"@) == Some(Json::Bool(true)),
{
    let mut m: Vec<(String, Json)> = Vec::new();
    m.push((String::from_str("type"), text("object")));
    m.push((String::from_str("properties"), empty_object()));
    m.push((String::from_str("additionalProperties"), Json::Bool(true)));
    Json::Object(m)
}

/// Two JSON numbers are the same number.
pub open spec fn same_number(a: JsonNumber, b: JsonNumber) -> bool {
    match (a, b) {
        (JsonNumber::PosInt(x), JsonNumber::PosInt(y)) => x == y,
        (JsonNumber::NegInt(x), JsonNumber::NegInt(y)) => x == y,
        (JsonNumber::Float(x), JsonNumber::Float(y)) => x@ == y@,
        _ => false,
    }
}

/// Two JSON values are the same value: same kind, same texts and numbers, same items
/// and members in the same order.
pub open spec fn same(a: Json, b: Json) -> bool
    decreases a,
{
    match a {
        Json::Null => b is Null,
        Json::Bool(x) => b matches Json::Bool(y) && x == y,
        Json::Number(x) => b matches Json::Number(y) && same_number(x, y),
        Json::Str(x) => b matches Json::Str(y) && x@ == y@,
        Json::Array(xs) => b matches Json::Array(ys) && xs@.len() == ys@.len() && forall|i: int|
            0 <= i < xs@.len() ==> same(#[trigger] xs@[i], ys@[i]),
        Json::Object(xs) => b matches Json::Object(ys) && xs@.len() == ys@.len() && forall|i: int|
            0 <= i < xs@.len() ==> (#[trigger] xs@[i]).0@ == ys@[i].0@ && same(xs@[i].1, ys@[i].1),
    }
}

fn copy_number(n: &JsonNumber) -> (r: JsonNumber)
    ensures
        same_number(*n, r),
{
    match n {
        JsonNumber::PosInt(x) => JsonNumber::PosInt(*x),
        JsonNumber::NegInt(x) => JsonNumber::NegInt(*x),
        JsonNumber::Float(s) => JsonNumber::Float(s.clone()),
    }
}

/// A copy of a JSON value.
pub fn copy_json(j: &Json) -> (r: Json)
    ensures
        same(*j, r),
    decreases j,
{
    match j {
        Json::Null => Json::Null,
        Json::Bool(b) => Json::Bool(*b),
        Json::Number(n) => Json::Number(copy_number(n)),
        Json::Str(s) => Json::Str(s.clone()),
        Json::Array(items) => {
            let mut out: Vec<Json> = Vec::new();
            let mut i: usize = 0;
            while i < items.len()
                invariant
                    i <= items@.len(),
                    *j == Json::Array(*items),
                    out@.len() == i,
                    forall|k: int| 0 <= k < i ==> same(#[trigger] items@[k], out@[k]),
                decreases items@.len() - i,
            {
                proof {
                    broadcast use vstd::std_specs::vec::axiom_vec_index_decreases;

                    assert(decreases_to!(*items => items[i as int]));
                    assert(decreases_to!(*j => (*j)->Array_0));
                }
                let c = copy_json(&items[i]);
                out.push(c);
                i = i + 1;
            }
            Json::Array(out)
        },
        Json::Object(members) => {
            let mut out: Vec<(String, Json)> = Vec::new();
            let mut i: usize = 0;
            while i < members.len()
                invariant
                    i <= members@.len(),
                    *j == Json::Object(*members),
                    out@.len() == i,
                    forall|k: int|
                        0 <= k < i ==> (#[trigger] members@[k]).0@ == out@[k].0@ && same(
                            members@[k].1,
                            out@[k].1,
                        ),
                decreases members@.len() - i,
            {
                proof {
                    broadcast use vstd::std_specs::vec::axiom_vec_index_decreases;

                    assert(decreases_to!(*members => members[i as int]));
                    assert(decreases_to!(*j => (*j)->Object_0));
                }
                let c = copy_json(&members[i].1);
                out.push((members[i].0.clone(), c));
                i = i + 1;
            }
            Json::Object(out)
        },
    }
}

} // verus!
