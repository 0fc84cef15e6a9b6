//! A plain model of JSON values, as read from `qemu-img info --output=json` and
//! from the QEMU Monitor Protocol, with the lookups the app makes on them.
use vstd::prelude::*;
use crate::text::str_eq;

verus! {

/// A JSON number, classified as the JSON reader classifies it.
#[derive(Debug, PartialEq, Eq)]
pub enum JsonNumber {
    /// A non-negative integer.
    PosInt(u64),
    /// A negative integer.
    NegInt(i64),
    /// Any other number, kept as its JSON text.
    Float(String),
}

/// A JSON value.
#[derive(Debug, PartialEq, Eq)]
pub enum JsonValue {
    Null,
    Bool(bool),
    Number(JsonNumber),
    Str(String),
    Array(Vec<JsonValue>),
    /// The members of an object, each key once.
    Object(Vec<JsonMember>),
}

/// One `"key": value` member of a JSON object.
#[derive(Debug, PartialEq, Eq)]
pub struct JsonMember {
    pub key: String,
    pub value: JsonValue,
}

/// The value of the first member named `key`.
pub open spec fn member_lookup(ms: Seq<JsonMember>, key: Seq<char>) -> Option<JsonValue>
    decreases ms.len(),
{
    if ms.len() == 0 {
        None
    } else if ms[0].key@ == key {
        Some(ms[0].value)
    } else {
        member_lookup(ms.drop_first(), key)
    }
}

/// The member `key` of an object; nothing for other values.
pub open spec fn json_get(v: JsonValue, key: Seq<char>) -> Option<JsonValue> {
    match v {
        JsonValue::Object(ms) => member_lookup(ms@, key),
        _ => None,
    }
}

/// The text of a string value.
pub open spec fn json_str(v: Option<JsonValue>) -> Option<Seq<char>> {
    match v {
        Some(JsonValue::Str(s)) => Some(s@),
        _ => None,
    }
}

/// The elements of an array value.
pub open spec fn json_array(v: Option<JsonValue>) -> Option<Seq<JsonValue>> {
    match v {
        Some(JsonValue::Array(a)) => Some(a@),
        _ => None,
    }
}

/// A number that is a non-negative integer fitting in `u64`.
pub open spec fn json_u64(v: Option<JsonValue>) -> Option<u64> {
    match v {
        Some(JsonValue::Number(JsonNumber::PosInt(n))) => Some(n),
        _ => None,
    }
}

/// A number that is an integer fitting in `i64`.
pub open spec fn json_i64(v: Option<JsonValue>) -> Option<i64> {
    match v {
        Some(JsonValue::Number(JsonNumber::PosInt(n))) => if n <= i64::MAX as u64 {
            Some(n as i64)
        } else {
            None
        },
        Some(JsonValue::Number(JsonNumber::NegInt(n))) => Some(n),
        _ => None,
    }
}

/// A boolean value.
pub open spec fn json_bool(v: Option<JsonValue>) -> Option<bool> {
    match v {
        Some(JsonValue::Bool(b)) => Some(b),
        _ => None,
    }
}

impl JsonValue {
    /// The member `key` of this value, when it is an object that has one.
    pub fn get<'a>(&'a self, key: &str) -> (r: Option<&'a JsonValue>)
        ensures
            match r {
                Some(x) => json_get(*self, key@) == Some(*x),
                None => json_get(*self, key@) is None,
            },
    {
        match self {
            JsonValue::Object(ms) => {
                let n = ms.len();
                let mut i: usize = 0;
                assert(ms@.skip(0) =~= ms@);
                while i < n
                    invariant
                        n == ms@.len(),
                        i <= n,
                        json_get(*self, key@) == member_lookup(ms@, key@),
                        member_lookup(ms@, key@) == member_lookup(ms@.skip(i as int), key@),
                    decreases n - i,
                {
                    proof {
                        let rest = ms@.skip(i as int);
                        assert(rest[0] == ms@[i as int]);
                        assert(rest.drop_first() =~= ms@.skip(i + 1));
                    }
                    if str_eq(ms[i].key.as_str(), key) {
                        assert(member_lookup(ms@.skip(i as int), key@) == Some(ms@[i as int].value));
                        return Some(&ms[i].value);
                    }
                    i = i + 1;
                }
                assert(ms@.skip(n as int).len() == 0);
                None
            },
            _ => None,
        }
    }
}

/// The text of `v` when it is a string.
pub fn as_str<'a>(v: Option<&'a JsonValue>) -> (r: Option<&'a str>)
    ensures
        match r {
            Some(s) => json_str(opt_value(v)) == Some(s@),
            None => json_str(opt_value(v)) is None,
        },
{
    match v {
        Some(JsonValue::Str(s)) => Some(s.as_str()),
        _ => None,
    }
}

/// The value behind an optional reference.
pub open spec fn opt_value(v: Option<&JsonValue>) -> Option<JsonValue> {
    match v {
        Some(x) => Some(*x),
        None => None,
    }
}

/// The elements of `v` when it is an array.
pub fn as_array<'a>(v: Option<&'a JsonValue>) -> (r: Option<&'a Vec<JsonValue>>)
    ensures
        match r {
            Some(a) => json_array(opt_value(v)) == Some(a@),
            None => json_array(opt_value(v)) is None,
        },
{
    match v {
        Some(JsonValue::Array(a)) => Some(a),
        _ => None,
    }
}

/// `v` as an unsigned 64-bit integer.
pub fn as_u64(v: Option<&JsonValue>) -> (r: Option<u64>)
    ensures
        r == json_u64(opt_value(v)),
{
    match v {
        Some(JsonValue::Number(JsonNumber::PosInt(n))) => Some(*n),
        _ => None,
    }
}

/// `v` as a signed 64-bit integer.
pub fn as_i64(v: Option<&JsonValue>) -> (r: Option<i64>)
    ensures
        r == json_i64(opt_value(v)),
{
    match v {
        Some(JsonValue::Number(JsonNumber::PosInt(n))) => {
            if *n <= 9223372036854775807u64 {
                Some(*n as i64)
            } else {
                None
            }
        },
        Some(JsonValue::Number(JsonNumber::NegInt(n))) => Some(*n),
        _ => None,
    }
}

/// `v` as a boolean.
pub fn as_bool(v: Option<&JsonValue>) -> (r: Option<bool>)
    ensures
        r == json_bool(opt_value(v)),
{
    match v {
        Some(JsonValue::Bool(b)) => Some(*b),
        _ => None,
    }
}

} // verus!
