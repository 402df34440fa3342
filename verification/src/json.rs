//! JSON documents as web services send and receive them, and the lookups made
//! in them. A lookup that finds nothing gives `None`, which plays the part of
//! JSON `null`.
use vstd::prelude::*;
use crate::text::{chars_eq, chars_of};

verus! {

pub enum JsonNumber {
    /// A non-negative integer.
    PosInt(u64),
    /// A negative integer.
    NegInt(i64),
    /// A number with a fraction or exponent (its value is not kept).
    Float,
}

/// A JSON value; an object keeps its members in order, and a lookup by name
/// takes the first member with that name.
pub enum Json {
    Null,
    Bool(bool),
    Number(JsonNumber),
    String(String),
    Array(Vec<Json>),
    Object(Vec<(String, Json)>),
}

/// The value a reference points to, if any.
pub open spec fn deref(o: Option<&Json>) -> Option<Json> {
    match o {
        Some(r) => Some(*r),
        None => None,
    }
}

/// The first member named `key` among `members[k..]`.
pub open spec fn member_from(members: Seq<(String, Json)>, key: Seq<char>, k: int) -> Option<Json>
    decreases members.len() - k,
{
    if k < 0 || k >= members.len() {
        None
    } else if members[k].0@ == key {
        Some(members[k].1)
    } else {
        member_from(members, key, k + 1)
    }
}

/// `value[key]`: the member named `key` of an object.
pub open spec fn member(v: Option<Json>, key: Seq<char>) -> Option<Json> {
    match v {
        Some(Json::Object(members)) => member_from(members@, key, 0),
        _ => None,
    }
}

/// `value.as_array().and_then(|a| a.first())`.
pub open spec fn first_item(v: Option<Json>) -> Option<Json> {
    match v {
        Some(Json::Array(items)) => if items@.len() > 0 {
            Some(items@[0])
        } else {
            None
        },
        _ => None,
    }
}

/// `value.as_str()`.
pub open spec fn text(v: Option<Json>) -> Option<Seq<char>> {
    match v {
        Some(Json::String(s)) => Some(s@),
        _ => None,
    }
}

/// `value.as_u64()`.
pub open spec fn unsigned(v: Option<Json>) -> Option<u64> {
    match v {
        Some(Json::Number(JsonNumber::PosInt(n))) => Some(n),
        _ => None,
    }
}

/// Whether the value is an object.
pub open spec fn is_object(v: Option<Json>) -> bool {
    v matches Some(Json::Object(_))
}

/// `value[key]`.
pub fn get<'a>(v: Option<&'a Json>, key: &str) -> (r: Option<&'a Json>)
    ensures
        deref(r) == member(deref(v), key@),
{
    let k = chars_of(key);
    match v {
        Some(Json::Object(members)) => {
            let mut i: usize = 0;
            while i < members.len()
                invariant
                    i <= members.len(),
                    k@ == key@,
                    deref(v) == Some(Json::Object(*members)),
                    member_from(members@, key@, 0) == member_from(members@, key@, i as int),
                decreases members.len() - i,
            {
                let name = chars_of(members[i].0.as_str());
                if chars_eq(name.as_slice(), k.as_slice()) {
                    return Some(&members[i].1);
                }
                i = i + 1;
            }
            None
        },
        _ => None,
    }
}

/// `value.as_array().and_then(|a| a.first())`.
pub fn first<'a>(v: Option<&'a Json>) -> (r: Option<&'a Json>)
    ensures
        deref(r) == first_item(deref(v)),
{
    match v {
        Some(Json::Array(items)) => {
            if items.len() > 0 {
                Some(&items[0])
            } else {
                None
            }
        },
        _ => None,
    }
}

/// `value.as_str()`.
pub fn as_text<'a>(v: Option<&'a Json>) -> (r: Option<&'a String>)
    ensures
        match r {
            Some(s) => text(deref(v)) == Some(s@),
            None => text(deref(v)) is None,
        },
{
    match v {
        Some(Json::String(s)) => Some(s),
        _ => None,
    }
}

/// `value.as_u64()`.
pub fn as_unsigned(v: Option<&Json>) -> (r: Option<u64>)
    ensures
        r == unsigned(deref(v)),
{
    match v {
        Some(Json::Number(JsonNumber::PosInt(n))) => Some(*n),
        _ => None,
    }
}

/// Whether the value is an object.
pub fn object_check(v: Option<&Json>) -> (r: bool)
    ensures
        r == is_object(deref(v)),
{
    match v {
        Some(Json::Object(_)) => true,
        _ => false,
    }
}

/// `value.as_str().map(String::from)`.
pub fn owned_text(v: Option<&Json>) -> (r: Option<String>)
    ensures
        match r {
            Some(s) => text(deref(v)) == Some(s@),
            None => text(deref(v)) is None,
        },
{
    match as_text(v) {
        Some(s) => Some(s.clone()),
        None => None,
    }
}

} // verus!
