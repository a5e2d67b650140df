//! A JSON document as the library reads it: the provider replies are
//! parsed by the caller and handed in as a `JsonValue`. Numbers are held
//! as what an integer reading gives (`as_i64`), which is all the library
//! ever asks of a number.
use vstd::prelude::*;
use crate::text::str_eq;

verus! {

broadcast use vstd::string::group_string_axioms;

#[derive(Debug)]
pub enum JsonValue {
    Null,
    Bool(bool),
    /// The number as an `i64`, when it is an integer that fits.
    Number(Option<i64>),
    Str(String),
    Array(Vec<JsonValue>),
    /// The members in document order, each key once.
    Object(Vec<(String, JsonValue)>),
}

/// A borrowed optional value as an optional value.
pub open spec fn opt(v: Option<&JsonValue>) -> Option<JsonValue> {
    match v {
        Some(x) => Some(*x),
        None => None,
    }
}

/// The position of the first member named `key` at or after `i`, if any.
pub open spec fn member_from(entries: Seq<(String, JsonValue)>, key: Seq<char>, i: int) -> Option<int>
    decreases entries.len() - i,
{
    if i < 0 || i >= entries.len() {
        None
    } else if entries[i].0@ == key {
        Some(i)
    } else {
        member_from(entries, key, i + 1)
    }
}

/// `v[key]`: the member `key` of an object; `None` (JSON's null) for a
/// missing member or when `v` is not an object.
pub open spec fn field(v: Option<JsonValue>, key: Seq<char>) -> Option<JsonValue> {
    match v {
        Some(JsonValue::Object(entries)) => match member_from(entries@, key, 0) {
            Some(i) => Some(entries@[i].1),
            None => None,
        },
        _ => None,
    }
}

/// `v[i]`: the element `i` of an array; `None` when out of range or when
/// `v` is not an array.
pub open spec fn item(v: Option<JsonValue>, i: int) -> Option<JsonValue> {
    match v {
        Some(JsonValue::Array(items)) => if 0 <= i < items@.len() {
            Some(items@[i])
        } else {
            None
        },
        _ => None,
    }
}

/// `v.as_str()`.
pub open spec fn text_of(v: Option<JsonValue>) -> Option<Seq<char>> {
    match v {
        Some(JsonValue::Str(s)) => Some(s@),
        _ => None,
    }
}

/// `v.as_str().unwrap_or("")`.
pub open spec fn text_or_empty(v: Option<JsonValue>) -> Seq<char> {
    match text_of(v) {
        Some(s) => s,
        None => Seq::empty(),
    }
}

/// `v.as_i64()`.
pub open spec fn int_of(v: Option<JsonValue>) -> Option<i64> {
    match v {
        Some(JsonValue::Number(n)) => n,
        _ => None,
    }
}

pub fn get_field<'a>(v: Option<&'a JsonValue>, key: &str) -> (r: Option<&'a JsonValue>)
    ensures
        opt(r) == field(opt(v), key@),
{
    match v {
        Some(JsonValue::Object(entries)) => {
            let mut i: usize = 0;
            while i < entries.len()
                invariant
                    0 <= i <= entries@.len(),
                    member_from(entries@, key@, 0) == member_from(entries@, key@, i as int),
                    field(opt(v), key@) == match member_from(entries@, key@, 0) {
                        Some(j) => Some(entries@[j].1),
                        None => None,
                    },
                decreases entries.len() - i,
            {
                if str_eq(entries[i].0.as_str(), key) {
                    return Some(&entries[i].1);
                }
                i += 1;
            }
            None
        },
        _ => None,
    }
}

pub fn get_item<'a>(v: Option<&'a JsonValue>, i: usize) -> (r: Option<&'a JsonValue>)
    ensures
        opt(r) == item(opt(v), i as int),
{
    match v {
        Some(JsonValue::Array(items)) => {
            if i < items.len() {
                Some(&items[i])
            } else {
                None
            }
        },
        _ => None,
    }
}

pub fn text_or_empty_of(v: Option<&JsonValue>) -> (r: String)
    ensures
        r@ == text_or_empty(opt(v)),
{
    match v {
        Some(JsonValue::Str(s)) => s.clone(),
        _ => String::new(),
    }
}

pub fn int_value(v: Option<&JsonValue>) -> (r: Option<i64>)
    ensures
        r == int_of(opt(v)),
{
    match v {
        Some(JsonValue::Number(n)) => *n,
        _ => None,
    }
}

} // verus!
