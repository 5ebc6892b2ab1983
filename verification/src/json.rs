//! A JSON value as the library reads it: the documents that the search
//! index stores and the request bodies that the search service accepts.

use vstd::prelude::*;

use crate::text::{all_digits, chars_of, digits_value, parse_u64_digits, same_text};

verus! {

/// A JSON value. Numbers are kept as the text that `serde_json` writes for
/// them; object members keep the order in which the parser produced them.
pub enum JsonValue {
    Null,
    Bool(bool),
    Number(String),
    Str(String),
    Array(Vec<JsonValue>),
    Object(Vec<(String, JsonValue)>),
}

/// Position of the first member named `key`.
pub open spec fn member_index(entries: Seq<(String, JsonValue)>, key: Seq<char>) -> Option<nat>
    decreases entries.len(),
{
    if entries.len() == 0 {
        None
    } else if entries[0].0@ == key {
        Some(0)
    } else {
        match member_index(entries.drop_first(), key) {
            Some(k) => Some(k + 1),
            None => None,
        }
    }
}

/// `v.get(key)`: the member named `key` of an object, nothing otherwise.
pub open spec fn json_get(v: JsonValue, key: Seq<char>) -> Option<JsonValue> {
    match v {
        JsonValue::Object(entries) => match member_index(entries@, key) {
            Some(k) => Some(entries@[k as int].1),
            None => None,
        },
        _ => None,
    }
}

/// `v.get(i)`: element `i` of an array, nothing otherwise.
pub open spec fn json_at(v: JsonValue, i: int) -> Option<JsonValue> {
    match v {
        JsonValue::Array(items) => if 0 <= i < items.len() {
            Some(items@[i])
        } else {
            None
        },
        _ => None,
    }
}

/// `v[key]` where a missing value stands for `null`.
pub open spec fn index_key(v: Option<JsonValue>, key: Seq<char>) -> Option<JsonValue> {
    match v {
        Some(x) => json_get(x, key),
        None => None,
    }
}

/// `v[i]` where a missing value stands for `null`.
pub open spec fn index_pos(v: Option<JsonValue>, i: int) -> Option<JsonValue> {
    match v {
        Some(x) => json_at(x, i),
        None => None,
    }
}

/// `as_str()`.
pub open spec fn json_text(v: Option<JsonValue>) -> Option<Seq<char>> {
    match v {
        Some(JsonValue::Str(s)) => Some(s@),
        _ => None,
    }
}

/// `as_bool()`.
pub open spec fn json_bool(v: Option<JsonValue>) -> Option<bool> {
    match v {
        Some(JsonValue::Bool(b)) => Some(b),
        _ => None,
    }
}

/// `is_array()`.
pub open spec fn json_is_array(v: Option<JsonValue>) -> bool {
    v matches Some(JsonValue::Array(_))
}

/// `as_u64()`: a number written as plain digits that fits in a `u64`.
pub open spec fn json_u64(v: Option<JsonValue>) -> Option<u64> {
    match v {
        Some(JsonValue::Number(n)) => if all_digits(n@) && digits_value(n@) <= u64::MAX {
            Some(digits_value(n@) as u64)
        } else {
            None
        },
        _ => None,
    }
}

/// The text of a stored field, which the index hands back either as a
/// string or as an array whose first element is the string.
pub open spec fn field_text(v: Option<JsonValue>) -> Seq<char> {
    let t = if json_is_array(v) {
        json_text(index_pos(v, 0))
    } else {
        json_text(v)
    };
    match t {
        Some(s) => s,
        None => Seq::empty(),
    }
}

/// A borrowed optional value, read as a value.
pub open spec fn deref_opt(r: Option<&JsonValue>) -> Option<JsonValue> {
    match r {
        Some(x) => Some(*x),
        None => None,
    }
}

impl JsonValue {
    /// The member named `key` of an object.
    pub fn get(&self, key: &str) -> (r: Option<&JsonValue>)
        ensures
            deref_opt(r) == json_get(*self, key@),
    {
        match self {
            JsonValue::Object(entries) => {
                let mut i: usize = 0;
                assert(entries@.skip(0) == entries@);
                while i < entries.len()
                    invariant
                        i <= entries.len(),
                        *self == JsonValue::Object(*entries),
                        member_index(entries@, key@) == match member_index(
                            entries@.skip(i as int),
                            key@,
                        ) {
                            Some(k) => Some((k + i) as nat),
                            None => None::<nat>,
                        },
                    decreases entries.len() - i,
                {
                    assert(entries@.skip(i as int)[0] == entries@[i as int]);
                    if same_text(entries[i].0.as_str(), key) {
                        assert(member_index(entries@.skip(i as int), key@) == Some(0nat));
                        assert(member_index(entries@, key@) == Some(i as nat));
                        return Some(&entries[i].1);
                    }
                    assert(entries@.skip(i as int).drop_first() == entries@.skip(i + 1));
                    i = i + 1;
                }
                None
            },
            _ => None,
        }
    }

    /// Element `i` of an array.
    pub fn at(&self, i: usize) -> (r: Option<&JsonValue>)
        ensures
            deref_opt(r) == json_at(*self, i as int),
    {
        match self {
            JsonValue::Array(items) => if i < items.len() {
                Some(&items[i])
            } else {
                None
            },
            _ => None,
        }
    }
}

/// `v[key]` on a value that may be missing.
pub fn index_key_of<'a>(v: Option<&'a JsonValue>, key: &str) -> (r: Option<&'a JsonValue>)
    ensures
        deref_opt(r) == index_key(deref_opt(v), key@),
{
    match v {
        Some(x) => x.get(key),
        None => None,
    }
}

/// `v[i]` on a value that may be missing.
pub fn index_pos_of<'a>(v: Option<&'a JsonValue>, i: usize) -> (r: Option<&'a JsonValue>)
    ensures
        deref_opt(r) == index_pos(deref_opt(v), i as int),
{
    match v {
        Some(x) => x.at(i),
        None => None,
    }
}

/// `as_str()` on a value that may be missing.
pub fn text_of(v: Option<&JsonValue>) -> (r: Option<&String>)
    ensures
        r matches Some(s) ==> json_text(deref_opt(v)) == Some(s@),
        r is None ==> json_text(deref_opt(v)) is None,
{
    match v {
        Some(JsonValue::Str(s)) => Some(s),
        _ => None,
    }
}

/// `as_bool()` on a value that may be missing.
pub fn bool_of(v: Option<&JsonValue>) -> (r: Option<bool>)
    ensures
        r == json_bool(deref_opt(v)),
{
    match v {
        Some(JsonValue::Bool(b)) => Some(*b),
        _ => None,
    }
}

/// `is_array()` on a value that may be missing.
pub fn is_array(v: Option<&JsonValue>) -> (r: bool)
    ensures
        r == json_is_array(deref_opt(v)),
{
    match v {
        Some(JsonValue::Array(_)) => true,
        _ => false,
    }
}

/// `as_u64()` on a value that may be missing.
pub fn u64_of(v: Option<&JsonValue>) -> (r: Option<u64>)
    ensures
        r == json_u64(deref_opt(v)),
{
    match v {
        Some(JsonValue::Number(n)) => {
            let cs = chars_of(n.as_str());
            parse_u64_digits(cs.as_slice())
        },
        _ => None,
    }
}

/// The text of a stored field: the string itself, or the first element of
/// an array of strings, or empty.
pub fn extract_string(val: Option<&JsonValue>) -> (r: String)
    ensures
        r@ == field_text(deref_opt(val)),
{
    let t = if is_array(val) {
        text_of(index_pos_of(val, 0))
    } else {
        text_of(val)
    };
    match t {
        Some(s) => s.clone(),
        None => String::new(),
    }
}

/// The text of member `field`: a string, or the first element of an array
/// of strings, or empty when the member is missing or holds something else.
pub open spec fn member_text(val: JsonValue, field: Seq<char>) -> Seq<char> {
    match json_get(val, field) {
        Some(v) => match v {
            JsonValue::Array(items) => if items.len() > 0 {
                match json_text(Some(items@[0])) {
                    Some(s) => s,
                    None => Seq::empty(),
                }
            } else {
                match json_text(Some(v)) {
                    Some(s) => s,
                    None => Seq::empty(),
                }
            },
            _ => match json_text(Some(v)) {
                Some(s) => s,
                None => Seq::empty(),
            },
        },
        None => Seq::empty(),
    }
}

/// Reads member `field` of a stored document as text.
pub fn extract_from_json(val: &JsonValue, field: &str) -> (r: String)
    ensures
        r@ == member_text(*val, field@),
{
    match val.get(field) {
        Some(v) => {
            if let JsonValue::Array(items) = v {
                if items.len() > 0 {
                    return match text_of(Some(&items[0])) {
                        Some(s) => s.clone(),
                        None => String::new(),
                    };
                }
            }
            match text_of(Some(v)) {
                Some(s) => s.clone(),
                None => String::new(),
            }
        },
        None => String::new(),
    }
}

} // verus!
