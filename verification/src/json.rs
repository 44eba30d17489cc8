//! A JSON value as the Markdown renderers read it.

use vstd::prelude::*;
use crate::text::chars_equal_str;

verus! {

broadcast use vstd::string::group_string_axioms;

/// A JSON value. Numbers keep their JSON text and, when the number is an
/// integer that fits an `i64`, that integer; arrays and objects also keep
/// their compact JSON text, which is how a list item without text is shown.
/// Object entries keep the order in which the source map lists them.
#[derive(Debug)]
pub enum JsonValue {
    Null,
    Bool(bool),
    Number(String, Option<i64>),
    Str(String),
    Array(Vec<JsonValue>, String),
    Object(Vec<(String, JsonValue)>, String),
}

/// The value of the first entry named `key`.
pub open spec fn entry_value(entries: Seq<(String, JsonValue)>, key: Seq<char>) -> Option<JsonValue>
    decreases entries.len(),
{
    if entries.len() == 0 {
        None
    } else if entries[0].0@ == key {
        Some(entries[0].1)
    } else {
        entry_value(entries.drop_first(), key)
    }
}

/// The member `key` of an object (`Value::get`); nothing for other values.
pub open spec fn member(v: JsonValue, key: Seq<char>) -> Option<JsonValue> {
    match v {
        JsonValue::Object(entries, _) => entry_value(entries@, key),
        _ => None,
    }
}

/// The text of a string value (`Value::as_str`).
pub open spec fn text_of(v: Option<JsonValue>) -> Option<Seq<char>> {
    match v {
        Some(JsonValue::Str(s)) => Some(s@),
        _ => None,
    }
}

/// The compact JSON text of a value that is not a string.
pub open spec fn compact(v: JsonValue) -> Seq<char> {
    match v {
        JsonValue::Null => "null"@,
        JsonValue::Bool(b) => if b {
            "true"@
        } else {
            "false"@
        },
        JsonValue::Number(n, _) => n@,
        JsonValue::Str(s) => s@,
        JsonValue::Array(_, c) => c@,
        JsonValue::Object(_, c) => c@,
    }
}

/// Looks up a member of an object.
pub fn get<'a>(v: &'a JsonValue, key: &str) -> (r: Option<&'a JsonValue>)
    ensures
        match r {
            Some(x) => member(*v, key@) == Some(*x),
            None => member(*v, key@) == None::<JsonValue>,
        },
{
    match v {
        JsonValue::Object(entries, _) => {
            let mut i: usize = 0;
            assert(member(*v, key@) == entry_value(entries@, key@));
            assert(entries@.skip(0) == entries@);
            while i < entries.len()
                invariant
                    i <= entries.len(),
                    member(*v, key@) == entry_value(entries@, key@),
                    entry_value(entries@, key@) == entry_value(entries@.skip(i as int), key@),
                decreases entries.len() - i,
            {
                let ghost rest = entries@.skip(i as int);
                assert(rest[0] == entries@[i as int]);
                assert(rest.drop_first() == entries@.skip(i + 1));
                let chars = crate::text::chars_of(entries[i].0.as_str());
                if chars_equal_str(&chars, key) {
                    assert(rest[0].0@ == key@);
                    assert(entry_value(rest, key@) == Some(rest[0].1));
                    let found = &entries[i].1;
                    assert(*found == rest[0].1);
                    return Some(found);
                }
                i = i + 1;
            }
            assert(entries@.skip(i as int).len() == 0);
            None
        },
        _ => None,
    }
}

/// The text of a string value.
pub fn as_str<'a>(v: Option<&'a JsonValue>) -> (r: Option<&'a String>)
    ensures
        match r {
            Some(s) => text_of(match v { Some(x) => Some(*x), None => None::<JsonValue> }) == Some(s@),
            None => text_of(match v { Some(x) => Some(*x), None => None::<JsonValue> }) == None::<Seq<char>>,
        },
{
    match v {
        Some(JsonValue::Str(s)) => Some(s),
        _ => None,
    }
}


/// The integer of a number value that fits an `i64` (`Value::as_i64`).
pub open spec fn integer_of(v: Option<JsonValue>) -> Option<i64> {
    match v {
        Some(JsonValue::Number(_, i)) => i,
        _ => None,
    }
}

/// The integer of a number value, when it fits an `i64`.
pub fn as_i64(v: Option<&JsonValue>) -> (r: Option<i64>)
    ensures
        r == integer_of(match v { Some(x) => Some(*x), None => None::<JsonValue> }),
{
    match v {
        Some(JsonValue::Number(_, i)) => *i,
        _ => None,
    }
}

/// The compact JSON text of a value that is not a string.
pub fn compact_text(v: &JsonValue) -> (r: String)
    ensures
        r@ == compact(*v),
{
    match v {
        JsonValue::Null => "null".to_owned(),
        JsonValue::Bool(b) => if *b {
            "true".to_owned()
        } else {
            "false".to_owned()
        },
        JsonValue::Number(n, _) => n.clone(),
        JsonValue::Str(s) => s.clone(),
        JsonValue::Array(_, c) => c.clone(),
        JsonValue::Object(_, c) => c.clone(),
    }
}

} // verus!
