//! JSON values as the SQL builder reads them.
//!
//! A number keeps the three forms of a JSON number: a non-negative integer,
//! a negative integer, or a floating-point number, which is held by the text
//! that Rust's `Display` writes for it (a text that reads back as the same
//! number).  An object keeps its entries in the order in which
//! it is walked (by key), each key once.
use vstd::prelude::*;
use vstd::string::StringExecFns;
use crate::text::{decimal, int_decimal, push_decimal, push_int_decimal};

verus! {

#[derive(Clone, Debug, PartialEq)]
pub enum JsonNumber {
    PosInt(u64),
    NegInt(i64),
    /// A floating-point number, by its shortest round-trip decimal text.
    Float(String),
}

/// A JSON value.  An object is the list of its entries as the service's
/// map walks them: by key, each key once.  No function of the library
/// relies on that: each is exact for any list of entries, a lookup taking
/// the first entry for a key and a statement taking the entries in the
/// list's order.
#[derive(Debug, PartialEq)]
pub enum Json {
    Null,
    Bool(bool),
    Number(JsonNumber),
    String(String),
    Array(Vec<Json>),
    Object(Vec<(String, Json)>),
}

/// The value under `key` among the entries, if any.
pub open spec fn entry_value(entries: Seq<(String, Json)>, key: Seq<char>) -> Option<Json>
    decreases entries.len(),
{
    if entries.len() == 0 {
        None
    } else if entries[0].0@ == key {
        Some(entries[0].1)
    } else {
        entry_value(entries.drop_first(), key)
    }
}

/// What `get` on a JSON value gives for a key: the entry of an object,
/// nothing for any other value.
pub open spec fn json_get(v: Json, key: Seq<char>) -> Option<Json> {
    match v {
        Json::Object(entries) => entry_value(entries@, key),
        _ => None,
    }
}

/// Looks up the entry under `key`.
pub fn entries_get<'a>(entries: &'a Vec<(String, Json)>, key: &str) -> (r: Option<&'a Json>)
    ensures
        r matches Some(v) ==> entry_value(entries@, key@) == Some(*v),
        r is None ==> entry_value(entries@, key@) is None,
{
    let mut i: usize = 0;
    assert(entries@.skip(0) =~= entries@);
    while i < entries.len()
        invariant
            i <= entries.len(),
            entry_value(entries@, key@) == entry_value(entries@.skip(i as int), key@),
        decreases entries.len() - i,
    {
        assert(entries@.skip(i as int).drop_first() =~= entries@.skip(i as int + 1));
        if crate::text::str_eq(entries[i].0.as_str(), key) {
            return Some(&entries[i].1);
        }
        i = i + 1;
    }
    None
}

/// The cache text of a JSON value: a string as itself, an integer in
/// decimal, a float by its text, `null`, `true` and `false` as JSON writes
/// them.  An array or an object has no text here: its text is its JSON
/// serialisation, which the service writes.
pub open spec fn json_text(j: Json) -> Option<Seq<char>> {
    match j {
        Json::String(s) => Some(s@),
        Json::Number(JsonNumber::PosInt(u)) => Some(decimal(u as nat)),
        Json::Number(JsonNumber::NegInt(i)) => Some(int_decimal(i as int)),
        Json::Number(JsonNumber::Float(t)) => Some(t@),
        Json::Null => Some("null"@),
        Json::Bool(b) => Some(if b { "true"@ } else { "false"@ }),
        _ => None,
    }
}

/// The cache text of a JSON value that is not an array or an object.
pub fn cache_text(j: &Json) -> (r: Option<String>)
    ensures
        r is None <==> json_text(*j) is None,
        r matches Some(t) ==> json_text(*j) == Some(t@),
{
    match j {
        Json::String(s) => Some(s.clone()),
        Json::Number(JsonNumber::PosInt(u)) => {
            let mut t = String::new();
            push_decimal(&mut t, *u);
            Some(t)
        },
        Json::Number(JsonNumber::NegInt(i)) => {
            let mut t = String::new();
            push_int_decimal(&mut t, *i);
            Some(t)
        },
        Json::Number(JsonNumber::Float(t)) => Some(t.clone()),
        Json::Null => Some(String::from_str("null")),
        Json::Bool(b) => if *b {
            Some(String::from_str("true"))
        } else {
            Some(String::from_str("false"))
        },
        _ => None,
    }
}

} // verus!
