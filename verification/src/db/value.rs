//! The text of a plain value as the cache stores it.
use vstd::prelude::*;
use vstd::string::StringExecFns;
use crate::text::{int_decimal, push_int_decimal, push_decimal, decimal};

verus! {

/// A plain value of one of the types whose text the cache stores.
#[derive(Clone, Debug)]
pub enum Scalar {
    Text(String),
    I32(i32),
    I64(i64),
    U32(u32),
    U64(u64),
    /// A floating-point number, by the text that Rust's `Display` writes
    /// for it.
    Float(String),
    Bool(bool),
}

/// The text of a plain value: text as it is, integers in decimal, a
/// floating-point number by its text, and booleans as `TRUE` or `FALSE`.
pub open spec fn scalar_text(v: Scalar) -> Seq<char> {
    match v {
        Scalar::Text(s) => s@,
        Scalar::I32(i) => int_decimal(i as int),
        Scalar::I64(i) => int_decimal(i as int),
        Scalar::U32(u) => decimal(u as nat),
        Scalar::U64(u) => decimal(u as nat),
        Scalar::Float(t) => t@,
        Scalar::Bool(b) => if b {
            "TRUE"@
        } else {
            "FALSE"@
        },
    }
}

/// The text of a plain value.
pub fn conv_string(v: &Scalar) -> (r: String)
    ensures
        r@ == scalar_text(*v),
{
    match v {
        Scalar::Text(s) => s.clone(),
        Scalar::I32(i) => {
            let mut r = String::new();
            push_int_decimal(&mut r, *i as i64);
            r
        },
        Scalar::I64(i) => {
            let mut r = String::new();
            push_int_decimal(&mut r, *i);
            r
        },
        Scalar::U32(u) => {
            let mut r = String::new();
            push_decimal(&mut r, *u as u64);
            r
        },
        Scalar::U64(u) => {
            let mut r = String::new();
            push_decimal(&mut r, *u);
            r
        },
        Scalar::Float(t) => t.clone(),
        Scalar::Bool(b) => if *b {
            String::from_str("TRUE")
        } else {
            String::from_str("FALSE")
        },
    }
}

} // verus!
