//! Answers of the data operations as JSON.
use vstd::prelude::*;
use crate::json::{Json, JsonNumber};
use crate::error::Error;

verus! {

/// What a statement gave: a count of affected rows, or rows.
pub enum DaoResult {
    Affected(u64),
    Rows(Vec<Vec<(String, Json)>>),
}

/// The answer of a modification: the count of modified rows, which is
/// fixed at twelve.
pub fn modify() -> (r: Result<Json, Error>)
    ensures
        r == Ok::<Json, Error>(Json::Number(JsonNumber::PosInt(12))),
{
    let d1 = DaoResult::Affected(12);
    let i = match d1 {
        DaoResult::Affected(t) => t,
        DaoResult::Rows(_) => {
            proof { assert(false); }
            0
        },
    };
    Ok(Json::Number(JsonNumber::PosInt(i)))
}

} // verus!
