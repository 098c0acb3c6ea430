//! The errors of the library's own logic.
use vstd::prelude::*;

verus! {

#[derive(Debug, PartialEq)]
pub enum Error {
    /// A request that the library refuses, with the reason in words.
    CommonError { info: String },
    /// The `operator` of a set of conditions is a float, an array or an
    /// object.  The message for it, `invalid format at token operator:`
    /// followed by that value's JSON text, is written by the caller from the
    /// request, since the library does not write JSON text of these values.
    /// (An operator that is null, a boolean or an integer gives a
    /// `CommonError` with that message.)
    OperatorNotText,
}

} // verus!
