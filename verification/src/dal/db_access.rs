//! The statement kinds, as the first statement builder named them.
pub use crate::dal::access::DML;
