//! Table metadata and its cache keys; the same tables as the data access
//! layer's.
pub use crate::dal::table::{Table, TableSchema, Field};
