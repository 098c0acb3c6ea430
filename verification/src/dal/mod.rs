//! The data access layer: cache scripts, table metadata and SQL statements.
pub mod lua;
pub mod table;
pub mod sql;
pub mod access;
pub mod db_access;
pub mod adapter;
pub mod mem;
pub mod support;
pub mod request;
