//! A data access layer that turns table schemas, JSON-shaped request bodies
//! and cache operations into SQL statements, cache keys and Lua scripts.
pub mod text;
pub mod digest;
pub mod dal;
pub mod json;
pub mod error;
pub mod db;
pub mod table;
pub mod config;
pub mod discovery;
