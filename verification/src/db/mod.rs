//! An earlier form of the cache helpers: scripts assembled from code pieces,
//! table metadata keys, and the text of plain values.
pub mod lua;
pub mod table;
pub mod value;
