//! Where the data of a database alias lives: the database and the cache.
use vstd::prelude::*;

pub mod config;

verus! {

/// The address of a database.
#[derive(Clone, Debug, PartialEq, Eq)]
pub struct DBRoute {
    pub engine: String,
    pub user: String,
    pub pass: String,
    pub addr: String,
    pub db: String,
}

} // verus!
