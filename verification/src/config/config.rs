//! The service configuration: the port to serve on and, for each database
//! alias, the database and the optional cache behind it.
use vstd::prelude::*;
use std::collections::HashMap;

verus! {

/// The address and credentials of a database.
#[derive(Clone, Debug, PartialEq, Eq)]
pub struct DBRoute {
    pub engine: String,
    pub user: String,
    pub passwd: String,
    pub address: String,
    pub port: i32,
    pub name: String,
}

/// The address of a cache, its database number and how long entries live.
#[derive(Clone, Debug, PartialEq, Eq)]
pub struct MemRoute {
    pub host: String,
    pub port: i32,
    pub db: i32,
    pub expire: i64,
    pub pass: String,
}

/// The database of an alias and the cache in front of it, if any.
#[derive(Clone, Debug, PartialEq, Eq)]
pub struct DataRoute {
    pub db: DBRoute,
    pub mem: Option<MemRoute>,
}

/// The port to serve on and the data routes by alias.
#[derive(Clone, Debug)]
pub struct Services {
    pub port: i32,
    pub data: HashMap<String, DataRoute>,
}

} // verus!
