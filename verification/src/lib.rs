//! Extraction of structural metadata (tables, columns, indexes, foreign keys,
//! views, routines) from a relational database catalog, assembled into one
//! normalized, engine-independent metadata tree.
//!
//! The query transport is an external concern: callers run the catalog
//! queries and hand the raw rows to the functions here, which parse, group
//! and compose them into the final tree.

use vstd::prelude::*;

pub mod assemble;
pub mod compose;
pub mod defaults;
pub mod error;
pub mod group;
pub mod laws;
pub mod pg;
pub mod rows;
pub mod store;
pub mod text;
pub mod util;
pub mod version;

verus! {

/// The engine family a connection targets, selecting the catalog driver.
#[allow(non_camel_case_types)]
#[derive(Clone, PartialEq, Eq, Structural, Debug)]
pub enum Engine {
    MYSQL,
    TIDB,
    POSTGRES,
}

/// Connection parameters for one database instance.
#[derive(Clone, Debug)]
pub struct ConnectionConfig {
    pub engine: Engine,
    pub host: String,
    pub port: u16,
    pub username: String,
    pub password: String,
    pub database: String,
}

} // verus!
