//! The database gateway: query screening and read/write routing.
pub mod query_firewall;

use vstd::prelude::*;

verus! {

/// Database engines a connection can be registered for.
#[derive(Debug, Clone, Copy, PartialEq, Eq, Structural)]
pub enum DbType {
    PostgreSQL,
    MySQL,
    SQLite,
    Redis,
    MongoDB,
}

} // verus!
