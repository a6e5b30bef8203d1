//! Records exchanged with the database service.
use vstd::prelude::*;

verus! {

/// A column of a table: its name and its type.
#[derive(Debug, Clone)]
pub struct Column {
    pub name: String,
    pub type_: String,
}

/// A database, by name.
#[derive(Debug, Clone)]
pub struct DatabaseInfo {
    pub name: String,
}

/// A table, by name.
#[derive(Debug, Clone)]
pub struct TableInfo {
    pub name: String,
}

} // verus!
