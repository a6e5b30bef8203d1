//! Errors of the ORM layer.
use vstd::prelude::*;
use vstd::string::*;

verus! {

/// Why an ORM operation failed.
#[derive(Debug)]
pub enum PhantomDBError {
    ConnectionError(String),
    QueryError(String),
    SerializationError(String),
}

impl PhantomDBError {
    /// The message shown for the error: its kind, then its detail.
    pub fn message(&self) -> (r: String)
        ensures
            r@ == match self {
                PhantomDBError::ConnectionError(m) => "Connection error: "@ + m@,
                PhantomDBError::QueryError(m) => "Query error: "@ + m@,
                PhantomDBError::SerializationError(m) => "Serialization error: "@ + m@,
            },
    {
        match self {
            PhantomDBError::ConnectionError(m) => String::from_str("Connection error: ").concat(m.as_str()),
            PhantomDBError::QueryError(m) => String::from_str("Query error: ").concat(m.as_str()),
            PhantomDBError::SerializationError(m) => String::from_str("Serialization error: ").concat(m.as_str()),
        }
    }
}

} // verus!
