//! A query-builder and connection layer in the style of an ORM backend.
pub mod errors;
pub mod types;

use vstd::prelude::*;
use vstd::string::*;
use self::errors::PhantomDBError;

verus! {

/// A connection of the ORM layer.
pub struct PhantomDBConnection {}

impl PhantomDBConnection {
    /// Opens a connection; every address is accepted.
    pub fn establish(database_url: &str) -> (r: Result<Self, PhantomDBError>)
        ensures
            r.is_ok(),
    {
        Ok(PhantomDBConnection {})
    }

    /// Runs a query; no rows are affected.
    pub fn execute(&self, query: &str) -> (r: Result<usize, PhantomDBError>)
        ensures
            r == Ok::<usize, PhantomDBError>(0),
    {
        Ok(0)
    }
}

/// The backend marker of the ORM layer.
pub struct PhantomDBBackend;

impl PhantomDBBackend {
    pub fn new() -> (r: Self) {
        PhantomDBBackend
    }
}

/// A connection that an ORM backend opens and runs queries on.
pub trait Connection {
    /// Opens a connection to `database_url`.
    fn establish(database_url: &str) -> Result<Self, PhantomDBError> where Self: Sized;

    /// Runs `query`, giving the number of rows affected.
    fn execute(&self, query: &str) -> Result<usize, PhantomDBError>;
}

/// Builds the text of a select query step by step.
pub trait QueryBuilder {
    /// The query text built so far.
    spec fn query(&self) -> Seq<char>;

    /// Starts a query that selects every column of `table`.
    fn select(&mut self, table: &str) -> (r: &mut Self)
        ensures
            r.query() == "SELECT * FROM "@ + table@,
            final(self).query() == final(r).query(),
    ;

    /// Adds a `WHERE` clause to the query built so far.
    fn filter(&mut self, condition: &str) -> (r: &mut Self)
        ensures
            r.query() == old(self).query() + " WHERE "@ + condition@,
            final(self).query() == final(r).query(),
    ;

    /// The query text.
    fn build(&self) -> (r: String)
        ensures
            r@ == self.query(),
    ;
}

/// The query builder of this backend.
pub struct PhantomDBQueryBuilder {
    query: String,
}

impl QueryBuilder for PhantomDBQueryBuilder {
    closed spec fn query(&self) -> Seq<char> {
        self.query@
    }

    fn select(&mut self, table: &str) -> (r: &mut Self) {
        let text = String::from_str("SELECT * FROM ").concat(table);
        self.query = text;
        self
    }

    fn filter(&mut self, condition: &str) -> (r: &mut Self) {
        let mut text = self.query.clone();
        text.append(" WHERE ");
        text.append(condition);
        self.query = text;
        self
    }

    fn build(&self) -> (r: String) {
        self.query.clone()
    }
}

impl PhantomDBQueryBuilder {
    /// A builder holding no query yet.
    pub fn new() -> (r: Self)
        ensures
            r.query() == Seq::<char>::empty(),
    {
        PhantomDBQueryBuilder { query: String::new() }
    }
}

} // verus!
