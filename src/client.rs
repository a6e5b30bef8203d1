//! The client of the database service's REST interface: the address of the
//! service, the HTTP client that talks to it, and the paths of its resources.
use vstd::prelude::*;
use vstd::string::*;
use crate::error::PhantomDBError;

verus! {

/// Relies on the `reqwest::Client` type, carried opaquely.
#[verifier::external_type_specification]
#[verifier::external_body]
pub struct ExClient(reqwest::Client);

/// Seconds after which a request of the client gives up.
pub const REQUEST_TIMEOUT_SECS: u64 = 30;

/// Relies on `reqwest::ClientBuilder::timeout` and `reqwest::ClientBuilder::build`:
/// an HTTP client whose requests give up after `timeout_secs` seconds, or
/// reqwest's error where the client cannot be set up.
#[verifier::external_body]
fn build_http_client(timeout_secs: u64) -> (r: Result<reqwest::Client, reqwest::Error>) {
    reqwest::Client::builder().timeout(std::time::Duration::from_secs(timeout_secs)).build()
}

/// A client of the database service at one address.
pub struct PhantomDB {
    base_url: String,
    client: reqwest::Client,
}

impl PhantomDB {
    pub closed spec fn base_url_view(&self) -> Seq<char> {
        self.base_url@
    }

    /// A client of the service at `base_url`; fails where the HTTP client
    /// cannot be set up.
    pub fn new(base_url: &str) -> (r: Result<Self, PhantomDBError>)
        ensures
            r matches Ok(db) ==> db.base_url_view() == base_url@,
            r matches Err(e) ==> e is RequestError,
    {
        match build_http_client(REQUEST_TIMEOUT_SECS) {
            Ok(client) => Ok(PhantomDB { base_url: String::from_str(base_url), client }),
            Err(e) => Err(PhantomDBError::RequestError(e)),
        }
    }

    pub fn base_url(&self) -> (r: &str)
        ensures
            r@ == self.base_url_view(),
    {
        self.base_url.as_str()
    }

    /// The HTTP client that requests are sent with.
    pub fn http_client(&self) -> &reqwest::Client {
        &self.client
    }

    /// The full address of `endpoint` on this service.
    pub fn url_for(&self, endpoint: &str) -> (r: String)
        ensures
            r@ == self.base_url_view() + endpoint@,
    {
        self.base_url.clone().concat(endpoint)
    }
}

pub open spec fn databases_path() -> Seq<char> {
    "/databases"@
}

/// The path of the list of databases.
pub fn databases_endpoint() -> (r: String)
    ensures
        r@ == databases_path(),
{
    String::from_str("/databases")
}

/// The path of the database `name`.
pub fn database_endpoint(name: &str) -> (r: String)
    ensures
        r@ == databases_path() + "/"@ + name@,
{
    databases_endpoint().concat("/").concat(name)
}

/// The path of the tables of `database`.
pub fn tables_endpoint(database: &str) -> (r: String)
    ensures
        r@ == databases_path() + "/"@ + database@ + "/tables"@,
{
    database_endpoint(database).concat("/tables")
}

/// The path of the table `table` of `database`.
pub fn table_endpoint(database: &str, table: &str) -> (r: String)
    ensures
        r@ == databases_path() + "/"@ + database@ + "/tables"@ + "/"@ + table@,
{
    tables_endpoint(database).concat("/").concat(table)
}

/// The path of the rows of `table` of `database`, narrowed by `condition` if one is given.
pub fn rows_endpoint(database: &str, table: &str, condition: Option<&str>) -> (r: String)
    ensures
        r@ == databases_path() + "/"@ + database@ + "/tables"@ + "/"@ + table@ + match condition {
            Some(c) => "?condition="@ + c@,
            None => Seq::<char>::empty(),
        },
{
    let path = table_endpoint(database, table);
    match condition {
        Some(c) => path.concat("?condition=").concat(c),
        None => {
            assert(path@ + Seq::<char>::empty() =~= path@);
            path
        },
    }
}

/// The path that runs queries on `database`.
pub fn query_endpoint(database: &str) -> (r: String)
    ensures
        r@ == databases_path() + "/"@ + database@ + "/query"@,
{
    database_endpoint(database).concat("/query")
}

/// The path of the list of transactions.
pub fn transactions_endpoint() -> (r: String)
    ensures
        r@ == "/transactions"@,
{
    String::from_str("/transactions")
}

/// The path that commits the transaction `transaction_id`.
pub fn commit_endpoint(transaction_id: &str) -> (r: String)
    ensures
        r@ == "/transactions"@ + "/"@ + transaction_id@ + "/commit"@,
{
    transactions_endpoint().concat("/").concat(transaction_id).concat("/commit")
}

/// The path that rolls back the transaction `transaction_id`.
pub fn rollback_endpoint(transaction_id: &str) -> (r: String)
    ensures
        r@ == "/transactions"@ + "/"@ + transaction_id@ + "/rollback"@,
{
    transactions_endpoint().concat("/").concat(transaction_id).concat("/rollback")
}

} // verus!
