//! Errors of the database client.
use vstd::prelude::*;
use vstd::string::*;

verus! {

/// Relies on the `reqwest::StatusCode` type (http's status code), carried opaquely.
#[verifier::external_type_specification]
#[verifier::external_body]
pub struct ExStatusCode(reqwest::StatusCode);

/// Relies on the `serde_json::Error` type, carried opaquely.
#[verifier::external_type_specification]
#[verifier::external_body]
pub struct ExJsonError(serde_json::Error);

/// Relies on the `reqwest::Error` type, carried opaquely.
#[verifier::external_type_specification]
#[verifier::external_body]
pub struct ExRequestError(reqwest::Error);

/// Relies on the `url::ParseError` type, carried opaquely.
#[verifier::external_type_specification]
#[verifier::external_body]
pub struct ExParseError(url::ParseError);

/// Why a request to the database service failed.
#[derive(Debug)]
pub enum PhantomDBError {
    /// The service answered with a status other than success, and its text.
    HttpError(reqwest::StatusCode, String),
    /// A body could not be encoded or decoded as JSON.
    JsonError(serde_json::Error),
    /// The request could not be sent or its answer not read.
    RequestError(reqwest::Error),
    /// An address could not be parsed.
    UrlError(url::ParseError),
    /// Any other failure, described by its message.
    Custom(String),
}

impl PhantomDBError {
    /// An error carrying `message`.
    pub fn custom(message: &str) -> (r: Self)
        ensures
            r matches PhantomDBError::Custom(m) && m@ == message@,
    {
        PhantomDBError::Custom(String::from_str(message))
    }
}

} // verus!
