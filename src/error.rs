//! The failures a call into the acme-dns API can end in.

use reqwest::Error as TransportError;
use serde_json::Error as JsonError;
use url::ParseError;
use vstd::prelude::*;

verus! {

/// A URL that could not be parsed, from the `url` crate.
#[verifier::external_type_specification]
#[verifier::external_body]
pub struct ExUrlParseError(ParseError);

/// A transport failure, from the `reqwest` crate (`reqwest::Error`).
#[verifier::external_type_specification]
#[verifier::external_body]
pub struct ExHttpError(TransportError);

/// A JSON document that could not be read, from the `serde_json` crate
/// (`serde_json::Error`).
#[verifier::external_type_specification]
#[verifier::external_body]
pub struct ExJsonError(JsonError);

/// Why a client operation failed.
#[derive(Debug)]
pub enum Error {
    /// The base URL, or an endpoint joined onto it, is not a valid URL.
    Url(ParseError),
    /// The HTTP transport failed.
    Http(TransportError),
    /// A body that should hold JSON does not.
    Json(JsonError),
    /// The server answered with a status other than the one the operation
    /// expects; `body` is the response text as received.
    UnexpectedStatus { status: u16, body: String },
    /// A required configuration variable is not set.
    MissingEnv(&'static str),
}

} // verus!
