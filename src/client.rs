//! The acme-dns client: what each operation sends, and how each answer is
//! read. Sending is left to the caller, who hands back the status and text
//! of the response.

use crate::credentials::{string_views, Credentials};
use crate::error::Error;
use crate::json::{registration_body, registration_json, update_body, update_json};
use vstd::prelude::*;

verus! {

/// An absolute URL, from the `url` crate.
#[verifier::external_type_specification]
#[verifier::external_body]
pub struct ExUrl(url::Url);

/// An HTTP client handle, from the `reqwest` crate.
#[verifier::external_type_specification]
#[verifier::external_body]
pub struct ExHttpClient(reqwest::Client);

/// A parsed JSON document, from the `serde_json` crate.
#[verifier::external_type_specification]
#[verifier::external_body]
pub struct ExJsonValue(serde_json::Value);

/// Whether `url::Url::parse` accepts `s` as an absolute URL.
pub uninterp spec fn url_parses(s: Seq<char>) -> bool;

/// Whether `url::Url::parse` accepts `base` and `url::Url::join` then
/// resolves `path` against it.
pub uninterp spec fn url_joins(base: Seq<char>, path: Seq<char>) -> bool;

/// The text of the URL that `url::Url::join` gives for `path` against the
/// URL that `url::Url::parse` reads from `base`.
pub uninterp spec fn url_joined(base: Seq<char>, path: Seq<char>) -> Seq<char>;

/// Whether `serde_json` reads `s` as one JSON document.
pub uninterp spec fn json_parses(s: Seq<char>) -> bool;

/// Relies on `url::Url::parse`: it succeeds exactly on the strings it
/// accepts as absolute URLs.
#[verifier::external_body]
fn parse_url(s: &str) -> (r: Result<url::Url, url::ParseError>)
    ensures
        r is Ok <==> url_parses(s@),
{
    url::Url::parse(s)
}

/// Relies on `url::Url::parse` of `base` and `url::Url::join` of `path`
/// onto it; the joined URL is handed back as its text.
#[verifier::external_body]
fn join_url(base: &str, path: &str) -> (r: Result<String, url::ParseError>)
    ensures
        r is Ok <==> url_joins(base@, path@),
        r is Ok ==> r->Ok_0@ == url_joined(base@, path@),
{
    match url::Url::parse(base) {
        Ok(u) => u.join(path).map(String::from),
        Err(e) => Err(e),
    }
}

/// Relies on `reqwest::ClientBuilder::build` on the default builder: with
/// no TLS backend compiled in, it has no failing path.
#[verifier::external_body]
fn default_http_client() -> (r: Result<reqwest::Client, reqwest::Error>)
    ensures
        r is Ok,
{
    reqwest::Client::builder().build()
}

/// Relies on `serde_json::from_str` into a `serde_json::Value`: it succeeds
/// exactly on the texts that hold one JSON document.
#[verifier::external_body]
fn parse_json(text: &str) -> (r: Result<serde_json::Value, serde_json::Error>)
    ensures
        r is Ok <==> json_parses(text@),
{
    serde_json::from_str(text)
}

/// Names the base URL of the API.
pub const API_BASE_VAR: &'static str = "ACME_DNS_API_BASE";

/// The HTTP method of a request.
#[derive(Debug, Clone, Copy, PartialEq, Eq, Structural)]
pub enum Method {
    Get,
    Post,
}

/// The three calls of the API.
#[derive(Debug, Clone, Copy, PartialEq, Eq, Structural)]
pub enum Operation {
    Register,
    Update,
    Health,
}

/// The path of an operation, relative to the base URL.
pub open spec fn path_of(op: Operation) -> Seq<char> {
    match op {
        Operation::Register => "register"@,
        Operation::Update => "update"@,
        Operation::Health => "health"@,
    }
}

/// The one status that means success for an operation: 201 (Created) for
/// registration, 200 (OK) for the others.
pub open spec fn status_of(op: Operation) -> u16 {
    match op {
        Operation::Register => 201,
        Operation::Update => 200,
        Operation::Health => 200,
    }
}

/// The HTTP method of an operation.
pub open spec fn method_of(op: Operation) -> Method {
    match op {
        Operation::Health => Method::Get,
        _ => Method::Post,
    }
}

impl Operation {
    /// The path of the operation, relative to the base URL.
    pub fn path(self) -> (r: &'static str)
        ensures
            r@ == path_of(self),
    {
        match self {
            Operation::Register => "register",
            Operation::Update => "update",
            Operation::Health => "health",
        }
    }

    /// The status that means success for the operation.
    pub fn expected_status(self) -> (r: u16)
        ensures
            r == status_of(self),
    {
        match self {
            Operation::Register => 201,
            Operation::Update => 200,
            Operation::Health => 200,
        }
    }

    /// The HTTP method of the operation.
    pub fn method(self) -> (r: Method)
        ensures
            r == method_of(self),
    {
        match self {
            Operation::Health => Method::Get,
            _ => Method::Post,
        }
    }
}

/// A request ready to be sent: method, absolute URL, headers in order, and
/// body.
#[derive(Debug)]
pub struct ApiRequest {
    pub method: Method,
    pub url: String,
    pub headers: Vec<(String, String)>,
    pub body: Option<String>,
}

/// The names and values held by a list of headers.
pub open spec fn header_views(h: Seq<(String, String)>) -> Seq<(Seq<char>, Seq<char>)> {
    h.map_values(|p: (String, String)| (p.0@, p.1@))
}

/// The headers of a request with a JSON body and no credentials.
pub open spec fn json_headers() -> Seq<(Seq<char>, Seq<char>)> {
    seq![("Content-Type"@, "application/json"@)]
}

/// The headers of an update request: the credentials' username and
/// password, then the JSON content type.
pub open spec fn update_headers(c: Credentials) -> Seq<(Seq<char>, Seq<char>)> {
    seq![
        ("X-Api-User"@, c.username@),
        ("X-Api-Key"@, c.password@),
        ("Content-Type"@, "application/json"@),
    ]
}

/// Whether `r` reports that the server answered `status` with `body`.
pub open spec fn is_unexpected(r: Result<(), Error>, status: u16, body: Seq<char>) -> bool {
    r matches Err(Error::UnexpectedStatus { status: s, body: b }) && s == status && b@ == body
}

/// The text a health check reports for a body that was read (`Some`) or
/// could not be (`None`).
pub open spec fn body_text(body: Option<Seq<char>>) -> Seq<char> {
    match body {
        Some(b) => b,
        None => Seq::empty(),
    }
}

/// Whether `r` is what a health check makes of a response with `status`
/// and `body`: success on 200, else the status and the body text.
pub open spec fn is_health_result(r: Result<(), Error>, status: u16, body: Option<Seq<char>>) -> bool {
    if status == status_of(Operation::Health) {
        r is Ok
    } else {
        is_unexpected(r, status, body_text(body))
    }
}

/// The status and body text that a failed call reports.
pub open spec fn reported(r: Result<(), Error>) -> Option<(u16, Seq<char>)> {
    match r {
        Err(Error::UnexpectedStatus { status, body }) => Some((status, body@)),
        _ => None,
    }
}

/// Repeated health checks against a server that answers the same way each
/// time come to the same result: both succeed, or both fail with the same
/// status and body text.
pub proof fn health_check_is_repeatable(
    status: u16,
    body: Option<Seq<char>>,
    first: Result<(), Error>,
    second: Result<(), Error>,
)
    requires
        is_health_result(first, status, body),
        is_health_result(second, status, body),
    ensures
        first is Ok <==> second is Ok,
        reported(first) == reported(second),
{
}

fn json_content_type() -> (r: (String, String))
    ensures
        r.0@ == "Content-Type"@,
        r.1@ == "application/json"@,
{
    (String::from_str("Content-Type"), String::from_str("application/json"))
}

/// An error for a response whose status is not the expected one.
fn unexpected(status: u16, body: String) -> (r: Result<(), Error>)
    ensures
        is_unexpected(r, status, body@),
{
    Err(Error::UnexpectedStatus { status, body })
}

/// Reads the response to an update: success on 200, else the status and
/// the response text as an error.
pub fn update_response(status: u16, text: String) -> (r: Result<(), Error>)
    ensures
        status == status_of(Operation::Update) ==> r is Ok,
        status != status_of(Operation::Update) ==> is_unexpected(r, status, text@),
{
    if status != Operation::Update.expected_status() {
        return unexpected(status, text);
    }
    Ok(())
}

/// Reads the response to a health check: success on 200, else the status
/// and the response text as an error, with an empty text where the body
/// could not be read (`None`).
pub fn health_response(status: u16, body: Option<String>) -> (r: Result<(), Error>)
    ensures
        is_health_result(
            r,
            status,
            match body {
                Some(b) => Some(b@),
                None => None,
            },
        ),
{
    if status != Operation::Health.expected_status() {
        let text = match body {
            Some(b) => b,
            None => String::new(),
        };
        return unexpected(status, text);
    }
    Ok(())
}

/// Reads the response to a registration: on 201 the text must be one JSON
/// document, and is returned for decoding into credentials; any other
/// status gives the status and the response text as an error.
pub fn register_response(status: u16, text: String) -> (r: Result<String, Error>)
    ensures
        status != status_of(Operation::Register) ==> (r matches Err(
            Error::UnexpectedStatus { status: s, body: b },
        ) && s == status && b@ == text@),
        status == status_of(Operation::Register) ==> (r is Ok <==> json_parses(text@)),
        status == status_of(Operation::Register) && r is Err ==> r matches Err(Error::Json(_)),
        r is Ok ==> r->Ok_0@ == text@,
{
    if status != Operation::Register.expected_status() {
        return Err(Error::UnexpectedStatus { status, body: text });
    }
    match parse_json(text.as_str()) {
        Ok(_) => Ok(text),
        Err(e) => Err(Error::Json(e)),
    }
}

/// Minimal client for the acme-dns HTTP API: a base URL and a transport
/// handle.
#[derive(Debug)]
pub struct AcmeDnsClient {
    base_url: String,
    http: reqwest::Client,
}

/// Whether `r` is a request for `op` against `base`: it exists exactly when
/// the operation's path joins onto the base URL, and then goes to the joined
/// URL with the operation's method; a failed join is a URL error.
pub open spec fn targets(r: Result<ApiRequest, Error>, base: Seq<char>, op: Operation) -> bool {
    &&& r is Ok <==> url_joins(base, path_of(op))
    &&& r is Err ==> (r matches Err(Error::Url(_)))
    &&& r is Ok ==> r->Ok_0.url@ == url_joined(base, path_of(op))
    &&& r is Ok ==> r->Ok_0.method == method_of(op)
}

impl AcmeDnsClient {
    /// The base URL the client was made with.
    pub closed spec fn base(&self) -> Seq<char> {
        self.base_url@
    }

    /// Creates a client for the API at `base_url`, e.g.
    /// `https://auth.example.org/`.
    pub fn new(base_url: &str) -> (r: Result<Self, Error>)
        ensures
            r is Ok <==> url_parses(base_url@),
            r is Err ==> r matches Err(Error::Url(_)),
            r is Ok ==> r->Ok_0.base() == base_url@,
    {
        if let Err(e) = parse_url(base_url) {
            return Err(Error::Url(e));
        }
        let http = match default_http_client() {
            Ok(h) => h,
            Err(e) => return Err(Error::Http(e)),
        };
        Ok(AcmeDnsClient { base_url: String::from_str(base_url), http })
    }

    /// Creates a client from the value of the base URL variable, `None`
    /// standing for one that is unset.
    pub fn from_env_value(base_url: Option<String>) -> (r: Result<Self, Error>)
        ensures
            base_url is None ==> (r matches Err(Error::MissingEnv(n)) && n@ == API_BASE_VAR@),
            base_url is Some ==> {
                &&& r is Ok <==> url_parses(base_url->0@)
                &&& r is Err ==> (r matches Err(Error::Url(_)))
                &&& r is Ok ==> r->Ok_0.base() == base_url->0@
            },
    {
        match base_url {
            Some(b) => AcmeDnsClient::new(b.as_str()),
            None => Err(Error::MissingEnv(API_BASE_VAR)),
        }
    }

    /// The base URL the client was made with.
    pub fn base_url(&self) -> (r: &str)
        ensures
            r@ == self.base(),
    {
        self.base_url.as_str()
    }

    /// The transport handle, for sending the requests this client builds.
    pub fn http(&self) -> &reqwest::Client {
        &self.http
    }

    /// The endpoint of `op`, resolved against the base URL.
    fn endpoint(&self, op: Operation) -> (r: Result<String, Error>)
        ensures
            r is Ok <==> url_joins(self.base(), path_of(op)),
            r is Err ==> r matches Err(Error::Url(_)),
            r is Ok ==> r->Ok_0@ == url_joined(self.base(), path_of(op)),
    {
        match join_url(self.base_url.as_str(), op.path()) {
            Ok(u) => Ok(u),
            Err(e) => Err(Error::Url(e)),
        }
    }

    /// The request that registers an account, with `allow_from` as the
    /// ranges allowed to update it, or the server's default when `None`.
    pub fn register_request(&self, allow_from: Option<&[String]>) -> (r: Result<ApiRequest, Error>)
        ensures
            targets(r, self.base(), Operation::Register),
            r is Ok ==> {
                let q = r->Ok_0;
                &&& header_views(q.headers@) == json_headers()
                &&& q.body is Some
                &&& q.body->0@ == registration_json(
                    match allow_from {
                        Some(items) => Some(string_views(items@)),
                        None => None,
                    },
                )
            },
    {
        let url = self.endpoint(Operation::Register)?;
        let mut headers: Vec<(String, String)> = Vec::new();
        headers.push(json_content_type());
        proof {
            assert(header_views(headers@) =~= json_headers());
        }
        let body = registration_body(allow_from);
        Ok(ApiRequest { method: Operation::Register.method(), url, headers, body: Some(body) })
    }

    /// The request that sets the TXT record of `creds` to `txt`.
    pub fn update_request(&self, creds: &Credentials, txt: &str) -> (r: Result<ApiRequest, Error>)
        ensures
            targets(r, self.base(), Operation::Update),
            r is Ok ==> {
                let q = r->Ok_0;
                &&& header_views(q.headers@) == update_headers(*creds)
                &&& q.body is Some
                &&& q.body->0@ == update_json(creds.subdomain@, txt@)
            },
    {
        let url = self.endpoint(Operation::Update)?;
        let mut headers: Vec<(String, String)> = Vec::new();
        headers.push((String::from_str("X-Api-User"), creds.username.clone()));
        headers.push((String::from_str("X-Api-Key"), creds.password.clone()));
        headers.push(json_content_type());
        proof {
            assert(header_views(headers@) =~= update_headers(*creds));
        }
        let body = update_body(creds.subdomain.as_str(), txt);
        Ok(ApiRequest { method: Operation::Update.method(), url, headers, body: Some(body) })
    }

    /// The request that checks the server's health: no headers, no body.
    pub fn health_request(&self) -> (r: Result<ApiRequest, Error>)
        ensures
            targets(r, self.base(), Operation::Health),
            r is Ok ==> {
                let q = r->Ok_0;
                &&& q.headers@.len() == 0
                &&& q.body is None
            },
    {
        let url = self.endpoint(Operation::Health)?;
        Ok(ApiRequest { method: Operation::Health.method(), url, headers: Vec::new(), body: None })
    }
}

} // verus!
