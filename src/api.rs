//! Requests to the daemon's local API, authenticated with the token of its cookie file.
use vstd::prelude::*;
use crate::names::{same_text, trimmed};

verus! {

/// The methods that are passed through to the API; any other name is sent as `GET`.
#[derive(PartialEq, Eq, Structural, Clone, Copy, Debug)]
pub enum HttpMethod {
    Get,
    Post,
    Put,
    Delete,
}

pub open spec fn method_of(name: Seq<char>) -> HttpMethod {
    if name == "POST"@ {
        HttpMethod::Post
    } else if name == "PUT"@ {
        HttpMethod::Put
    } else if name == "DELETE"@ {
        HttpMethod::Delete
    } else {
        HttpMethod::Get
    }
}

pub open spec fn api_base() -> Seq<char> {
    "http://127.0.0.1:8332"@
}

/// Why an API call failed.
#[derive(PartialEq, Eq, Clone, Debug)]
pub enum ApiError {
    /// The daemon has not written a token yet.
    Unauthenticated(String),
    /// The daemon answered with a failure status; its body is passed on unchanged.
    RequestFailed(String),
    /// No answer could be had.
    Transport(String),
}

/// The method for a method name.
pub fn parse_method(name: &str) -> (r: HttpMethod)
    ensures
        r == method_of(name@),
{
    if same_text(name, "POST") {
        HttpMethod::Post
    } else if same_text(name, "PUT") {
        HttpMethod::Put
    } else if same_text(name, "DELETE") {
        HttpMethod::Delete
    } else {
        HttpMethod::Get
    }
}

/// The URL of an API path.
pub fn api_url(path: &str) -> (r: String)
    ensures
        r@ == api_base() + path@,
{
    String::from_str("http://127.0.0.1:8332").concat(path)
}

/// The URL of the liveness probe.
pub fn status_url() -> (r: String)
    ensures
        r@ == api_base() + "/api/status"@,
{
    api_url("/api/status")
}

/// The value of the `Authorization` header for a token.
pub fn bearer_value(token: &str) -> (r: String)
    ensures
        r@ == "Bearer "@ + token@,
{
    String::from_str("Bearer ").concat(token)
}

/// The token in the cookie file's text.
pub fn cookie_token(text: &str) -> (r: String)
    ensures
        r@ == trimmed(text@),
{
    crate::names::trim_text(text)
}

/// The result of a call from the answer's status and body: the body either way.
pub fn call_result(success: bool, body: String) -> (r: Result<String, ApiError>)
    ensures
        success ==> r == Ok::<String, ApiError>(body),
        !success ==> r == Err::<String, ApiError>(ApiError::RequestFailed(body)),
{
    if success {
        Ok(body)
    } else {
        Err(ApiError::RequestFailed(body))
    }
}

} // verus!
