//! Asking a server from a page: where, and what its reply means.

use crate::client::{self, ClientError, Fetched};
use crate::decimal;
use crate::text;
use vstd::prelude::*;

verus! {

/// Why a request yielded no data.
#[derive(Debug, PartialEq)]
pub enum ApiError {
    /// The server is down or elsewhere, or does not allow this page to read it.
    Unreachable(String),
    /// The server answered with an unexpected status.
    Status(u16),
    /// The body is not what was expected.
    Decode(String),
}

impl ApiError {
    /// The failure in words.
    pub open spec fn words(self) -> Seq<char> {
        match self {
            ApiError::Unreachable(e) => "server unreachable: "@ + e@,
            ApiError::Status(s) => "unexpected HTTP status "@ + decimal::dec(s as nat),
            ApiError::Decode(e) => "decode error: "@ + e@,
        }
    }

    /// The failure in words.
    pub fn message(&self) -> (r: String)
        ensures
            r@ == self.words(),
    {
        match self {
            ApiError::Unreachable(e) => text::concat("server unreachable: ", e.as_str()),
            ApiError::Status(s) => text::concat(
                "unexpected HTTP status ",
                decimal::decimal(*s as u128).as_str(),
            ),
            ApiError::Decode(e) => text::concat("decode error: ", e.as_str()),
        }
    }
}

/// The same failure, as a page names it.
pub open spec fn as_api(e: ClientError) -> ApiError {
    match e {
        ClientError::Unreachable(e) => ApiError::Unreachable(e),
        ClientError::Status(s) => ApiError::Status(s),
        ClientError::Decode(e) => ApiError::Decode(e),
    }
}

fn to_api(e: ClientError) -> (r: ApiError)
    ensures
        r == as_api(e),
{
    match e {
        ClientError::Unreachable(e) => ApiError::Unreachable(e),
        ClientError::Status(s) => ApiError::Status(s),
        ClientError::Decode(e) => ApiError::Decode(e),
    }
}

/// A server to ask.
#[derive(Debug)]
pub struct ApiClient {
    base_url: String,
}

impl ApiClient {
    /// The address without a slash behind it.
    pub closed spec fn base(self) -> Seq<char> {
        self.base_url@
    }

    /// A server at an address, whose trailing slashes do not count.
    pub fn new(base_url: String) -> (r: ApiClient)
        ensures
            r.base() == text::without_trailing(base_url@, '/'),
    {
        ApiClient { base_url: text::trim_end_char(base_url.as_str(), '/') }
    }

    /// Where the unchanging facts are.
    pub fn meta(&self) -> (r: String)
        ensures
            r@ == self.base() + "/meta"@,
    {
        text::concat(self.base_url.as_str(), "/meta")
    }

    /// Where the picture is.
    pub fn picture(&self) -> (r: String)
        ensures
            r@ == self.base() + "/picture"@,
    {
        text::concat(self.base_url.as_str(), "/picture")
    }

    /// Where a flight's detail is.
    pub fn flight(&self, hex: &str) -> (r: String)
        ensures
            r@ == self.base() + "/flight/"@ + hex@,
    {
        text::concat3(self.base_url.as_str(), "/flight/", hex)
    }
}

/// What a reply means.
pub fn resolve<T>(fetched: Fetched<T>) -> (r: Result<T, ApiError>)
    ensures
        r == (match fetched {
            Fetched::Nothing(e) => Err(ApiError::Unreachable(e)),
            Fetched::Reply { status, body } => if !client::is_success(status) {
                Err(ApiError::Status(status))
            } else {
                match body {
                    Ok(t) => Ok(t),
                    Err(e) => Err(ApiError::Decode(e)),
                }
            },
        }),
{
    match client::resolve(fetched) {
        Ok(t) => Ok(t),
        Err(e) => Err(to_api(e)),
    }
}

/// What a reply about one flight means: a flight that is not held is no failure.
pub fn resolve_flight<T>(fetched: Fetched<T>) -> (r: Result<Option<T>, ApiError>)
    ensures
        r == (match fetched {
            Fetched::Nothing(e) => Err(ApiError::Unreachable(e)),
            Fetched::Reply { status, body } => if status == 404 {
                Ok(None)
            } else if !client::is_success(status) {
                Err(ApiError::Status(status))
            } else {
                match body {
                    Ok(t) => Ok(Some(t)),
                    Err(e) => Err(ApiError::Decode(e)),
                }
            },
        }),
{
    match client::resolve_flight(fetched) {
        Ok(t) => Ok(t),
        Err(e) => Err(to_api(e)),
    }
}

/// A page says of a failure what any other client says of it.
pub proof fn law_failures_read_the_same_everywhere(e: ClientError)
    ensures
        as_api(e).words() == e.words(),
        as_api(e) is Unreachable <==> e is Unreachable,
        as_api(e) is Status <==> e is Status,
        as_api(e) is Decode <==> e is Decode,
{
}

} // verus!
