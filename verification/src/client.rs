//! Asking a server: where, and what its reply means.

use crate::decimal;
use crate::text;
use vstd::prelude::*;

verus! {

/// Why a request yielded no data.
#[derive(Debug, PartialEq)]
pub enum ClientError {
    /// The server is down, restarting, or elsewhere.
    Unreachable(String),
    /// The server answered with an unexpected status.
    Status(u16),
    /// The body is not what was expected.
    Decode(String),
}

impl ClientError {
    /// The failure in words.
    pub open spec fn words(self) -> Seq<char> {
        match self {
            ClientError::Unreachable(e) => "server unreachable: "@ + e@,
            ClientError::Status(s) => "unexpected HTTP status "@ + decimal::dec(s as nat),
            ClientError::Decode(e) => "decode error: "@ + e@,
        }
    }

    /// The failure in words.
    pub fn message(&self) -> (r: String)
        ensures
            r@ == self.words(),
    {
        match self {
            ClientError::Unreachable(e) => text::concat("server unreachable: ", e.as_str()),
            ClientError::Status(s) => text::concat(
                "unexpected HTTP status ",
                decimal::decimal(*s as u128).as_str(),
            ),
            ClientError::Decode(e) => text::concat("decode error: ", e.as_str()),
        }
    }
}

/// A server to ask.
#[derive(Debug)]
pub struct Client {
    base_url: String,
}

impl Client {
    /// The address without a slash behind it.
    pub closed spec fn base(self) -> Seq<char> {
        self.base_url@
    }

    /// A server at an address, whose trailing slashes do not count.
    pub fn new(base_url: String) -> (r: Client)
        ensures
            r.base() == text::without_trailing(base_url@, '/'),
    {
        Client { base_url: text::trim_end_char(base_url.as_str(), '/') }
    }

    /// The address without a slash behind it.
    pub fn base_url(&self) -> (r: &str)
        ensures
            r@ == self.base(),
    {
        self.base_url.as_str()
    }

    /// The address of a path.
    pub fn url(&self, path: &str) -> (r: String)
        ensures
            r@ == self.base() + path@,
    {
        text::concat(self.base_url.as_str(), path)
    }

    /// The address of a flight.
    pub fn flight_url(&self, hex: &str) -> (r: String)
        ensures
            r@ == self.base() + "/flight/"@ + hex@,
    {
        text::concat3(self.base_url.as_str(), "/flight/", hex)
    }
}

/// What came back: nothing, for the reason given, or a status and the body as decoded.
pub enum Fetched<T> {
    Nothing(String),
    Reply { status: u16, body: Result<T, String> },
}

/// Whether a status says that the body is the answer.
pub open spec fn is_success(status: u16) -> bool {
    200 <= status <= 299
}

/// What a reply means.
pub fn resolve<T>(fetched: Fetched<T>) -> (r: Result<T, ClientError>)
    ensures
        r == (match fetched {
            Fetched::Nothing(e) => Err(ClientError::Unreachable(e)),
            Fetched::Reply { status, body } => if !is_success(status) {
                Err(ClientError::Status(status))
            } else {
                match body {
                    Ok(t) => Ok(t),
                    Err(e) => Err(ClientError::Decode(e)),
                }
            },
        }),
{
    match fetched {
        Fetched::Nothing(e) => Err(ClientError::Unreachable(e)),
        Fetched::Reply { status, body } => {
            if !(200 <= status && status <= 299) {
                return Err(ClientError::Status(status));
            }
            match body {
                Ok(t) => Ok(t),
                Err(e) => Err(ClientError::Decode(e)),
            }
        },
    }
}

/// What a reply about one flight means: a flight that is not held is no failure.
pub fn resolve_flight<T>(fetched: Fetched<T>) -> (r: Result<Option<T>, ClientError>)
    ensures
        r == (match fetched {
            Fetched::Nothing(e) => Err(ClientError::Unreachable(e)),
            Fetched::Reply { status, body } => if status == 404 {
                Ok(None)
            } else if !is_success(status) {
                Err(ClientError::Status(status))
            } else {
                match body {
                    Ok(t) => Ok(Some(t)),
                    Err(e) => Err(ClientError::Decode(e)),
                }
            },
        }),
{
    match fetched {
        Fetched::Nothing(e) => Err(ClientError::Unreachable(e)),
        Fetched::Reply { status, body } => {
            if status == 404 {
                return Ok(None);
            }
            if !(200 <= status && status <= 299) {
                return Err(ClientError::Status(status));
            }
            match body {
                Ok(t) => Ok(Some(t)),
                Err(e) => Err(ClientError::Decode(e)),
            }
        },
    }
}

/// How often a server is tried at startup.
pub const STARTUP_ATTEMPTS: u32 = 5;

/// Whether to try again after the `attempt`-th try, counted from zero, has failed.
pub fn try_again(attempt: u32) -> (r: bool)
    ensures
        r <==> attempt + 1 < STARTUP_ATTEMPTS,
{
    attempt < STARTUP_ATTEMPTS - 1
}

/// Success is a status in the two hundreds.
pub proof fn law_success_is_two_hundred_something(status: u16)
    ensures
        is_success(status) <==> status / 100 == 2,
{
}

/// Each failure has its own words, and carries what it came with.
pub proof fn law_failures_say_what_they_are(e: String, status: u16)
    ensures
        ClientError::Unreachable(e).words() == "server unreachable: "@ + e@,
        ClientError::Status(status).words() == "unexpected HTTP status "@ + decimal::dec(
            status as nat,
        ),
        ClientError::Decode(e).words() == "decode error: "@ + e@,
{
}

/// A server is tried five times before it is given up.
pub proof fn law_a_server_is_tried_five_times(attempt: u32)
    ensures
        attempt + 1 < STARTUP_ATTEMPTS <==> attempt == 0 || attempt == 1 || attempt == 2 || attempt
            == 3,
{
}

} // verus!
