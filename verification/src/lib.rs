//! A typed client for the Venice AI HTTP API.
//!
//! The library exposes the two endpoints of the service — model listing and
//! chat completion — through strongly typed request and response structures.
//! Request bodies are rendered to JSON and response bodies are parsed from
//! JSON by the verified codec in [`json`]; the HTTP round trip itself is the
//! only unverified step, performed by the thin wrappers in [`transport`].

use vstd::prelude::*;

pub mod chat;
pub mod json;
pub mod models;
mod transport;

verus! {

/// The fixed base URL of the API, as a sequence of characters.
pub open spec fn base_url_spec() -> Seq<char> {
    "https://api.venice.ai/api/v1"@
}

/// The fixed base URL of the API.
pub fn base_url() -> (r: &'static str)
    ensures
        r@ == base_url_spec(),
{
    "https://api.venice.ai/api/v1"
}

/// How a call into the API can fail. Every failure is returned to the
/// caller; no function of the library aborts the process.
#[derive(Debug, Clone, PartialEq, Eq)]
pub enum VeniceError {
    /// The HTTP request could not be carried out at all; the payload is the
    /// transport's own description of the fault.
    Transport(String),
    /// The server answered with a status outside the success range.
    Http { status: u16, body: String },
    /// The response body was not the expected JSON shape.
    Decode,
    /// A server-reported model identifier is not in the catalog.
    UnknownModel(String),
}

/// The client: a fixed API key, and one method per endpoint. It holds no
/// other state; a call is one synchronous HTTP round trip.
pub struct API {
    api_key: String,
}

impl API {
    /// The key this client authenticates with.
    pub closed spec fn key(&self) -> Seq<char> {
        self.api_key@
    }

    /// A client that authenticates with `api_key`.
    pub fn new(api_key: String) -> (r: API)
        ensures
            r.key() == api_key@,
    {
        API { api_key }
    }

    /// The URL of an endpoint: the base URL, a slash, and the endpoint's
    /// path.
    pub fn get_url(to: &str) -> (r: String)
        ensures
            r@ == base_url_spec() + "/"@ + to@,
    {
        let mut url = base_url().to_owned();
        url.append("/");
        url.append(to);
        url
    }

    /// The `Authorization` header value: the bearer scheme with the key.
    fn bearer(&self) -> (r: String)
        ensures
            r@ == "Bearer "@ + self.key(),
    {
        let mut s = "Bearer ".to_owned();
        s.append(self.api_key.as_str());
        s
    }

    /// What a reply means: the body exactly on a status in the success
    /// range, and otherwise an `Http` error carrying the status and the
    /// body.
    pub fn response_outcome(status: u16, body: String) -> (r: Result<String, VeniceError>)
        ensures
            200 <= status < 300 ==> r == Ok::<String, VeniceError>(body),
            !(200 <= status < 300) ==> r == Err::<String, VeniceError>(
                VeniceError::Http { status, body },
            ),
    {
        if 200 <= status && status < 300 {
            Ok(body)
        } else {
            Err(VeniceError::Http { status, body })
        }
    }

    /// Issues a GET to the endpoint and reads the reply through
    /// [`API::response_outcome`]. What comes back depends on the network;
    /// a failure is always a `Transport` or `Http` error, never a halt.
    pub fn call(&self, to: &str) -> (r: Result<String, VeniceError>)
        ensures
            r matches Err(e) ==> (e matches VeniceError::Transport(_) || e matches
                VeniceError::Http { .. }),
    {
        let url = API::get_url(to);
        let auth = self.bearer();
        match transport::http_get(url.as_str(), auth.as_str()) {
            Ok((status, body)) => API::response_outcome(status, body),
            Err(e) => Err(VeniceError::Transport(transport::transport_error_text(&e))),
        }
    }

    /// Issues a POST carrying `body` to the endpoint and reads the reply
    /// through [`API::response_outcome`], as [`API::call`] does.
    pub fn call_with_body(&self, to: &str, body: &str) -> (r: Result<String, VeniceError>)
        ensures
            r matches Err(e) ==> (e matches VeniceError::Transport(_) || e matches
                VeniceError::Http { .. }),
    {
        let url = API::get_url(to);
        let auth = self.bearer();
        match transport::http_post_json(url.as_str(), auth.as_str(), body) {
            Ok((status, body)) => API::response_outcome(status, body),
            Err(e) => Err(VeniceError::Transport(transport::transport_error_text(&e))),
        }
    }
}

} // verus!
