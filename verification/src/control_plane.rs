//! The client side of the control plane's two operations: what is asked, and
//! what an answer means.
//!
//! Nothing here touches the network. A request is a value that the caller
//! sends; a reply is a value that the caller hands back. No failure is passed
//! upward as an error: a request that failed, an answer outside the 2xx range
//! and a body of the wrong shape all count as "nothing known this cycle".

use vstd::prelude::*;
use vstd::string::*;
use crate::config::Config;
use crate::model::{CatalogState, Credential};
use crate::text::joined;

verus! {

/// What came of one request.
#[derive(Debug)]
pub enum Reply<T> {
    /// The request could not be made, or no answer came in time.
    Failed,
    /// An answer came, with its status and with its body where the body had
    /// the expected shape.
    Answered { status: u16, body: Option<T> },
}

/// Whether a status is one of success: 200 to 299.
pub open spec fn is_success(status: u16) -> bool {
    200 <= status <= 299
}

/// Whether a status is one of success: 200 to 299.
pub fn status_is_success(status: u16) -> (r: bool)
    ensures
        r == is_success(status),
{
    200 <= status && status <= 299
}

impl<T> Reply<T> {
    /// What the reply holds: the body of an answer with a status of success,
    /// where the body had the expected shape.
    pub open spec fn content(self) -> Option<T> {
        match self {
            Reply::Answered { status, body: Some(body) } if is_success(status) => Some(body),
            _ => None,
        }
    }

    /// What the reply holds, if anything.
    pub fn accept(self) -> (r: Option<T>)
        ensures
            r == self.content(),
    {
        match self {
            Reply::Answered { status, body: Some(body) } => {
                if status_is_success(status) {
                    Some(body)
                } else {
                    None
                }
            },
            _ => None,
        }
    }
}

/// The credential that a reply to an authentication grants, if any.
pub fn authenticate(reply: Reply<Credential>) -> (r: Option<Credential>)
    ensures
        r == reply.content(),
{
    reply.accept()
}

/// The catalogs that a reply to a registry query holds, in its order; none
/// where the reply holds nothing.
pub open spec fn catalogs_of(reply: Reply<Vec<CatalogState>>) -> Seq<CatalogState> {
    match reply.content() {
        Some(catalogs) => catalogs@,
        None => Seq::empty(),
    }
}

/// The catalogs that a reply to a registry query holds, in its order; none
/// where the reply holds nothing.
pub fn fetch_catalogs(reply: Reply<Vec<CatalogState>>) -> (r: Vec<CatalogState>)
    ensures
        r@ == catalogs_of(reply),
{
    match reply.accept() {
        Some(catalogs) => catalogs,
        None => Vec::new(),
    }
}

/// The method of a request.
#[derive(Clone, Copy, PartialEq, Eq, Structural, Debug)]
pub enum Method {
    Get,
    Post,
}

/// One request to the control plane, for the caller to send.
#[derive(Debug)]
pub struct Request {
    pub method: Method,
    pub url: String,
    /// The value of the `Authorization` header, if the request has one.
    pub authorization: Option<String>,
    /// The body to send as JSON, if any.
    pub json_body: Option<String>,
    /// The seconds after which the request counts as failed.
    pub timeout_seconds: u64,
}

/// A request as plain values.
pub ghost struct RequestView {
    pub method: Method,
    pub url: Seq<char>,
    pub authorization: Option<Seq<char>>,
    pub json_body: Option<Seq<char>>,
    pub timeout_seconds: u64,
}

impl View for Request {
    type V = RequestView;

    open spec fn view(&self) -> RequestView {
        RequestView {
            method: self.method,
            url: self.url@,
            authorization: match self.authorization {
                Some(value) => Some(value@),
                None => None,
            },
            json_body: match self.json_body {
                Some(body) => Some(body@),
                None => None,
            },
            timeout_seconds: self.timeout_seconds,
        }
    }
}

/// The path of the authentication endpoint.
pub open spec fn auth_path() -> Seq<char> {
    "/v1alpha2/users/auth"@
}

/// The path of the catalog registry.
pub open spec fn registry_path() -> Seq<char> {
    "/v1alpha2/catalogs/registry"@
}

/// The JSON text of a string, as `serde_json::to_string` writes it; none where
/// it gives an error.
pub uninterp spec fn json_string(text: Seq<char>) -> Option<Seq<char>>;

/// The error of `serde_json`, carried through and never looked into.
#[verifier::external_type_specification]
#[verifier::external_body]
pub struct ExJsonError(serde_json::Error);

/// Calls `serde_json::to_string` on a string slice. The contract claims only
/// that what comes back depends on the characters of the argument alone.
#[verifier::external_body]
fn json_text(text: &str) -> (r: Result<String, serde_json::Error>)
    ensures
        r is Ok == json_string(text@) is Some,
        r matches Ok(encoded) ==> json_string(text@) == Some(encoded@),
{
    serde_json::to_string(text)
}

/// The body of an authentication request, from the JSON texts of the user's
/// name and of the password.
pub open spec fn auth_body(username_json: Seq<char>, password_json: Seq<char>) -> Seq<char> {
    "{\"username\":"@ + username_json + ",\"password\":"@ + password_json + "}"@
}

/// The body of an authentication request: an object with the members
/// `username` and `password`, whose values are given as JSON texts.
pub fn frame_auth_body(username_json: &str, password_json: &str) -> (r: String)
    ensures
        r@ == auth_body(username_json@, password_json@),
{
    let mut body = joined("{\"username\":", username_json);
    body.append(",\"password\":");
    body.append(password_json);
    body.append("}");
    body
}

/// The authentication request that a configuration leads to, where both of
/// its strings have a JSON text.
pub open spec fn auth_request_of(config: crate::config::ConfigView) -> Option<RequestView> {
    match (json_string(config.auth_username), json_string(config.auth_password)) {
        (Some(username_json), Some(password_json)) => Some(
            RequestView {
                method: Method::Post,
                url: config.control_plane_url + auth_path(),
                authorization: None,
                json_body: Some(auth_body(username_json, password_json)),
                timeout_seconds: config.request_timeout_seconds,
            },
        ),
        _ => None,
    }
}

/// The request that asks the control plane for a credential: a POST to the
/// authentication endpoint with the configured user and password as its body.
/// None where the body cannot be written; the caller then counts the
/// authentication as failed.
pub fn auth_request(config: &Config) -> (r: Option<Request>)
    ensures
        r is Some == auth_request_of(config@) is Some,
        r matches Some(request) ==> Some(request@) == auth_request_of(config@),
{
    let username_json = match json_text(config.auth_username.as_str()) {
        Ok(encoded) => encoded,
        Err(_) => {
            return None;
        },
    };
    let password_json = match json_text(config.auth_password.as_str()) {
        Ok(encoded) => encoded,
        Err(_) => {
            return None;
        },
    };
    Some(
        Request {
            method: Method::Post,
            url: joined(config.control_plane_url.as_str(), "/v1alpha2/users/auth"),
            authorization: None,
            json_body: Some(frame_auth_body(username_json.as_str(), password_json.as_str())),
            timeout_seconds: config.request_timeout_seconds,
        },
    )
}

/// The value of the `Authorization` header that presents a bearer token.
pub open spec fn bearer(token: Seq<char>) -> Seq<char> {
    "Bearer "@ + token
}

/// The request that asks the registry for the site's catalogs: a GET that
/// presents the access token as bearer token.
pub fn catalogs_request(config: &Config, token: &str) -> (r: Request)
    ensures
        r@ == (RequestView {
            method: Method::Get,
            url: config@.control_plane_url + registry_path(),
            authorization: Some(bearer(token@)),
            json_body: None,
            timeout_seconds: config@.request_timeout_seconds,
        }),
{
    Request {
        method: Method::Get,
        url: joined(config.control_plane_url.as_str(), "/v1alpha2/catalogs/registry"),
        authorization: Some(joined("Bearer ", token)),
        json_body: None,
        timeout_seconds: config.request_timeout_seconds,
    }
}

} // verus!
