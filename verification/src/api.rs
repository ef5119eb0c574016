//! The client core: the configuration captured at construction (credential
//! and optional organization id), the fixed endpoint and header values, and
//! the mapping from an HTTP outcome (status code and body text) to either a
//! typed [`Response`] or a typed [`Error`].
//!
//! The network transport itself lives outside this library. A caller
//! performs the single POST with the values this module computes —
//! [`Api::chat_url`], [`Api::authorization_header`],
//! [`Api::content_type_header`], the body from [`Request::to_json`] — and
//! hands the status and body text back to [`chat_outcome`].

use vstd::prelude::*;

use crate::error::{spec_parse_error_response, Error, ErrorView};
use crate::request::{spec_parse_response, Request, Response, ResponseView};
use crate::token::Token;

verus! {

/// The client configuration: the credential the transport authenticates
/// with, and an optional organization id attached to each call. A client
/// holds no other state, and no call mutates it.
pub struct Api {
    token: Token,
    organization_id: Option<String>,
}

/// The mathematical value of an [`Api`].
pub struct ApiView {
    pub token: Seq<char>,
    pub organization_id: Option<Seq<char>>,
}

impl View for Api {
    type V = ApiView;

    closed spec fn view(&self) -> ApiView {
        ApiView {
            token: self.token@,
            organization_id: match self.organization_id {
                None => None,
                Some(ref s) => Some(s@),
            },
        }
    }
}

/// Whether an HTTP status code counts as success.
pub open spec fn spec_is_success(status: u16) -> bool {
    200 <= status && status < 300
}

/// The outcome of one chat call, as a function of the HTTP status and the
/// body text alone: on success the parsed response; on a success body that
/// is not a response, a transport error; on an error status a vendor error
/// when the body has the vendor's error shape, and a transport error when
/// it does not.
pub open spec fn spec_chat_outcome(status: u16, body: Seq<char>) -> Result<
    ResponseView,
    ErrorView,
> {
    if spec_is_success(status) {
        match spec_parse_response(body) {
            Some(r) => Ok(r),
            None => Err(
                ErrorView::TransportError("the success body did not parse as a chat response"@),
            ),
        }
    } else {
        match spec_parse_error_response(body) {
            Some(e) => Err(ErrorView::ApiError(e)),
            None => Err(
                ErrorView::TransportError("the error body did not match the vendor error shape"@),
            ),
        }
    }
}

/// Map one HTTP outcome to the typed result; see [`spec_chat_outcome`].
/// This is the decision half of a chat call: the caller performs the POST
/// and hands the status code and body text here.
pub fn chat_outcome(status: u16, body: &str) -> (r: Result<Response, Error>)
    ensures
        match r {
            Ok(resp) => spec_chat_outcome(status, body@) == Ok::<ResponseView, ErrorView>(resp@),
            Err(e) => spec_chat_outcome(status, body@) == Err::<ResponseView, ErrorView>(e@),
        },
{
    if 200 <= status && status < 300 {
        match crate::request::parse_response_body(body) {
            Some(resp) => Ok(resp),
            None => Err(
                Error::TransportError(
                    String::from_str("the success body did not parse as a chat response"),
                ),
            ),
        }
    } else {
        match crate::error::parse_error_body(body) {
            Some(e) => Err(Error::ApiError(e)),
            None => Err(
                Error::TransportError(
                    String::from_str("the error body did not match the vendor error shape"),
                ),
            ),
        }
    }
}

impl Api {
    /// Build a client from a credential: no organization id, and the
    /// credential captured for the transport's default headers.
    /// Construction cannot fail; a transport built from these values may
    /// fail on its own account, which the caller surfaces as its error.
    pub fn new(key: Token) -> (a: Api)
        ensures
            a@.token == key@,
            a@.organization_id is None,
    {
        Api { token: key, organization_id: None }
    }

    /// The same client with an organization id attached to every
    /// subsequent call. A pure value transformation; no I/O.
    pub fn with_organization_id(self, organization_id: String) -> (a: Api)
        ensures
            a@.token == self@.token,
            a@.organization_id == Some(organization_id@),
    {
        Api { token: self.token, organization_id: Some(organization_id) }
    }

    /// The organization id attached to calls, if one was set.
    pub fn organization_id(&self) -> (r: &Option<String>)
        ensures
            self@.organization_id is Some <==> r is Some,
            r matches Some(s) ==> self@.organization_id == Some(s@),
    {
        &self.organization_id
    }

    /// The `Authorization` header value every call carries.
    pub fn authorization_header(&self) -> (r: String)
        ensures
            r@ == "Bearer "@ + self@.token,
    {
        self.token.header_value()
    }

    /// The `Content-Type` header value every call carries.
    pub fn content_type_header() -> (r: &'static str)
        ensures
            r@ == "application/json"@,
    {
        "application/json"
    }

    /// The fixed chat-completions URL: the vendor's production API root
    /// with the chat-completions path appended.
    pub fn chat_url() -> (r: &'static str)
        ensures
            r@ == "https://api.openai.com/v1/chat/completions"@,
    {
        "https://api.openai.com/v1/chat/completions"
    }
}

/// Law: on a success status whose body parses as a response, the outcome
/// is exactly that response — fields and choice order as received.
pub proof fn lemma_success_body_is_returned(status: u16, body: Seq<char>)
    requires
        spec_is_success(status),
        spec_parse_response(body) is Some,
    ensures
        spec_chat_outcome(status, body) == Ok::<ResponseView, ErrorView>(
            spec_parse_response(body)->Some_0,
        ),
{
}

/// Law: on an error status whose body has the vendor's error shape, the
/// outcome is the vendor error carrying that message and type — never a
/// transport error.
pub proof fn lemma_vendor_error_is_typed(status: u16, body: Seq<char>)
    requires
        !spec_is_success(status),
        spec_parse_error_response(body) is Some,
    ensures
        spec_chat_outcome(status, body) == Err::<ResponseView, ErrorView>(
            ErrorView::ApiError(spec_parse_error_response(body)->Some_0),
        ),
{
}

/// Law: on an error status whose body does not match the vendor's error
/// shape, the outcome is a transport error, never a vendor error.
pub proof fn lemma_malformed_error_body_is_transport(status: u16, body: Seq<char>)
    requires
        !spec_is_success(status),
        spec_parse_error_response(body) is None,
    ensures
        spec_chat_outcome(status, body) matches Err(e) && e is TransportError,
{
}

/// Law: the outcome of a chat call is a function of that call's own status
/// and body alone; the client configuration holds no mutable state, so
/// concurrent calls cannot affect one another's results.
pub proof fn lemma_outcome_depends_on_call_alone(
    s1: u16,
    b1: Seq<char>,
    s2: u16,
    b2: Seq<char>,
)
    requires
        s1 == s2,
        b1 == b2,
    ensures
        spec_chat_outcome(s1, b1) == spec_chat_outcome(s2, b2),
{
}

} // verus!
