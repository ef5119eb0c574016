//! The error taxonomy: the vendor's error envelope, parsed from an
//! error-status body, and the crate's own error type distinguishing a
//! vendor-reported error from a transport-level failure.

use vstd::prelude::*;

use crate::json::{
    chars_eq_lit, chars_to_string, parse_string, skip_value, skip_ws, spec_parse_string,
    spec_skip_value, spec_skip_ws, spec_ws_string, str_to_chars, ws_string,
};
use crate::request::opt_string_view;

verus! {

/// An error reported by the vendor: its human-readable message and its
/// error type tag (the wire field `type`).
pub struct OpenAIError {
    pub message: String,
    pub error_type: String,
}

/// The mathematical value of an [`OpenAIError`].
pub struct OpenAIErrorView {
    pub message: Seq<char>,
    pub error_type: Seq<char>,
}

impl View for OpenAIError {
    type V = OpenAIErrorView;

    open spec fn view(&self) -> OpenAIErrorView {
        OpenAIErrorView { message: self.message@, error_type: self.error_type@ }
    }
}

/// The envelope the vendor wraps an error in:
/// `{"error":{"message":...,"type":...}}`.
pub struct OpenAIErrorResponse {
    pub error: OpenAIError,
}

/// The mathematical value of an [`OpenAIErrorResponse`].
pub struct OpenAIErrorResponseView {
    pub error: OpenAIErrorView,
}

impl View for OpenAIErrorResponse {
    type V = OpenAIErrorResponseView;

    open spec fn view(&self) -> OpenAIErrorResponseView {
        OpenAIErrorResponseView { error: self.error@ }
    }
}

/// The rendering of a vendor error for people:
/// `OpenAI Error <type>: <message>`.
pub open spec fn spec_error_display(e: OpenAIErrorResponseView) -> Seq<char> {
    "OpenAI Error "@ + e.error.error_type + ": "@ + e.error.message
}

impl OpenAIErrorResponse {
    /// Render this error for people; see [`spec_error_display`].
    pub fn display_text(&self) -> (r: String)
        ensures
            r@ == spec_error_display(self@),
    {
        let mut out = String::from_str("OpenAI Error ");
        out.append(self.error.error_type.as_str());
        out.append(": ");
        out.append(self.error.message.as_str());
        out
    }
}

/// What a chat call can fail with.
pub enum Error {
    /// The endpoint answered with a non-success status and a well-formed
    /// vendor error envelope. Always recoverable and reportable.
    ApiError(OpenAIErrorResponse),
    /// The network layer or a body failed: an unreadable response, a
    /// success body that is not a response, or an error body that does not
    /// match the vendor's own error shape. Carries a description of the
    /// underlying cause.
    TransportError(String),
}

/// The mathematical value of an [`Error`].
pub enum ErrorView {
    ApiError(OpenAIErrorResponseView),
    TransportError(Seq<char>),
}

impl View for Error {
    type V = ErrorView;

    open spec fn view(&self) -> ErrorView {
        match self {
            Error::ApiError(e) => ErrorView::ApiError(e@),
            Error::TransportError(s) => ErrorView::TransportError(s@),
        }
    }
}

/// A complete inner error object once its closing brace was reached: both
/// fields are required.
pub open spec fn spec_error_finish(
    message: Option<Seq<char>>,
    error_type: Option<Seq<char>>,
    p: int,
) -> Option<(OpenAIErrorView, int)> {
    match (message, error_type) {
        (Some(msg), Some(ty)) => Some((OpenAIErrorView { message: msg, error_type: ty }, p)),
        _ => None,
    }
}

/// The members of the inner error object (`message` and `type`); unknown
/// keys are stepped over, a duplicate or missing field fails.
pub open spec fn spec_error_members(
    s: Seq<char>,
    i: int,
    first: bool,
    message: Option<Seq<char>>,
    error_type: Option<Seq<char>>,
) -> Option<(OpenAIErrorView, int)>
    decreases s.len() - i,
{
    let j = spec_skip_ws(s, i);
    if j < i || j >= s.len() {
        None
    } else if first && s[j] == '}' {
        spec_error_finish(message, error_type, j + 1)
    } else {
        match spec_parse_string(s, j) {
            None => None,
            Some((key, k)) => if k <= j || k > s.len() {
                None
            } else {
                let m = spec_skip_ws(s, k);
                if m < k || m >= s.len() || s[m] != ':' {
                    None
                } else {
                    let step: Option<(Option<Seq<char>>, Option<Seq<char>>, int)> = if key
                        == "message"@ {
                        if message is Some {
                            None
                        } else {
                            match spec_ws_string(s, m + 1) {
                                None => None,
                                Some((val, p)) => Some((Some(val), error_type, p)),
                            }
                        }
                    } else if key == "type"@ {
                        if error_type is Some {
                            None
                        } else {
                            match spec_ws_string(s, m + 1) {
                                None => None,
                                Some((val, p)) => Some((message, Some(val), p)),
                            }
                        }
                    } else {
                        match spec_skip_value(s, m + 1) {
                            None => None,
                            Some(p) => Some((message, error_type, p)),
                        }
                    };
                    match step {
                        None => None,
                        Some((message2, error_type2, p)) => if p <= m || p > s.len() {
                            None
                        } else {
                            let q = spec_skip_ws(s, p);
                            if q < p || q >= s.len() {
                                None
                            } else if s[q] == '}' {
                                spec_error_finish(message2, error_type2, q + 1)
                            } else if s[q] == ',' {
                                spec_error_members(s, q + 1, false, message2, error_type2)
                            } else {
                                None
                            }
                        },
                    }
                }
            },
        }
    }
}

/// An inner error object preceded by optional whitespace.
pub open spec fn spec_ws_error_obj(s: Seq<char>, i: int) -> Option<(OpenAIErrorView, int)> {
    let j = spec_skip_ws(s, i);
    if j < i || j >= s.len() || s[j] != '{' {
        None
    } else {
        spec_error_members(s, j + 1, true, None, None)
    }
}

/// The value of an optional inner-error field being scanned.
pub open spec fn opt_error_view(e: &Option<OpenAIError>) -> Option<OpenAIErrorView> {
    match e {
        None => None,
        Some(x) => Some(x@),
    }
}

/// The members of the envelope object (only `error` is known); same
/// conventions as the inner object.
pub open spec fn spec_envelope_members(
    s: Seq<char>,
    i: int,
    first: bool,
    error: Option<OpenAIErrorView>,
) -> Option<(OpenAIErrorResponseView, int)>
    decreases s.len() - i,
{
    let j = spec_skip_ws(s, i);
    if j < i || j >= s.len() {
        None
    } else if first && s[j] == '}' {
        match error {
            Some(e) => Some((OpenAIErrorResponseView { error: e }, j + 1)),
            None => None,
        }
    } else {
        match spec_parse_string(s, j) {
            None => None,
            Some((key, k)) => if k <= j || k > s.len() {
                None
            } else {
                let m = spec_skip_ws(s, k);
                if m < k || m >= s.len() || s[m] != ':' {
                    None
                } else {
                    let step: Option<(Option<OpenAIErrorView>, int)> = if key == "error"@ {
                        if error is Some {
                            None
                        } else {
                            match spec_ws_error_obj(s, m + 1) {
                                None => None,
                                Some((e, p)) => Some((Some(e), p)),
                            }
                        }
                    } else {
                        match spec_skip_value(s, m + 1) {
                            None => None,
                            Some(p) => Some((error, p)),
                        }
                    };
                    match step {
                        None => None,
                        Some((error2, p)) => if p <= m || p > s.len() {
                            None
                        } else {
                            let q = spec_skip_ws(s, p);
                            if q < p || q >= s.len() {
                                None
                            } else if s[q] == '}' {
                                match error2 {
                                    Some(e) => Some((OpenAIErrorResponseView { error: e }, q + 1)),
                                    None => None,
                                }
                            } else if s[q] == ',' {
                                spec_envelope_members(s, q + 1, false, error2)
                            } else {
                                None
                            }
                        },
                    }
                }
            },
        }
    }
}

/// A complete vendor error body: one envelope object with nothing but
/// whitespace around it.
pub open spec fn spec_parse_error_response(s: Seq<char>) -> Option<OpenAIErrorResponseView> {
    let j = spec_skip_ws(s, 0);
    if j < 0 || j >= s.len() || s[j] != '{' {
        None
    } else {
        match spec_envelope_members(s, j + 1, true, None) {
            None => None,
            Some((e, p)) => if p < 0 || p > s.len() {
                None
            } else if spec_skip_ws(s, p) == s.len() {
                Some(e)
            } else {
                None
            },
        }
    }
}

fn error_members(
    v: &Vec<char>,
    i: usize,
    first: bool,
    message: Option<String>,
    error_type: Option<String>,
) -> (r: Option<(OpenAIError, usize)>)
    requires
        i <= v@.len(),
    ensures
        match r {
            None => spec_error_members(
                v@,
                i as int,
                first,
                opt_string_view(&message),
                opt_string_view(&error_type),
            ) is None,
            Some(p) => spec_error_members(
                v@,
                i as int,
                first,
                opt_string_view(&message),
                opt_string_view(&error_type),
            ) == Some((p.0@, p.1 as int)) && i < p.1 <= v@.len(),
        },
    decreases v@.len() - i,
{
    let j = skip_ws(v, i);
    if j >= v.len() {
        return None;
    }
    if first && v[j] == '}' {
        return match (message, error_type) {
            (Some(msg), Some(ty)) => Some((OpenAIError { message: msg, error_type: ty }, j + 1)),
            _ => None,
        };
    }
    let (key, k) = match parse_string(v, j) {
        None => {
            return None;
        },
        Some(p) => p,
    };
    let m = skip_ws(v, k);
    if m >= v.len() || v[m] != ':' {
        return None;
    }
    let mut message = message;
    let mut error_type = error_type;
    let p: usize;
    if chars_eq_lit(&key, "message") {
        if message.is_some() {
            return None;
        }
        match ws_string(v, m + 1) {
            None => {
                return None;
            },
            Some((val, pp)) => {
                message = Some(chars_to_string(val));
                p = pp;
            },
        }
    } else if chars_eq_lit(&key, "type") {
        if error_type.is_some() {
            return None;
        }
        match ws_string(v, m + 1) {
            None => {
                return None;
            },
            Some((val, pp)) => {
                error_type = Some(chars_to_string(val));
                p = pp;
            },
        }
    } else {
        match skip_value(v, m + 1) {
            None => {
                return None;
            },
            Some(pp) => {
                p = pp;
            },
        }
    }
    let q = skip_ws(v, p);
    if q >= v.len() {
        return None;
    }
    if v[q] == '}' {
        match (message, error_type) {
            (Some(msg), Some(ty)) => Some((OpenAIError { message: msg, error_type: ty }, q + 1)),
            _ => None,
        }
    } else if v[q] == ',' {
        error_members(v, q + 1, false, message, error_type)
    } else {
        None
    }
}

fn ws_error_obj(v: &Vec<char>, i: usize) -> (r: Option<(OpenAIError, usize)>)
    requires
        i <= v@.len(),
    ensures
        match r {
            None => spec_ws_error_obj(v@, i as int) is None,
            Some(p) => spec_ws_error_obj(v@, i as int) == Some((p.0@, p.1 as int)) && i < p.1
                <= v@.len(),
        },
{
    let j = skip_ws(v, i);
    if j >= v.len() || v[j] != '{' {
        return None;
    }
    error_members(v, j + 1, true, None, None)
}

fn envelope_members(v: &Vec<char>, i: usize, first: bool, error: Option<OpenAIError>) -> (r:
    Option<(OpenAIErrorResponse, usize)>)
    requires
        i <= v@.len(),
    ensures
        match r {
            None => spec_envelope_members(v@, i as int, first, opt_error_view(&error)) is None,
            Some(p) => spec_envelope_members(v@, i as int, first, opt_error_view(&error)) == Some(
                (p.0@, p.1 as int),
            ) && i < p.1 <= v@.len(),
        },
    decreases v@.len() - i,
{
    let j = skip_ws(v, i);
    if j >= v.len() {
        return None;
    }
    if first && v[j] == '}' {
        return match error {
            Some(e) => Some((OpenAIErrorResponse { error: e }, j + 1)),
            None => None,
        };
    }
    let (key, k) = match parse_string(v, j) {
        None => {
            return None;
        },
        Some(p) => p,
    };
    let m = skip_ws(v, k);
    if m >= v.len() || v[m] != ':' {
        return None;
    }
    let mut error = error;
    let p: usize;
    if chars_eq_lit(&key, "error") {
        if error.is_some() {
            return None;
        }
        match ws_error_obj(v, m + 1) {
            None => {
                return None;
            },
            Some((e, pp)) => {
                error = Some(e);
                p = pp;
            },
        }
    } else {
        match skip_value(v, m + 1) {
            None => {
                return None;
            },
            Some(pp) => {
                p = pp;
            },
        }
    }
    let q = skip_ws(v, p);
    if q >= v.len() {
        return None;
    }
    if v[q] == '}' {
        match error {
            Some(e) => Some((OpenAIErrorResponse { error: e }, q + 1)),
            None => None,
        }
    } else if v[q] == ',' {
        envelope_members(v, q + 1, false, error)
    } else {
        None
    }
}

/// Parse a complete vendor error body; see [`spec_parse_error_response`].
pub fn parse_error_body(body: &str) -> (r: Option<OpenAIErrorResponse>)
    ensures
        match r {
            None => spec_parse_error_response(body@) is None,
            Some(e) => spec_parse_error_response(body@) == Some(e@),
        },
{
    let v = str_to_chars(body);
    let j = skip_ws(&v, 0);
    if j >= v.len() || v[j] != '{' {
        return None;
    }
    match envelope_members(&v, j + 1, true, None) {
        None => None,
        Some((e, p)) => {
            let q = skip_ws(&v, p);
            if q == v.len() {
                Some(e)
            } else {
                None
            }
        },
    }
}

} // verus!
