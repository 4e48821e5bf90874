//! Responses as plain values, and the mapping from errors and encoded
//! results to responses.

use crate::error::Error;
use crate::error::ErrorView;
use vstd::prelude::*;

verus! {

/// Status of a successful exchange.
pub const OK: u16 = 200;

/// Status for a body that could not be decoded.
pub const BAD_REQUEST: u16 = 400;

/// Status for a request that lacks valid credentials.
pub const UNAUTHORIZED: u16 = 401;

/// Status for a request that no route answers.
pub const NOT_FOUND: u16 = 404;

/// Status for a result that could not be encoded.
pub const INTERNAL_SERVER_ERROR: u16 = 500;

/// The media type of a response body.
#[derive(Clone, Copy, Debug, PartialEq, Eq, Structural)]
pub enum ContentType {
    /// `application/json`
    Json,
}

/// A response as plain values.
pub struct ResponseView {
    pub status: u16,
    pub content_type: Option<ContentType>,
    pub body: Seq<u8>,
}

/// A complete response: status code, media type if one was set, and body.
#[derive(Debug, PartialEq, Eq)]
pub struct Response {
    pub status: u16,
    pub content_type: Option<ContentType>,
    pub body: Vec<u8>,
}

impl View for Response {
    type V = ResponseView;

    open spec fn view(&self) -> ResponseView {
        ResponseView { status: self.status, content_type: self.content_type, body: self.body@ }
    }
}

/// The bytes that `serde_json::to_vec` produces for a string, or `None`
/// where it reports an error.
pub uninterp spec fn json_text(text: Seq<char>) -> Option<Seq<u8>>;

/// Calls `serde_json::to_vec` on a string slice and drops the error value.
/// The contract claims only that the outcome is a function of the string's
/// characters: the bytes returned on success, and whether it succeeds, are
/// what `json_text` names.
#[verifier::external_body]
fn to_json(text: &str) -> (out: Option<Vec<u8>>)
    ensures
        match out {
            Some(bytes) => json_text(text@) == Some(bytes@),
            None => json_text(text@) is None,
        },
{
    serde_json::to_vec(text).ok()
}

/// The response that carries an encoded body under `status`; where the
/// encoding failed, an empty response with status 500.
pub open spec fn json_response(status: u16, encoded: Option<Seq<u8>>) -> ResponseView {
    match encoded {
        Some(body) => ResponseView { status, content_type: Some(ContentType::Json), body },
        None => ResponseView {
            status: INTERNAL_SERVER_ERROR,
            content_type: Some(ContentType::Json),
            body: Seq::empty(),
        },
    }
}

/// The response to a request that no route answers.
pub open spec fn not_found_response() -> ResponseView {
    ResponseView { status: NOT_FOUND, content_type: None, body: Seq::empty() }
}

/// The response that reports `error`: its status code, with its message
/// encoded as the body.
pub open spec fn error_response(error: ErrorView) -> ResponseView {
    json_response(error.code, json_text(error.msg))
}

/// The response to a body that could not be decoded.
pub open spec fn decode_failure_response(diagnostic: Seq<char>) -> ResponseView {
    json_response(BAD_REQUEST, json_text(diagnostic))
}

/// The response to a handler's result after encoding: the encoded value
/// under status 200, or the encoder's diagnostic under status 500.
pub open spec fn outcome_response(encoded: Result<Seq<u8>, Seq<char>>) -> ResponseView {
    match encoded {
        Ok(body) => json_response(OK, Some(body)),
        Err(diagnostic) => json_response(INTERNAL_SERVER_ERROR, json_text(diagnostic)),
    }
}

impl ContentType {
    /// The media type as it appears in a `Content-Type` header.
    pub fn as_str(&self) -> (name: &'static str)
        ensures
            name@ == "application/json"@,
    {
        match self {
            ContentType::Json => "application/json",
        }
    }
}

impl Response {
    /// An empty response with the given status and media type.
    pub fn new(status: u16, content_type: Option<ContentType>) -> (response: Response)
        ensures
            response@ == (ResponseView { status, content_type, body: Seq::empty() }),
    {
        Response { status, content_type, body: Vec::new() }
    }

    /// Replace the body.
    pub fn set_body(&mut self, body: Vec<u8>)
        ensures
            final(self)@ == (ResponseView { body: body@, ..old(self)@ }),
    {
        self.body = body;
    }

    /// The response for an already encoded body: `encoded` under `status`,
    /// or status 500 with no body where the encoder gave nothing.
    pub fn json(status: u16, encoded: Option<Vec<u8>>) -> (response: Response)
        ensures
            response@ == json_response(
                status,
                match encoded {
                    Some(body) => Some(body@),
                    None => None,
                },
            ),
    {
        match encoded {
            Some(body) => {
                let mut response = Response::new(status, Some(ContentType::Json));
                response.set_body(body);
                response
            },
            None => Response::new(INTERNAL_SERVER_ERROR, Some(ContentType::Json)),
        }
    }

    /// The response whose body is `text` encoded as a JSON string.
    pub fn message(status: u16, text: &str) -> (response: Response)
        ensures
            response@ == json_response(status, json_text(text@)),
    {
        Response::json(status, to_json(text))
    }

    /// The response that reports `error`.
    pub fn from_error(error: &Error) -> (response: Response)
        ensures
            response@ == error_response(error@),
    {
        Response::message(error.code(), error.msg())
    }

    /// The response to an endpoint's result: the response it returned, or
    /// the response that reports the error it returned.
    pub fn from_result(result: Result<Response, Error>) -> (response: Response)
        ensures
            response@ == match result {
                Ok(answer) => answer@,
                Err(error) => error_response(error@),
            },
    {
        match result {
            Ok(answer) => answer,
            Err(error) => Response::from_error(&error),
        }
    }

    /// The response to a body that could not be decoded; `diagnostic` is the
    /// decoder's message.
    pub fn decode_failure(diagnostic: &str) -> (response: Response)
        ensures
            response@ == decode_failure_response(diagnostic@),
    {
        Response::message(BAD_REQUEST, diagnostic)
    }

    /// The response to a handler's encoded result: the bytes under status
    /// 200, or the encoder's diagnostic under status 500.
    pub fn from_outcome(encoded: Result<Vec<u8>, String>) -> (response: Response)
        ensures
            response@ == outcome_response(
                match encoded {
                    Ok(body) => Ok(body@),
                    Err(diagnostic) => Err(diagnostic@),
                },
            ),
    {
        match encoded {
            Ok(body) => Response::json(OK, Some(body)),
            Err(diagnostic) => Response::message(INTERNAL_SERVER_ERROR, diagnostic.as_str()),
        }
    }
}

/// The response to a request that no route answers: status 404, no body.
pub fn not_found() -> (response: Response)
    ensures
        response@ == not_found_response(),
{
    Response::new(NOT_FOUND, None)
}

/// An empty response with the given status and media type.
pub fn response(code: u16, content_type: ContentType) -> (response: Response)
    ensures
        response@ == (ResponseView {
            status: code,
            content_type: Some(content_type),
            body: Seq::empty(),
        }),
{
    Response::new(code, Some(content_type))
}

} // verus!
