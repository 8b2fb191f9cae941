use vstd::prelude::*;
use vstd::string::*;
use vstd::utf8::encode_utf8;
use crate::codec::{encode_json, json_bytes_of};

verus! {

/// A response as written to the wire: status, content type, body bytes.
#[derive(Clone, Debug)]
pub struct Response {
    pub status: u16,
    pub content_type: String,
    pub body: Vec<u8>,
}

/// The closed set of values a handler may return.
#[derive(Debug)]
pub enum ResponseShape {
    /// Plain text, status 200.
    Text(String),
    /// An HTML fragment, status 200.
    Html(String),
    /// A JSON value, status 200.
    Json(serde_json::Value),
    /// Raw bytes with the content type the handler names, status 200.
    Binary { content_type: String, bytes: Vec<u8> },
    /// Plain text with the status the handler names.
    StatusText(u16, String),
}

pub open spec fn text_plain() -> Seq<char> {
    "text/plain; charset=utf-8"@
}

pub open spec fn text_html() -> Seq<char> {
    "text/html; charset=utf-8"@
}

pub open spec fn application_json() -> Seq<char> {
    "application/json"@
}

/// `r` has this status, content type and body.
pub open spec fn response_is(r: Response, status: u16, content_type: Seq<char>, body: Seq<u8>) -> bool {
    &&& r.status == status
    &&& r.content_type@ == content_type
    &&& r.body@ == body
}

/// A plain-text response with the given status.
pub open spec fn text_response_is(r: Response, status: u16, text: Seq<char>) -> bool {
    response_is(r, status, text_plain(), encode_utf8(text))
}

/// What the encoder owes for each shape.
pub open spec fn encodes(shape: ResponseShape, r: Response) -> bool {
    match shape {
        ResponseShape::Text(s) => text_response_is(r, 200, s@),
        ResponseShape::Html(s) => response_is(r, 200, text_html(), encode_utf8(s@)),
        ResponseShape::Json(v) => response_is(r, 200, application_json(), json_bytes_of(v)),
        ResponseShape::Binary { content_type, bytes } => response_is(
            r,
            200,
            content_type@,
            bytes@,
        ),
        ResponseShape::StatusText(status, s) => text_response_is(r, status, s@),
    }
}

/// The UTF-8 bytes of a string.
pub fn utf8_bytes(s: &String) -> (r: Vec<u8>)
    ensures
        r@ == encode_utf8(s@),
{
    s.as_str().as_bytes_vec()
}

/// A plain-text response.
pub fn text_response(status: u16, text: &String) -> (r: Response)
    ensures
        text_response_is(r, status, text@),
{
    Response {
        status,
        content_type: String::from_str("text/plain; charset=utf-8"),
        body: utf8_bytes(text),
    }
}

/// The response for JSON bytes that serialization produced.
pub fn json_response(bytes: Vec<u8>) -> (r: Response)
    ensures
        response_is(r, 200, application_json(), bytes@),
{
    Response { status: 200, content_type: String::from_str("application/json"), body: bytes }
}

/// Turns a handler's value into status, content type and body. The content type
/// always comes from the shape, never from the body.
pub fn encode_response(shape: ResponseShape) -> (r: Response)
    ensures
        encodes(shape, r),
{
    match shape {
        ResponseShape::Text(s) => text_response(200, &s),
        ResponseShape::Html(s) => Response {
            status: 200,
            content_type: String::from_str("text/html; charset=utf-8"),
            body: utf8_bytes(&s),
        },
        ResponseShape::Json(v) => json_response(encode_json(&v).unwrap()),
        ResponseShape::Binary { content_type, bytes } => Response {
            status: 200,
            content_type,
            body: bytes,
        },
        ResponseShape::StatusText(status, s) => text_response(status, &s),
    }
}

/// The text of the fallback response for a path that no route takes.
pub open spec fn no_route_text(path: Seq<char>) -> Seq<char> {
    "No route "@ + path
}

/// The fallback handler: `404` with `No route <path>`.
pub fn fallback(path: &str) -> (r: Response)
    ensures
        text_response_is(r, 404, no_route_text(path@)),
{
    let mut text = String::from_str("No route ");
    text.append(path);
    text_response(404, &text)
}

} // verus!
