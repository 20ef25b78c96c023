//! What a handler hands back: a status, an optional content type and a body.

use vstd::prelude::*;

verus! {

/// Status of a reply that carries what was asked for.
pub const STATUS_OK: u16 = 200;

/// Status of a reply to a request for an asset that is not there.
pub const STATUS_NOT_FOUND: u16 = 404;

/// Status of a reply to a request for an asset that could not be read.
pub const STATUS_INTERNAL_SERVER_ERROR: u16 = 500;

/// Content type of the application shell.
pub const TEXT_HTML: &'static str = "text/html; charset=utf-8";

/// Content type of plain text replies.
pub const TEXT_PLAIN: &'static str = "text/plain; charset=utf-8";

/// Content type of an asset whose extension is not known.
pub const OCTET_STREAM: &'static str = "application/octet-stream";

/// A complete reply to one request.
#[derive(Clone, Debug, PartialEq, Eq)]
pub struct Response {
    /// The HTTP status code.
    pub status: u16,
    /// The value of the `content-type` header, if the reply has one.
    pub content_type: Option<String>,
    /// The body, byte for byte.
    pub body: Vec<u8>,
}

/// The mathematical value of a [`Response`].
pub struct ResponseView {
    pub status: u16,
    pub content_type: Option<Seq<char>>,
    pub body: Seq<u8>,
}

impl View for Response {
    type V = ResponseView;

    open spec fn view(&self) -> ResponseView {
        ResponseView {
            status: self.status,
            content_type: match self.content_type {
                Some(value) => Some(value@),
                None => None,
            },
            body: self.body@,
        }
    }
}

/// The reply that carries `body` as text of the given content type.
pub open spec fn text_reply(status: u16, content_type: Seq<char>, body: Seq<char>) -> ResponseView {
    ResponseView { status, content_type: Some(content_type), body: vstd::utf8::encode_utf8(body) }
}

/// The reply without content type and body that only reports `status`.
pub open spec fn bare_reply(status: u16) -> ResponseView {
    ResponseView { status, content_type: None, body: Seq::empty() }
}

impl Response {
    /// A reply whose body is the UTF-8 encoding of `body`.
    pub fn text(status: u16, content_type: &str, body: &str) -> (r: Response)
        ensures
            r@ == text_reply(status, content_type@, body@),
    {
        Response {
            status,
            content_type: Some(content_type.to_owned()),
            body: body.as_bytes_vec(),
        }
    }

    /// A reply that consists of its status alone.
    pub fn bare(status: u16) -> (r: Response)
        ensures
            r@ == bare_reply(status),
    {
        Response { status, content_type: None, body: Vec::new() }
    }
}

} // verus!
