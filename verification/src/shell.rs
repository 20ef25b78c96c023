//! The two handlers that answer without looking at the disk: the
//! application shell and the placeholder API endpoint.

use vstd::prelude::*;
use vstd::string::*;
use vstd::utf8::*;
use crate::response::{text_reply, Response, ResponseView, STATUS_OK, TEXT_HTML, TEXT_PLAIN};

verus! {

/// The body of the placeholder API endpoint.
pub const API_AUTH_BODY: &'static str = "API: auth";

/// The root document of the application. It is fixed when the server
/// starts and is never empty.
#[derive(Debug)]
pub struct Shell {
    document: String,
}

impl Shell {
    #[verifier::type_invariant]
    spec fn document_is_not_empty(&self) -> bool {
        self.document@.len() > 0
    }

    /// The text of the document.
    pub closed spec fn view(&self) -> Seq<char> {
        self.document@
    }

    /// Takes `document` as the application shell, unless it is empty.
    pub fn new(document: String) -> (r: Option<Shell>)
        ensures
            r is Some <==> document@.len() > 0,
            r matches Some(shell) ==> shell@ == document@,
    {
        if document.as_str().is_empty() {
            None
        } else {
            Some(Shell { document })
        }
    }

    /// The text of the document.
    pub fn document(&self) -> (r: &str)
        ensures
            r@ == self@,
            r@.len() > 0,
    {
        proof {
            use_type_invariant(self);
        }
        self.document.as_str()
    }
}

/// The reply that carries the application shell.
pub open spec fn index_reply(document: Seq<char>) -> ResponseView {
    text_reply(STATUS_OK, TEXT_HTML@, document)
}

/// The reply of the placeholder API endpoint.
pub open spec fn api_auth_reply() -> ResponseView {
    text_reply(STATUS_OK, TEXT_PLAIN@, API_AUTH_BODY@)
}

/// Text that is not empty has an encoding that is not empty.
pub proof fn lemma_encoding_is_not_empty(text: Seq<char>)
    requires
        text.len() > 0,
    ensures
        encode_utf8(text).len() > 0,
{
    assert(encode_scalar(text[0] as u32).len() > 0);
}

/// Answers with the application shell, whatever was asked for.
pub fn index_html(shell: &Shell) -> (r: Response)
    ensures
        r@ == index_reply(shell@),
        r@.body.len() > 0,
{
    let document = shell.document();
    proof {
        lemma_encoding_is_not_empty(document@);
    }
    Response::text(STATUS_OK, TEXT_HTML, document)
}

/// Answers for the placeholder API endpoint.
pub fn api_auth() -> (r: Response)
    ensures
        r@ == api_auth_reply(),
{
    Response::text(STATUS_OK, TEXT_PLAIN, API_AUTH_BODY)
}

} // verus!
