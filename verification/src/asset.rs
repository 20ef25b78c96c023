//! From the outcome of reading an asset to the reply.

use vstd::prelude::*;
use vstd::string::*;
use vstd::utf8::valid_utf8;
use crate::locate::AssetFile;
use crate::response::{
    bare_reply, text_reply, Response, ResponseView, OCTET_STREAM, STATUS_INTERNAL_SERVER_ERROR,
    STATUS_NOT_FOUND, STATUS_OK, TEXT_PLAIN,
};

verus! {

/// What the body of a reply to a failed read begins with.
pub const FAILURE_PREFIX: &'static str = "Unhandled internal error: ";

/// What came of reading a file below the asset root.
#[derive(Debug)]
pub enum ReadOutcome {
    /// The file was read; the field holds its bytes.
    Contents(Vec<u8>),
    /// There is no file of that name.
    Missing,
    /// The read failed for another reason, which the field describes.
    Failed(String),
}

/// The mathematical value of a [`ReadOutcome`].
pub enum ReadOutcomeView {
    Contents(Seq<u8>),
    Missing,
    Failed(Seq<char>),
}

impl View for ReadOutcome {
    type V = ReadOutcomeView;

    open spec fn view(&self) -> ReadOutcomeView {
        match self {
            ReadOutcome::Contents(bytes) => ReadOutcomeView::Contents(bytes@),
            ReadOutcome::Missing => ReadOutcomeView::Missing,
            ReadOutcome::Failed(description) => ReadOutcomeView::Failed(description@),
        }
    }
}

/// The media type that the table of known file extensions gives for a file
/// of the given name, if the name has an extension that the table knows.
pub uninterp spec fn guessed_media_type(name: Seq<u8>) -> Option<Seq<char>>;

/// Looks up the media type for a file name.
///
/// Trusted: the body calls `mime_guess::from_path` on the name and
/// `MimeGuess::first_raw` on what it gives. The contract only gives the
/// result a name; it claims that the result depends on the name alone.
#[verifier::external_body]
fn guess_media_type(name: &[u8]) -> (r: Option<String>)
    requires
        valid_utf8(name@),
    ensures
        r is Some <==> guessed_media_type(name@) is Some,
        r matches Some(media_type) ==> guessed_media_type(name@) == Some(media_type@),
{
    mime_guess::from_path(String::from_utf8_lossy(name).as_ref()).first_raw().map(String::from)
}

/// The media type of a file: the guess for its last name.
pub open spec fn media_type_of(names: Seq<Seq<u8>>) -> Option<Seq<char>> {
    if names.len() > 0 {
        guessed_media_type(names.last())
    } else {
        None
    }
}

/// The reply that carries a file. Where no media type is known for it, it
/// goes out as a stream of octets.
pub open spec fn file_reply(media_type: Option<Seq<char>>, contents: Seq<u8>) -> ResponseView {
    ResponseView {
        status: STATUS_OK,
        content_type: Some(
            match media_type {
                Some(known) => known,
                None => OCTET_STREAM@,
            },
        ),
        body: contents,
    }
}

/// The reply that reports a failed read.
pub open spec fn failure_reply(description: Seq<char>) -> ResponseView {
    text_reply(STATUS_INTERNAL_SERVER_ERROR, TEXT_PLAIN@, FAILURE_PREFIX@ + description)
}

/// The reply to a request for an asset, given the media type of the file and
/// what came of reading it.
pub open spec fn outcome_reply(
    media_type: Option<Seq<char>>,
    outcome: ReadOutcomeView,
) -> ResponseView {
    match outcome {
        ReadOutcomeView::Contents(bytes) => file_reply(media_type, bytes),
        ReadOutcomeView::Missing => bare_reply(STATUS_NOT_FOUND),
        ReadOutcomeView::Failed(description) => failure_reply(description),
    }
}

/// The text of an optional string.
pub open spec fn text_of(value: Option<String>) -> Option<Seq<char>> {
    match value {
        Some(text) => Some(text@),
        None => None,
    }
}

/// Builds the reply to a request for an asset from the media type of the
/// file and the outcome of reading it.
pub fn serve(media_type: Option<String>, outcome: ReadOutcome) -> (r: Response)
    ensures
        r@ == outcome_reply(text_of(media_type), outcome@),
{
    match outcome {
        ReadOutcome::Contents(bytes) => {
            let content_type = match media_type {
                Some(known) => known,
                None => OCTET_STREAM.to_owned(),
            };
            Response { status: STATUS_OK, content_type: Some(content_type), body: bytes }
        },
        ReadOutcome::Missing => Response::bare(STATUS_NOT_FOUND),
        ReadOutcome::Failed(description) => {
            let mut text = FAILURE_PREFIX.to_owned();
            text.append(description.as_str());
            Response::text(STATUS_INTERNAL_SERVER_ERROR, TEXT_PLAIN, text.as_str())
        },
    }
}

/// The media type of `file`, as far as its name tells.
pub fn media_type(file: &AssetFile) -> (r: Option<String>)
    ensures
        text_of(r) == media_type_of(file@),
{
    let names = file.names();
    if names.len() > 0 {
        let last = &names[names.len() - 1];
        assert(file@.last() == last@);
        guess_media_type(last.as_slice())
    } else {
        None
    }
}

} // verus!
