//! One request, from its path to its reply.
//!
//! The server answers in at most two steps. The first looks at the path
//! alone; where it names an asset, the caller reads the file and the second
//! step answers from what came of the read.

use vstd::prelude::*;
use vstd::string::*;
use crate::asset::{media_type, media_type_of, outcome_reply, serve, ReadOutcome, ReadOutcomeView};
use crate::escape::{lemma_plain_path_decodes_to_itself, percent_decoded, PERCENT};
use crate::locate::{
    is_plain_name, lemma_located_names_are_plain, lemma_trimmed_is_suffix, parent_dir, resolve,
    resolved, split, trim_leading, AssetFile,
};
use crate::response::{
    bare_reply, Response, ResponseView, STATUS_NOT_FOUND, STATUS_OK, TEXT_HTML,
};
use crate::route::{
    names_asset, route, route_of, Route, RouteView, API_AUTH_PATH, ASSETS_PREFIX, ROOT_PATH,
};
use crate::shell::{
    api_auth, api_auth_reply, index_html, index_reply, lemma_encoding_is_not_empty, Shell,
};

verus! {

/// What the server does first for a request.
#[derive(Debug)]
pub enum Step {
    /// It answers at once.
    Reply(Response),
    /// It has the caller read a file below the asset root.
    Read(AssetFile),
}

/// The mathematical value of a [`Step`].
pub enum StepView {
    Reply(ResponseView),
    Read(Seq<Seq<u8>>),
}

impl View for Step {
    type V = StepView;

    open spec fn view(&self) -> StepView {
        match self {
            Step::Reply(response) => StepView::Reply(response@),
            Step::Read(file) => StepView::Read(file@),
        }
    }
}

/// The first step for a GET request for `path`, on a server whose
/// application shell is `document`.
pub open spec fn first_step(document: Seq<char>, path: Seq<u8>) -> StepView {
    match route_of(path) {
        RouteView::Index => StepView::Reply(index_reply(document)),
        RouteView::ApiAuth => StepView::Reply(api_auth_reply()),
        RouteView::Asset(key) => match resolved(key) {
            Some(names) => StepView::Read(names),
            None => StepView::Reply(bare_reply(STATUS_NOT_FOUND)),
        },
        RouteView::Fallback => StepView::Reply(index_reply(document)),
    }
}

/// The reply to a request for the asset `names`, once the read has ended.
pub open spec fn second_step(names: Seq<Seq<u8>>, outcome: ReadOutcomeView) -> ResponseView {
    outcome_reply(media_type_of(names), outcome)
}

/// Takes the first step for a GET request for `path`.
pub fn begin(shell: &Shell, path: &[u8]) -> (step: Step)
    ensures
        step@ == first_step(shell@, path@),
{
    match route(path) {
        Route::Index => Step::Reply(index_html(shell)),
        Route::ApiAuth => Step::Reply(api_auth()),
        Route::Asset(key) => match resolve(key.as_slice()) {
            Some(file) => Step::Read(file),
            None => Step::Reply(Response::bare(STATUS_NOT_FOUND)),
        },
        Route::Fallback => Step::Reply(index_html(shell)),
    }
}

/// Answers a request for the asset `file` from what came of reading it.
pub fn finish(file: &AssetFile, outcome: ReadOutcome) -> (r: Response)
    ensures
        r@ == second_step(file@, outcome@),
{
    serve(media_type(file), outcome)
}

/// A path that no route matches is answered as the root path is: with the
/// application shell.
pub proof fn lemma_unmatched_path_gets_shell(document: Seq<char>, path: Seq<u8>)
    requires
        path != ROOT_PATH.spec_bytes(),
        path != API_AUTH_PATH.spec_bytes(),
        !names_asset(path),
    ensures
        first_step(document, path) == first_step(document, ROOT_PATH.spec_bytes()),
        first_step(document, path) == StepView::Reply(index_reply(document)),
{
}

/// The root path is answered with the application shell: status 200, the
/// HTML content type, and the document itself as the body, which is not
/// empty where the document is not.
pub proof fn lemma_root_path_gets_shell(document: Seq<char>)
    requires
        document.len() > 0,
    ensures
        first_step(document, ROOT_PATH.spec_bytes()) == StepView::Reply(index_reply(document)),
        index_reply(document).status == STATUS_OK,
        index_reply(document).content_type == Some(TEXT_HTML@),
        index_reply(document).body == vstd::utf8::encode_utf8(document),
        index_reply(document).body.len() > 0,
{
    lemma_encoding_is_not_empty(document);
}

/// The path of the placeholder API endpoint is answered by that endpoint,
/// whatever the application shell is.
pub proof fn lemma_api_path_gets_api_reply(document: Seq<char>)
    ensures
        first_step(document, API_AUTH_PATH.spec_bytes()) == StepView::Reply(api_auth_reply()),
{
    broadcast use is_ascii_spec_bytes;

    reveal_strlit("/");
    reveal_strlit("/api/auth");
    assert(is_ascii("/"));
    assert(is_ascii("/api/auth"));
    assert(ROOT_PATH.spec_bytes().len() != API_AUTH_PATH.spec_bytes().len());
}

/// Every file that the server asks to be read is named by plain names
/// alone, so it lies below the asset root.
pub proof fn lemma_read_stays_below_root(document: Seq<char>, path: Seq<u8>)
    ensures
        first_step(document, path) matches StepView::Read(names) ==> forall|i: int|
            0 <= i < names.len() ==> is_plain_name(#[trigger] names[i]),
{
    if let RouteView::Asset(key) = route_of(path) {
        lemma_located_names_are_plain(percent_decoded(trim_leading(key)));
    }
}

/// A request below the assets prefix whose decoded path steps to a
/// directory above is denied: the reply is 404 and no file is read.
pub proof fn lemma_step_above_is_denied(document: Seq<char>, path: Seq<u8>)
    requires
        names_asset(path),
        split(
            percent_decoded(trim_leading(path.skip(ASSETS_PREFIX.spec_bytes().len() as int))),
        ).contains(parent_dir()),
    ensures
        first_step(document, path) == StepView::Reply(bare_reply(STATUS_NOT_FOUND)),
{
    broadcast use is_ascii_spec_bytes;

    reveal_strlit("/");
    reveal_strlit("/api/auth");
    reveal_strlit("/assets/");
    assert(is_ascii("/"));
    assert(is_ascii("/api/auth"));
    assert(is_ascii("/assets/"));
    assert(ROOT_PATH.spec_bytes().len() < ASSETS_PREFIX.spec_bytes().len());
    assert(API_AUTH_PATH.spec_bytes()[2] != ASSETS_PREFIX.spec_bytes()[2]);
}

/// A request below the assets prefix that spells out a step to a directory
/// above, with no escape in its path, is denied.
pub proof fn lemma_literal_step_above_is_denied(document: Seq<char>, path: Seq<u8>)
    requires
        names_asset(path),
        !path.contains(PERCENT),
        split(trim_leading(path.skip(ASSETS_PREFIX.spec_bytes().len() as int))).contains(
            parent_dir(),
        ),
    ensures
        first_step(document, path) == StepView::Reply(bare_reply(STATUS_NOT_FOUND)),
{
    let key = path.skip(ASSETS_PREFIX.spec_bytes().len() as int);
    lemma_trimmed_is_suffix(key);
    let trimmed = trim_leading(key);
    assert forall|i: int| 0 <= i < trimmed.len() implies trimmed[i] != PERCENT by {
        let at = i + (key.len() - trimmed.len()) + (path.len() - key.len());
        assert(trimmed[i] == path[at]);
    }
    lemma_plain_path_decodes_to_itself(trimmed);
    lemma_step_above_is_denied(document, path);
}

} // verus!
