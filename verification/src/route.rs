//! The route table: which handler answers a request path.

use vstd::prelude::*;
use vstd::string::*;
use crate::bytes::{copy_from, same_bytes, starts_with};

verus! {

/// The path of the application shell.
pub const ROOT_PATH: &'static str = "/";

/// The path of the placeholder API endpoint.
pub const API_AUTH_PATH: &'static str = "/api/auth";

/// The prefix of every path that names a static asset.
pub const ASSETS_PREFIX: &'static str = "/assets/";

/// The handler that a request path selects.
#[derive(Clone, Debug, PartialEq, Eq)]
pub enum Route {
    /// The application shell, asked for by its own path.
    Index,
    /// The placeholder API endpoint.
    ApiAuth,
    /// A static asset; the field is the path behind the assets prefix.
    Asset(Vec<u8>),
    /// No route matches: the application shell answers in its place.
    Fallback,
}

/// The mathematical value of a [`Route`].
pub enum RouteView {
    Index,
    ApiAuth,
    Asset(Seq<u8>),
    Fallback,
}

impl View for Route {
    type V = RouteView;

    open spec fn view(&self) -> RouteView {
        match self {
            Route::Index => RouteView::Index,
            Route::ApiAuth => RouteView::ApiAuth,
            Route::Asset(key) => RouteView::Asset(key@),
            Route::Fallback => RouteView::Fallback,
        }
    }
}

/// Whether `path` lies below the assets prefix.
pub open spec fn names_asset(path: Seq<u8>) -> bool {
    ASSETS_PREFIX.spec_bytes().is_prefix_of(path)
}

/// The route table. The exact routes come first, then the assets prefix;
/// every other path falls back to the application shell.
pub open spec fn route_of(path: Seq<u8>) -> RouteView {
    if path == ROOT_PATH.spec_bytes() {
        RouteView::Index
    } else if path == API_AUTH_PATH.spec_bytes() {
        RouteView::ApiAuth
    } else if names_asset(path) {
        RouteView::Asset(path.skip(ASSETS_PREFIX.spec_bytes().len() as int))
    } else {
        RouteView::Fallback
    }
}

/// Selects the handler for the path of a GET request.
pub fn route(path: &[u8]) -> (r: Route)
    ensures
        r@ == route_of(path@),
{
    let prefix = ASSETS_PREFIX.as_bytes();
    if same_bytes(path, ROOT_PATH.as_bytes()) {
        Route::Index
    } else if same_bytes(path, API_AUTH_PATH.as_bytes()) {
        Route::ApiAuth
    } else if starts_with(path, prefix) {
        Route::Asset(copy_from(path, prefix.len()))
    } else {
        Route::Fallback
    }
}

} // verus!
