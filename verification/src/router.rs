//! Routing: from the method and path of a request to what handles it.

use crate::text::{ascii, bytes_of, equal, has_prefix, starts_with};
use vstd::prelude::*;

verus! {

/// What handles a request. Rules are tried in the order of the variants, and
/// the first that applies decides.
#[derive(Clone, Copy, Debug, PartialEq, Eq)]
pub enum Route<'a> {
    /// `GET /files/{name}`: the stored file `name`.
    FileGet(&'a [u8]),
    /// `POST /files/{name}`: an upload to be stored as `name`.
    FilePost(&'a [u8]),
    /// `GET /user-agent`: the client's declared identity.
    UserAgent,
    /// `GET /echo/{text}`: `text` itself.
    Echo(&'a [u8]),
    /// `GET /`.
    Root,
    /// `GET` of any other path.
    NotFound,
    /// Any other method, and `POST` outside `/files/`.
    MethodNotAllowed,
}

/// The mathematical value of a `Route`.
pub enum RouteView {
    FileGet(Seq<u8>),
    FilePost(Seq<u8>),
    UserAgent,
    Echo(Seq<u8>),
    Root,
    NotFound,
    MethodNotAllowed,
}

impl<'a> View for Route<'a> {
    type V = RouteView;

    open spec fn view(&self) -> RouteView {
        match *self {
            Route::FileGet(name) => RouteView::FileGet(name@),
            Route::FilePost(name) => RouteView::FilePost(name@),
            Route::UserAgent => RouteView::UserAgent,
            Route::Echo(text) => RouteView::Echo(text@),
            Route::Root => RouteView::Root,
            Route::NotFound => RouteView::NotFound,
            Route::MethodNotAllowed => RouteView::MethodNotAllowed,
        }
    }
}

/// The route of a request, by method and path. Methods and paths are
/// compared byte for byte.
pub open spec fn routed(method: Seq<u8>, path: Seq<u8>) -> RouteView {
    if method == ascii("GET") && has_prefix(path, ascii("/files/")) {
        RouteView::FileGet(path.skip(7))
    } else if method == ascii("POST") && has_prefix(path, ascii("/files/")) {
        RouteView::FilePost(path.skip(7))
    } else if method == ascii("GET") && path == ascii("/user-agent") {
        RouteView::UserAgent
    } else if method == ascii("GET") && has_prefix(path, ascii("/echo/")) {
        RouteView::Echo(path.skip(6))
    } else if method == ascii("GET") && path == ascii("/") {
        RouteView::Root
    } else if method == ascii("GET") {
        RouteView::NotFound
    } else {
        RouteView::MethodNotAllowed
    }
}

/// Finds the route of a request.
pub fn route<'a>(method: &[u8], path: &'a [u8]) -> (r: Route<'a>)
    ensures
        r@ == routed(method@, path@),
{
    proof {
        reveal_strlit("GET");
        reveal_strlit("POST");
        reveal_strlit("/files/");
        reveal_strlit("/user-agent");
        reveal_strlit("/echo/");
        reveal_strlit("/");
    }
    let get = equal(method, bytes_of("GET"));
    let post = equal(method, bytes_of("POST"));
    if (get || post) && starts_with(path, bytes_of("/files/")) {
        let name = vstd::slice::slice_subrange(path, 7, path.len());
        assert(name@ =~= path@.skip(7));
        if get {
            Route::FileGet(name)
        } else {
            Route::FilePost(name)
        }
    } else if !get {
        Route::MethodNotAllowed
    } else if equal(path, bytes_of("/user-agent")) {
        Route::UserAgent
    } else if starts_with(path, bytes_of("/echo/")) {
        let text = vstd::slice::slice_subrange(path, 6, path.len());
        assert(text@ =~= path@.skip(6));
        Route::Echo(text)
    } else if equal(path, bytes_of("/")) {
        Route::Root
    } else {
        Route::NotFound
    }
}

} // verus!
