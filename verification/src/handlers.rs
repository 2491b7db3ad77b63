//! The handlers: from a request, and the stored file it names if any, to a
//! response.

use crate::encoding::{accepts_gzip, encode, negotiated};
use crate::error::Error;
use crate::headers::{find_line, lemma_line_named_matches, line_named};
use crate::response::{Response, ResponseView, Status};
use crate::router::{route, routed, Route, RouteView};
use crate::text::{ascii, bytes_of, trim, trimmed};
use vstd::prelude::*;

verus! {

/// The response with the given status, no header fields and no body.
pub open spec fn bare(status: Status) -> ResponseView {
    ResponseView { status, headers: Seq::empty(), body: Seq::empty() }
}

/// The client's declared identity: on the first header line that begins
/// with `user-agent:`, case disregarded, what follows that name, trimmed of
/// whitespace. Empty when there is no such line.
pub open spec fn user_agent(headers: Seq<u8>) -> Seq<u8> {
    match line_named(headers, ascii("user-agent:")) {
        Some(line) => trimmed(line.skip(ascii("user-agent:").len() as int)),
        None => Seq::empty(),
    }
}

/// The contents of a stored file, if there is one.
pub open spec fn contents(file: Option<&[u8]>) -> Option<Seq<u8>> {
    match file {
        Some(bytes) => Some(bytes@),
        None => None,
    }
}

/// What `GET path` is answered with, where the answer carries a payload:
/// the content type and the payload itself. A path under `/files/` has the
/// contents of the stored file that it names, if there is one; `/user-agent`
/// has the client's declared identity; a path under `/echo/` has what follows
/// that prefix.
pub open spec fn get_payload(path: Seq<u8>, headers: Seq<u8>, file: Option<Seq<u8>>) -> Option<
    (Seq<u8>, Seq<u8>),
> {
    match routed(ascii("GET"), path) {
        RouteView::FileGet(_) => match file {
            Some(bytes) => Some((ascii("application/octet-stream"), bytes)),
            None => None,
        },
        RouteView::UserAgent => Some((ascii("text/plain"), user_agent(headers))),
        RouteView::Echo(text) => Some((ascii("text/plain"), text)),
        _ => None,
    }
}

/// The response to `GET path` from a client that sent `headers`, where
/// `file` holds the contents of the stored file that the path names, or
/// nothing if no such file exists. A payload goes out in the encoding that
/// the client accepts. Without one the response is bare: 200 for `/`, and
/// 404 for every other path.
pub open spec fn get_response(path: Seq<u8>, headers: Seq<u8>, file: Option<Seq<u8>>) -> ResponseView {
    match get_payload(path, headers, file) {
        Some((content_type, payload)) => negotiated(content_type, payload, headers),
        None => if routed(ascii("GET"), path) is Root {
            bare(Status::Success)
        } else {
            bare(Status::NotFound)
        },
    }
}

/// The response to `GET path` carries a payload.
pub open spec fn get_has_payload(path: Seq<u8>, headers: Seq<u8>, file: Option<Seq<u8>>) -> bool {
    get_payload(path, headers, file) is Some
}

/// An upload: contents to be stored under a name, replacing what is there.
#[derive(Clone, Debug, PartialEq, Eq)]
pub struct Upload {
    pub name: Vec<u8>,
    pub contents: Vec<u8>,
}

/// The mathematical value of an `Upload`.
pub struct UploadView {
    pub name: Seq<u8>,
    pub contents: Seq<u8>,
}

impl View for Upload {
    type V = UploadView;

    open spec fn view(&self) -> UploadView {
        UploadView { name: self.name@, contents: self.contents@ }
    }
}

/// The upload that `POST path` with the given body asks for, if any: under
/// `/files/`, the body under the name that follows that prefix.
pub open spec fn post_upload(path: Seq<u8>, body: Seq<u8>) -> Option<UploadView> {
    match routed(ascii("POST"), path) {
        RouteView::FilePost(name) => Some(UploadView { name, contents: body }),
        _ => None,
    }
}

/// The response to `POST path`, to be sent once the upload it asks for, if
/// any, is stored.
pub open spec fn post_response(path: Seq<u8>) -> ResponseView {
    match routed(ascii("POST"), path) {
        RouteView::FilePost(_) => bare(Status::Created),
        _ => bare(Status::MethodNotAllowed),
    }
}

/// Extracts the client's declared identity from a header block.
pub fn extract_user_agent(headers: &[u8]) -> (res: Result<Vec<u8>, Error>)
    ensures
        res matches Ok(agent) && agent@ == user_agent(headers@),
{
    proof {
        reveal_strlit("user-agent:");
    }
    match find_line(headers, bytes_of("user-agent:")) {
        Some(line) => {
            proof {
                lemma_line_named_matches(headers@, ascii("user-agent:"));
            }
            let value = vstd::slice::slice_subrange(line, 11, line.len());
            assert(value@ =~= line@.skip(11));
            Ok(vstd::slice::slice_to_vec(trim(value)))
        },
        None => Ok(Vec::new()),
    }
}

/// Answers with the client's declared identity as plain text, in the
/// encoding that the client accepts.
pub fn serve_user_agent(user_agent: &[u8], headers: &[u8]) -> (res: Result<Response, Error>)
    ensures
        !accepts_gzip(headers@) ==> res is Ok,
        res matches Ok(r) ==> r@ == negotiated(ascii("text/plain"), user_agent@, headers@)
            && r@.well_formed(),
        res matches Err(e) ==> e == Error::Compression,
{
    proof {
        reveal_strlit("text/plain");
    }
    encode(bytes_of("text/plain"), user_agent, headers)
}

/// Answers with what follows the six bytes of `/echo/` in `path`, byte for
/// byte, as plain text, in the encoding that the client accepts.
pub fn serve_echo(path: &[u8], headers: &[u8]) -> (res: Result<Response, Error>)
    requires
        path@.len() >= 6,
    ensures
        !accepts_gzip(headers@) ==> res is Ok,
        res matches Ok(r) ==> r@ == negotiated(ascii("text/plain"), path@.skip(6), headers@)
            && r@.well_formed(),
        res matches Err(e) ==> e == Error::Compression,
{
    proof {
        reveal_strlit("text/plain");
    }
    let text = vstd::slice::slice_subrange(path, 6, path.len());
    assert(text@ =~= path@.skip(6));
    encode(bytes_of("text/plain"), text, headers)
}

/// Answers with the contents of a stored file as an octet stream, in the
/// encoding that the client accepts.
pub fn serve_file(contents: &[u8], headers: &[u8]) -> (res: Result<Response, Error>)
    ensures
        !accepts_gzip(headers@) ==> res is Ok,
        res matches Ok(r) ==> r@ == negotiated(
            ascii("application/octet-stream"),
            contents@,
            headers@,
        ) && r@.well_formed(),
        res matches Err(e) ==> e == Error::Compression,
{
    proof {
        reveal_strlit("application/octet-stream");
    }
    encode(bytes_of("application/octet-stream"), contents, headers)
}

/// Handles `GET path`. `file` holds the contents of the stored file that
/// the path names, or nothing if no such file exists; it is looked at only
/// where the path lies under `/files/`. The call fails only where the
/// response carries a payload, the client accepts gzip, and the compressor
/// fails.
pub fn handle_get(path: &[u8], headers: &[u8], file: Option<&[u8]>) -> (res: Result<
    Response,
    Error,
>)
    ensures
        !(accepts_gzip(headers@) && get_has_payload(path@, headers@, contents(file))) ==> res is Ok,
        res matches Ok(r) ==> r@ == get_response(path@, headers@, contents(file))
            && r@.well_formed(),
        res matches Err(e) ==> e == Error::Compression,
{
    proof {
        reveal_strlit("GET");
        reveal_strlit("/echo/");
    }
    match route(bytes_of("GET"), path) {
        Route::FileGet(_) => match file {
            Some(bytes) => serve_file(bytes, headers),
            None => Ok(Response::empty(Status::NotFound)),
        },
        Route::UserAgent => {
            let agent = match extract_user_agent(headers) {
                Ok(agent) => agent,
                Err(e) => {
                    return Err(e);
                },
            };
            serve_user_agent(agent.as_slice(), headers)
        },
        Route::Echo(_) => serve_echo(path, headers),
        Route::Root => Ok(Response::empty(Status::Success)),
        _ => Ok(Response::empty(Status::NotFound)),
    }
}

/// Handles `POST path`: under `/files/`, asks for the body to be stored
/// under the name that follows that prefix, and answers 201 once it is;
/// elsewhere answers 405.
pub fn handle_post(path: &[u8], body: &[u8]) -> (res: (Response, Option<Upload>))
    ensures
        res.0@ == post_response(path@),
        res.0@.well_formed(),
        match res.1 {
            Some(upload) => post_upload(path@, body@) == Some(upload@),
            None => post_upload(path@, body@) is None,
        },
{
    proof {
        reveal_strlit("POST");
    }
    match route(bytes_of("POST"), path) {
        Route::FilePost(name) => (
            Response::empty(Status::Created),
            Some(
                Upload {
                    name: vstd::slice::slice_to_vec(name),
                    contents: vstd::slice::slice_to_vec(body),
                },
            ),
        ),
        _ => (Response::empty(Status::MethodNotAllowed), None),
    }
}

} // verus!
