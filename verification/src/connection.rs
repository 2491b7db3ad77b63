//! The life of one connection: a state machine that decides, driven by a
//! caller that does the outside work.
//!
//! The caller owns the socket and the file store. It reports what happened
//! as an [`Event`] and is told what to do next as an [`Action`]. One
//! connection serves one request and is closed after the response, or
//! after the first failure.

use crate::encoding::accepts_gzip;
use crate::error::Error;
use crate::handlers::{
    bare, contents, get_has_payload, get_response, handle_get, handle_post, post_response,
    post_upload, Upload, UploadView,
};
use crate::request::{read_request, request, Request, RequestView};
use crate::response::{Response, ResponseView, Status};
use crate::router::{route, routed, Route, RouteView};
use crate::text::{ascii, bytes_of, equal};
use vstd::prelude::*;

verus! {

/// The state of a connection.
#[derive(Clone, Debug, PartialEq, Eq)]
pub enum Connection {
    /// Accepted; nothing has been read.
    Accepted,
    /// Waiting for the bytes of the request.
    Reading,
    /// Dispatching a `GET` under `/files/`: waiting for the stored file
    /// that the path names.
    Fetching { path: Vec<u8>, headers: Vec<u8> },
    /// Dispatching a `POST` under `/files/`: waiting for the upload to be
    /// stored. Holds the response to send once it is.
    Storing(Response),
    /// Waiting for the response to be written.
    Writing,
    /// Done: the response was written.
    Closed,
    /// Done: something failed.
    Failed,
}

/// What the caller reports.
#[derive(Clone, Debug, PartialEq, Eq)]
pub enum Event {
    /// The connection is open.
    Opened,
    /// All bytes received so far, and whether the peer has ended its input.
    Input { bytes: Vec<u8>, end: bool },
    /// The contents of the stored file asked for, or nothing if no such
    /// file exists.
    Fetched(Option<Vec<u8>>),
    /// The upload was stored.
    Stored,
    /// The response was written.
    Written,
    /// What was asked for could not be done.
    Failed,
}

/// What the caller is to do next.
#[derive(Clone, Debug, PartialEq, Eq)]
pub enum Action {
    /// Nothing: the event did not apply.
    Idle,
    /// Read more bytes, then report `Input`.
    Read,
    /// Look up the stored file of this name, then report `Fetched`.
    Fetch(Vec<u8>),
    /// Store the upload, replacing what is there, then report `Stored`.
    Store(Upload),
    /// Write these bytes, then report `Written`.
    Write(Vec<u8>),
    /// Close the connection.
    Close,
}

/// The mathematical value of a `Connection`.
pub enum ConnectionView {
    Accepted,
    Reading,
    Fetching { path: Seq<u8>, headers: Seq<u8> },
    Storing(ResponseView),
    Writing,
    Closed,
    Failed,
}

/// The mathematical value of an `Event`.
pub enum EventView {
    Opened,
    Input { bytes: Seq<u8>, end: bool },
    Fetched(Option<Seq<u8>>),
    Stored,
    Written,
    Failed,
}

/// The mathematical value of an `Action`.
pub enum ActionView {
    Idle,
    Read,
    Fetch(Seq<u8>),
    Store(UploadView),
    Write(Seq<u8>),
    Close,
}

impl View for Connection {
    type V = ConnectionView;

    open spec fn view(&self) -> ConnectionView {
        match self {
            Connection::Accepted => ConnectionView::Accepted,
            Connection::Reading => ConnectionView::Reading,
            Connection::Fetching { path, headers } => ConnectionView::Fetching {
                path: path@,
                headers: headers@,
            },
            Connection::Storing(response) => ConnectionView::Storing(response@),
            Connection::Writing => ConnectionView::Writing,
            Connection::Closed => ConnectionView::Closed,
            Connection::Failed => ConnectionView::Failed,
        }
    }
}

impl View for Event {
    type V = EventView;

    open spec fn view(&self) -> EventView {
        match self {
            Event::Opened => EventView::Opened,
            Event::Input { bytes, end } => EventView::Input { bytes: bytes@, end: *end },
            Event::Fetched(Some(bytes)) => EventView::Fetched(Some(bytes@)),
            Event::Fetched(None) => EventView::Fetched(None),
            Event::Stored => EventView::Stored,
            Event::Written => EventView::Written,
            Event::Failed => EventView::Failed,
        }
    }
}

impl View for Action {
    type V = ActionView;

    open spec fn view(&self) -> ActionView {
        match self {
            Action::Idle => ActionView::Idle,
            Action::Read => ActionView::Read,
            Action::Fetch(name) => ActionView::Fetch(name@),
            Action::Store(upload) => ActionView::Store(upload@),
            Action::Write(bytes) => ActionView::Write(bytes@),
            Action::Close => ActionView::Close,
        }
    }
}

/// The step that sends a response: its bytes are to be written.
pub open spec fn answered(response: ResponseView) -> (ConnectionView, ActionView) {
    (ConnectionView::Writing, ActionView::Write(response.wire()))
}

/// The step that gives up: the connection is to be closed with nothing
/// more written.
pub open spec fn given_up() -> (ConnectionView, ActionView) {
    (ConnectionView::Failed, ActionView::Close)
}

/// The step that a complete request calls for. `POST` is stored or
/// refused, `GET` is answered, after a look into the file store where the
/// path lies under `/files/`, and every other method is refused.
pub open spec fn dispatched(r: RequestView) -> (ConnectionView, ActionView) {
    if r.method == ascii("POST") {
        match post_upload(r.path, r.body) {
            Some(upload) => (
                ConnectionView::Storing(post_response(r.path)),
                ActionView::Store(upload),
            ),
            None => answered(post_response(r.path)),
        }
    } else if r.method == ascii("GET") {
        match routed(r.method, r.path) {
            RouteView::FileGet(name) => (
                ConnectionView::Fetching { path: r.path, headers: r.headers },
                ActionView::Fetch(name),
            ),
            _ => answered(get_response(r.path, r.headers, None)),
        }
    } else {
        answered(bare(Status::MethodNotAllowed))
    }
}

/// The step from a state on an event, where every response can be built.
/// While the input holds no complete request the machine reads on, unless
/// the input has ended or will never be a request. `Closed` and `Failed`
/// absorb every event. An event that a state does not wait for fails the
/// connection once reading has begun, and is ignored before.
pub open spec fn stepped(c: ConnectionView, e: EventView) -> (ConnectionView, ActionView) {
    match c {
        ConnectionView::Accepted => match e {
            EventView::Opened => (ConnectionView::Reading, ActionView::Read),
            _ => (ConnectionView::Accepted, ActionView::Idle),
        },
        ConnectionView::Reading => match e {
            EventView::Input { bytes, end } => match request(bytes) {
                Ok(r) => dispatched(r),
                Err(error) => if end || error == Error::Malformed {
                    given_up()
                } else {
                    (ConnectionView::Reading, ActionView::Read)
                },
            },
            _ => given_up(),
        },
        ConnectionView::Fetching { path, headers } => match e {
            EventView::Fetched(file) => answered(get_response(path, headers, file)),
            _ => given_up(),
        },
        ConnectionView::Storing(response) => match e {
            EventView::Stored => answered(response),
            _ => given_up(),
        },
        ConnectionView::Writing => match e {
            EventView::Written => (ConnectionView::Closed, ActionView::Close),
            _ => given_up(),
        },
        ConnectionView::Closed => (ConnectionView::Closed, ActionView::Idle),
        ConnectionView::Failed => (ConnectionView::Failed, ActionView::Idle),
    }
}

/// The step from a state on an event calls the compressor: it answers a
/// `GET` whose response carries a payload, to a client that accepts gzip.
pub open spec fn compresses(c: ConnectionView, e: EventView) -> bool {
    match (c, e) {
        (ConnectionView::Reading, EventView::Input { bytes, .. }) => match request(bytes) {
            Ok(r) => r.method == ascii("GET") && !(routed(r.method, r.path) is FileGet)
                && get_has_payload(r.path, r.headers, None) && accepts_gzip(r.headers),
            Err(_) => false,
        },
        (ConnectionView::Fetching { path, headers }, EventView::Fetched(file)) => get_has_payload(
            path,
            headers,
            file,
        ) && accepts_gzip(headers),
        _ => false,
    }
}

/// A step that the machine may take from state `c` on event `e`: the one
/// that `stepped` gives, or, where that one calls the compressor, the one
/// that gives up.
pub open spec fn steps_to(
    c: ConnectionView,
    e: EventView,
    next: ConnectionView,
    action: ActionView,
) -> bool {
    (next, action) == stepped(c, e) || (compresses(c, e) && (next, action) == given_up())
}

/// Sends a response, or gives up where it could not be built.
fn answer(response: Result<Response, Error>) -> (out: (Connection, Action))
    ensures
        match response {
            Ok(r) => out.0@ == answered(r@).0 && out.1@ == answered(r@).1,
            Err(_) => out.0@ == given_up().0 && out.1@ == given_up().1,
        },
{
    match response {
        Ok(r) => (Connection::Writing, Action::Write(r.build())),
        Err(_) => (Connection::Failed, Action::Close),
    }
}

/// Decides what a complete request calls for.
fn dispatch(r: Request) -> (out: (Connection, Action))
    ensures
        (out.0@ == dispatched(r@).0 && out.1@ == dispatched(r@).1) || (r@.method == ascii("GET")
            && !(routed(r@.method, r@.path) is FileGet) && get_has_payload(r@.path, r@.headers, None)
            && accepts_gzip(r@.headers) && out.0@ == given_up().0 && out.1@ == given_up().1),
{
    proof {
        reveal_strlit("GET");
        reveal_strlit("POST");
    }
    if equal(r.method.as_slice(), bytes_of("POST")) {
        let (response, upload) = handle_post(r.path.as_slice(), r.body.as_slice());
        match upload {
            Some(upload) => (Connection::Storing(response), Action::Store(upload)),
            None => answer(Ok(response)),
        }
    } else if equal(r.method.as_slice(), bytes_of("GET")) {
        match route(r.method.as_slice(), r.path.as_slice()) {
            Route::FileGet(name) => {
                let name = vstd::slice::slice_to_vec(name);
                (Connection::Fetching { path: r.path, headers: r.headers }, Action::Fetch(name))
            },
            _ => answer(handle_get(r.path.as_slice(), r.headers.as_slice(), None)),
        }
    } else {
        answer(Ok(Response::empty(Status::MethodNotAllowed)))
    }
}

impl Connection {
    /// The state of a connection that was just accepted.
    pub fn new() -> (c: Connection)
        ensures
            c@ == ConnectionView::Accepted,
    {
        Connection::Accepted
    }

    /// Takes one step: from this state, on `event`, to the next state and
    /// the action that the caller is to take. The step is the one that
    /// `stepped` gives, unless it calls the compressor and the compressor
    /// fails: then the connection fails.
    pub fn step(self, event: Event) -> (out: (Connection, Action))
        ensures
            steps_to(self@, event@, out.0@, out.1@),
            !compresses(self@, event@) ==> (out.0@, out.1@) == stepped(self@, event@),
    {
        match self {
            Connection::Accepted => match event {
                Event::Opened => (Connection::Reading, Action::Read),
                _ => (Connection::Accepted, Action::Idle),
            },
            Connection::Reading => match event {
                Event::Input { bytes, end } => match read_request(bytes.as_slice()) {
                    Ok(r) => dispatch(r),
                    Err(Error::Malformed) => (Connection::Failed, Action::Close),
                    Err(_) => if end {
                        (Connection::Failed, Action::Close)
                    } else {
                        (Connection::Reading, Action::Read)
                    },
                },
                _ => (Connection::Failed, Action::Close),
            },
            Connection::Fetching { path, headers } => match event {
                Event::Fetched(Some(bytes)) => answer(
                    handle_get(path.as_slice(), headers.as_slice(), Some(bytes.as_slice())),
                ),
                Event::Fetched(None) => answer(
                    handle_get(path.as_slice(), headers.as_slice(), None),
                ),
                _ => (Connection::Failed, Action::Close),
            },
            Connection::Storing(response) => match event {
                Event::Stored => answer(Ok(response)),
                _ => (Connection::Failed, Action::Close),
            },
            Connection::Writing => match event {
                Event::Written => (Connection::Closed, Action::Close),
                _ => (Connection::Failed, Action::Close),
            },
            Connection::Closed => (Connection::Closed, Action::Idle),
            Connection::Failed => (Connection::Failed, Action::Idle),
        }
    }
}

} // verus!
