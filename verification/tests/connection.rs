use flate2::read::GzDecoder;
use http_core::connection::{Action, Connection, Event};
use http_core::handlers::Upload;
use http_core::response::{Response, Status};
use std::io::Read;

fn gunzip(stream: &[u8]) -> Vec<u8> {
    let mut out = Vec::new();
    GzDecoder::new(stream).read_to_end(&mut out).unwrap();
    out
}

/// Splits wire bytes into head and body.
fn split(wire: &[u8]) -> (String, Vec<u8>) {
    let at = wire.windows(4).position(|w| w == b"\r\n\r\n").unwrap();
    (String::from_utf8(wire[..at + 2].to_vec()).unwrap(), wire[at + 4..].to_vec())
}

/// An in-memory file store.
struct Store {
    files: Vec<(Vec<u8>, Vec<u8>)>,
}

impl Store {
    fn get(&self, name: &[u8]) -> Option<Vec<u8>> {
        self.files.iter().find(|f| f.0 == name).map(|f| f.1.clone())
    }

    fn put(&mut self, name: Vec<u8>, contents: Vec<u8>) {
        self.files.retain(|f| f.0 != name);
        self.files.push((name, contents));
    }
}

/// Drives one connection to its end over a request received in the given
/// chunks, and returns what was written and the final state.
fn serve(chunks: &[&[u8]], store: &mut Store) -> (Option<Vec<u8>>, Connection) {
    let mut received: Vec<u8> = Vec::new();
    let mut next = 0;
    let mut written = None;
    let (mut state, mut action) = Connection::new().step(Event::Opened);
    loop {
        let event = match action {
            Action::Read => {
                if next < chunks.len() {
                    received.extend_from_slice(chunks[next]);
                    next += 1;
                }
                Event::Input { bytes: received.clone(), end: next == chunks.len() }
            }
            Action::Fetch(name) => Event::Fetched(store.get(&name)),
            Action::Store(upload) => {
                store.put(upload.name, upload.contents);
                Event::Stored
            }
            Action::Write(bytes) => {
                assert!(written.is_none());
                written = Some(bytes);
                Event::Written
            }
            Action::Close => return (written, state),
            Action::Idle => panic!("idle while running"),
        };
        let out = state.step(event);
        state = out.0;
        action = out.1;
    }
}

fn serve_one(request: &[u8], store: &mut Store) -> Vec<u8> {
    let (written, state) = serve(&[request], store);
    assert_eq!(state, Connection::Closed);
    written.unwrap()
}

#[test]
fn a_connection_starts_accepted() {
    assert_eq!(Connection::new(), Connection::Accepted);
}

#[test]
fn states_in_order() {
    let c = Connection::new();
    let (c, a) = c.step(Event::Opened);
    assert_eq!((&c, &a), (&Connection::Reading, &Action::Read));
    let (c, a) = c.step(Event::Input { bytes: b"GET / HTTP/1.1\r\n\r\n".to_vec(), end: false });
    assert_eq!(c, Connection::Writing);
    assert_eq!(a, Action::Write(b"HTTP/1.1 200 OK\r\n\r\n".to_vec()));
    let (c, a) = c.step(Event::Written);
    assert_eq!((&c, &a), (&Connection::Closed, &Action::Close));
    let (c, a) = c.step(Event::Opened);
    assert_eq!((&c, &a), (&Connection::Closed, &Action::Idle));
}

#[test]
fn reading_goes_on_until_the_request_is_complete() {
    let c = Connection::Reading;
    let (c, a) = c.step(Event::Input { bytes: b"POST /files/a HT".to_vec(), end: false });
    assert_eq!((&c, &a), (&Connection::Reading, &Action::Read));
    let (c, a) = c.step(Event::Input { bytes: b"POST /files/a HTTP/1.1\r\nContent-Length: 4\r\n".to_vec(), end: false });
    assert_eq!((&c, &a), (&Connection::Reading, &Action::Read));
    let (c, a) =
        c.step(Event::Input { bytes: b"POST /files/a HTTP/1.1\r\nContent-Length: 4\r\n\r\nab".to_vec(), end: false });
    assert_eq!((&c, &a), (&Connection::Reading, &Action::Read));
    let (c, a) =
        c.step(Event::Input { bytes: b"POST /files/a HTTP/1.1\r\nContent-Length: 4\r\n\r\nabcd".to_vec(), end: false });
    assert_eq!(c, Connection::Storing(Response::empty(Status::Created)));
    assert_eq!(a, Action::Store(Upload { name: b"a".to_vec(), contents: b"abcd".to_vec() }));
}

#[test]
fn input_that_ends_early_fails() {
    let inputs: [&[u8]; 4] = [
        b"",
        b"GET / HTTP/1.1\r\n",
        b"GET / HTTP/1.1\r\nHost: a\r\n",
        b"POST /files/a HTTP/1.1\r\nContent-Length: 4\r\n\r\nabc",
    ];
    for input in inputs {
        let (c, a) = Connection::Reading.step(Event::Input { bytes: input.to_vec(), end: true });
        assert_eq!((&c, &a), (&Connection::Failed, &Action::Close));
        let (written, state) = serve(&[input], &mut Store { files: vec![] });
        assert_eq!(written, None);
        assert_eq!(state, Connection::Failed);
    }
}

#[test]
fn a_complete_request_is_served_though_the_input_has_ended() {
    let (c, _) = Connection::Reading.step(Event::Input { bytes: b"GET / HTTP/1.1\r\n\r\n".to_vec(), end: true });
    assert_eq!(c, Connection::Writing);
}

#[test]
fn malformed_input_fails_at_once() {
    let (c, a) = Connection::Reading.step(Event::Input { bytes: b"GET /\xff HTTP/1.1\r\n\r\n".to_vec(), end: false });
    assert_eq!((&c, &a), (&Connection::Failed, &Action::Close));
}

#[test]
fn failures_fail_the_connection() {
    let states = [
        Connection::Reading,
        Connection::Fetching { path: b"/files/a".to_vec(), headers: vec![] },
        Connection::Storing(Response::empty(Status::Created)),
        Connection::Writing,
    ];
    for state in states {
        let (c, a) = state.step(Event::Failed);
        assert_eq!((&c, &a), (&Connection::Failed, &Action::Close));
    }
}

#[test]
fn events_out_of_turn_fail_the_connection() {
    let (c, a) = Connection::Reading.step(Event::Written);
    assert_eq!((&c, &a), (&Connection::Failed, &Action::Close));
    let (c, a) = Connection::Writing.step(Event::Input { bytes: b"GET / HTTP/1.1\r\n\r\n".to_vec(), end: false });
    assert_eq!((&c, &a), (&Connection::Failed, &Action::Close));
    let (c, a) = Connection::Fetching { path: b"/files/a".to_vec(), headers: vec![] }.step(Event::Stored);
    assert_eq!((&c, &a), (&Connection::Failed, &Action::Close));
    let (c, a) = Connection::Storing(Response::empty(Status::Created)).step(Event::Fetched(None));
    assert_eq!((&c, &a), (&Connection::Failed, &Action::Close));
}

#[test]
fn before_opening_other_events_are_ignored() {
    let events = [
        Event::Input { bytes: b"GET / HTTP/1.1\r\n\r\n".to_vec(), end: true },
        Event::Fetched(None),
        Event::Stored,
        Event::Written,
        Event::Failed,
    ];
    for event in events {
        let (c, a) = Connection::Accepted.step(event);
        assert_eq!((&c, &a), (&Connection::Accepted, &Action::Idle));
    }
}

#[test]
fn final_states_absorb_every_event() {
    let events = [
        Event::Opened,
        Event::Input { bytes: b"GET / HTTP/1.1\r\n\r\n".to_vec(), end: true },
        Event::Fetched(Some(vec![1])),
        Event::Stored,
        Event::Written,
        Event::Failed,
    ];
    for event in events {
        let (c, a) = Connection::Closed.step(event.clone());
        assert_eq!((&c, &a), (&Connection::Closed, &Action::Idle));
        let (c, a) = Connection::Failed.step(event);
        assert_eq!((&c, &a), (&Connection::Failed, &Action::Idle));
    }
}

#[test]
fn get_under_files_asks_for_the_file() {
    let input = b"GET /files/a.txt HTTP/1.1\r\nAccept-Encoding: gzip\r\n\r\n".to_vec();
    let (c, a) = Connection::Reading.step(Event::Input { bytes: input, end: false });
    assert_eq!(c, Connection::Fetching { path: b"/files/a.txt".to_vec(), headers: b"Accept-Encoding: gzip\r\n".to_vec() });
    assert_eq!(a, Action::Fetch(b"a.txt".to_vec()));
    let (c, a) = c.step(Event::Fetched(None));
    assert_eq!(c, Connection::Writing);
    assert_eq!(a, Action::Write(b"HTTP/1.1 404 Not Found\r\n\r\n".to_vec()));
}

#[test]
fn upload_then_download() {
    let mut store = Store { files: vec![] };
    let body = b"line one\nline two\n\x00\xff";
    let mut post = b"POST /files/note HTTP/1.1\r\nContent-Length: 20\r\n\r\n".to_vec();
    post.extend_from_slice(body);
    assert_eq!(body.len(), 20);
    assert_eq!(serve_one(&post, &mut store), b"HTTP/1.1 201 Created\r\n\r\n".to_vec());
    assert_eq!(store.get(b"note"), Some(body.to_vec()));

    let wire = serve_one(b"GET /files/note HTTP/1.1\r\n\r\n", &mut store);
    let (head, got) = split(&wire);
    assert_eq!(
        head,
        "HTTP/1.1 200 OK\r\nContent-Type: application/octet-stream\r\nContent-Length: 20\r\n"
    );
    assert_eq!(got, body.to_vec());

    let wire = serve_one(b"GET /files/note HTTP/1.1\r\nAccept-Encoding: gzip\r\n\r\n", &mut store);
    let (head, got) = split(&wire);
    assert_eq!(
        head,
        format!(
            "HTTP/1.1 200 OK\r\nContent-Type: application/octet-stream\r\n\
             Content-Encoding: gzip\r\nContent-Length: {}\r\n",
            got.len()
        )
    );
    assert_eq!(gunzip(&got), body.to_vec());
}

#[test]
fn a_second_upload_replaces_the_first() {
    let mut store = Store { files: vec![] };
    serve_one(b"POST /files/a HTTP/1.1\r\nContent-Length: 5\r\n\r\nfirst", &mut store);
    serve_one(b"POST /files/a HTTP/1.1\r\nContent-Length: 2\r\n\r\nno", &mut store);
    let wire = serve_one(b"GET /files/a HTTP/1.1\r\n\r\n", &mut store);
    assert_eq!(split(&wire).1, b"no".to_vec());
}

#[test]
fn upload_without_declared_length_stores_nothing_of_the_body() {
    let mut store = Store { files: vec![] };
    serve_one(b"POST /files/a HTTP/1.1\r\n\r\nignored", &mut store);
    assert_eq!(store.get(b"a"), Some(vec![]));
}

#[test]
fn download_of_a_missing_file() {
    let mut store = Store { files: vec![] };
    let wire = serve_one(b"GET /files/none HTTP/1.1\r\n\r\n", &mut store);
    assert_eq!(wire, b"HTTP/1.1 404 Not Found\r\n\r\n".to_vec());
}

#[test]
fn other_methods_get_405() {
    let mut store = Store { files: vec![] };
    let requests: [&[u8]; 6] = [
        b"PUT /files/a HTTP/1.1\r\nContent-Length: 1\r\n\r\nx",
        b"DELETE /files/a HTTP/1.1\r\n\r\n",
        b"HEAD / HTTP/1.1\r\n\r\n",
        b"get / HTTP/1.1\r\n\r\n",
        b"POST /echo/a HTTP/1.1\r\n\r\n",
        b"\r\n\r\n",
    ];
    for request in requests {
        let wire = serve_one(request, &mut store);
        assert_eq!(wire, b"HTTP/1.1 405 Method Not Allowed\r\n\r\n".to_vec());
    }
    assert!(store.files.is_empty());
}

#[test]
fn user_agent_over_a_connection() {
    let mut store = Store { files: vec![] };
    let wire = serve_one(b"GET /user-agent HTTP/1.1\r\nUser-Agent: test-client/1.0\r\n\r\n", &mut store);
    assert_eq!(
        wire,
        b"HTTP/1.1 200 OK\r\nContent-Type: text/plain\r\nContent-Length: 15\r\n\r\ntest-client/1.0"
            .to_vec()
    );
}

#[test]
fn root_over_a_connection() {
    let mut store = Store { files: vec![] };
    assert_eq!(serve_one(b"GET / HTTP/1.1\r\n\r\n", &mut store), b"HTTP/1.1 200 OK\r\n\r\n".to_vec());
}

#[test]
fn a_request_in_small_pieces() {
    let mut store = Store { files: vec![] };
    let request = b"GET /echo/piecewise HTTP/1.1\r\nHost: a\r\n\r\n";
    let chunks: Vec<&[u8]> = request.chunks(3).collect();
    let (written, state) = serve(&chunks, &mut store);
    assert_eq!(state, Connection::Closed);
    assert_eq!(split(&written.unwrap()).1, b"piecewise".to_vec());
}

#[test]
fn what_follows_the_request_is_ignored() {
    let mut store = Store { files: vec![] };
    let wire = serve_one(b"GET /echo/a HTTP/1.1\r\n\r\nGET /echo/b HTTP/1.1\r\n\r\n", &mut store);
    assert_eq!(split(&wire).1, b"a".to_vec());
}

#[test]
fn connections_side_by_side_do_not_mix() {
    let n = 50;
    let requests: Vec<Vec<u8>> =
        (0..n).map(|i| format!("GET /echo/{} HTTP/1.1\r\n\r\n", i).into_bytes()).collect();
    let mut states: Vec<Connection> = (0..n).map(|_| Connection::new()).collect();
    let mut written: Vec<Option<Vec<u8>>> = vec![None; n];
    // Every connection takes its first step before any takes its second,
    // and so on, in an order that changes from round to round.
    for round in 0..3 {
        for k in 0..n {
            let i = if round % 2 == 0 { k } else { n - 1 - k };
            let event = match round {
                0 => Event::Opened,
                1 => Event::Input { bytes: requests[i].clone(), end: false },
                _ => Event::Written,
            };
            let (next, action) = states[i].clone().step(event);
            states[i] = next;
            if let Action::Write(bytes) = action {
                assert!(written[i].is_none());
                written[i] = Some(bytes);
            }
        }
    }
    for i in 0..n {
        assert_eq!(states[i], Connection::Closed);
        let wire = written[i].clone().unwrap();
        assert_eq!(split(&wire).1, i.to_string().into_bytes());
    }
}
