//! What holds of the engine as a whole, proved from the definitions that
//! the contracts of its functions are stated in.

use crate::connection::{
    answered, dispatched, stepped, steps_to, ActionView, ConnectionView, EventView,
};
use crate::decimal::{count, digits, lemma_number_of_digits};
use crate::encoding::{accepts_gzip, gzip_stream, lemma_carrying_well_formed, lists, COMMA};
use crate::handlers::{bare, get_payload, get_response, post_response, UploadView};
use crate::headers::{declared_length, line_named, LF};
use crate::request::{head, lemma_head_bounds, request, RequestView};
use crate::response::{ResponseView, Status};
use crate::router::{routed, RouteView};
use crate::text::{
    after_space, ascii, before_space, has_prefix, has_prefix_nocase, index_of, lower, trimmed,
    trimmed_start,
};
use vstd::prelude::*;

verus! {

/// A path under `/echo/` is echoed verbatim: `GET /echo/{text}` is answered
/// with `text` itself as plain text, whatever bytes it holds. To a client
/// that does not accept gzip the response is 200 with `Content-Type:
/// text/plain`, a `Content-Length` that reads back as the length of `text`,
/// and `text` as its body. A connection that has read such a request
/// answers at once, with that response.
pub proof fn echo_is_verbatim(text: Seq<u8>, headers: Seq<u8>, file: Option<Seq<u8>>)
    ensures
        routed(ascii("GET"), ascii("/echo/") + text) == RouteView::Echo(text),
        get_payload(ascii("/echo/") + text, headers, file) == Some((ascii("text/plain"), text)),
        !accepts_gzip(headers) ==> get_response(ascii("/echo/") + text, headers, file) == (
        ResponseView {
            status: Status::Success,
            headers: seq![
                (ascii("Content-Type"), ascii("text/plain")),
                (ascii("Content-Length"), digits(text.len())),
            ],
            body: text,
        }),
        text.len() <= usize::MAX ==> count(digits(text.len())) == Some(text.len() as usize),
        forall|body: Seq<u8>|
            #[trigger] dispatched(
                RequestView { method: ascii("GET"), path: ascii("/echo/") + text, headers, body },
            ) == answered(get_response(ascii("/echo/") + text, headers, None)),
{
    reveal_strlit("GET");
    reveal_strlit("POST");
    reveal_strlit("/echo/");
    reveal_strlit("/files/");
    reveal_strlit("/user-agent");
    let path = ascii("/echo/") + text;
    assert(path.take(6) =~= ascii("/echo/"));
    assert(path.skip(6) =~= text);
    assert(path[1] != ascii("/files/")[1]);
    if path.len() >= 7 {
        assert(path.take(7)[1] == path[1]);
    }
    assert(path[1] != ascii("/user-agent")[1]);
    lemma_number_of_digits(text.len());
    assert(ascii("GET").len() != ascii("POST").len());
}

/// Gzip is applied wherever it is accepted: if the client accepts gzip,
/// then every response to `GET` that carries a payload (an echo, the
/// client's identity, a stored file) is 200, has the gzip stream of that
/// payload as its body, and has the header fields `Content-Type`,
/// `Content-Encoding: gzip` and a `Content-Length` that reads back as the
/// length of the stream, in this order and no others.
pub proof fn gzip_is_applied(path: Seq<u8>, headers: Seq<u8>, file: Option<Seq<u8>>)
    requires
        accepts_gzip(headers),
        get_payload(path, headers, file) is Some,
    ensures
        ({
            let (content_type, payload) = get_payload(path, headers, file).unwrap();
            let r = get_response(path, headers, file);
            &&& r.status == Status::Success
            &&& r.body == gzip_stream(payload)
            &&& r.headers == seq![
                (ascii("Content-Type"), content_type),
                (ascii("Content-Encoding"), ascii("gzip")),
                (ascii("Content-Length"), digits(r.body.len())),
            ]
            &&& r.declares_length()
            &&& r.body.len() <= usize::MAX ==> count(digits(r.body.len())) == Some(
                r.body.len() as usize,
            )
        }),
{
    let (content_type, payload) = get_payload(path, headers, file).unwrap();
    lemma_carrying_well_formed(content_type, gzip_stream(payload), true);
    lemma_number_of_digits(gzip_stream(payload).len());
}

proof fn lemma_index_of_first(s: Seq<u8>, b: u8, i: int, k: int)
    requires
        0 <= i <= k <= s.len(),
        forall|j: int| i <= j < k ==> s[j] != b,
        k < s.len() ==> s[k] == b,
    ensures
        index_of(s, b, i) == k,
    decreases k - i,
{
    if i < k {
        lemma_index_of_first(s, b, i + 1, k);
    }
}

/// A header block whose first line has the name `accept-encoding:`, in
/// whatever case, accepts gzip if what follows the name on that line lists
/// `gzip`.
proof fn lemma_first_line_accepts(name: Seq<u8>, value: Seq<u8>, rest: Seq<u8>)
    requires
        name.len() == ascii("accept-encoding:").len(),
        has_prefix_nocase(name, ascii("accept-encoding:")),
        forall|j: int| 0 <= j < value.len() ==> value[j] != LF,
        lists(value, ascii("gzip"), 0),
    ensures
        accepts_gzip(name + value + seq![LF] + rest),
{
    reveal_strlit("accept-encoding:");
    let key = ascii("accept-encoding:");
    let block = name + value + seq![LF] + rest;
    let end = name.len() + value.len();
    assert forall|j: int| 0 <= j < end implies block[j] != LF by {
        if j < name.len() {
            assert(lower(name[j]) == lower(key[j]));
        }
    }
    lemma_index_of_first(block, LF, 0, end as int);
    let line = block.subrange(0, end as int);
    assert(line =~= name + value);
    assert forall|j: int| 0 <= j < key.len() implies lower(#[trigger] line[j]) == lower(
        key[j],
    ) by {
        assert(line[j] == name[j]);
    }
    assert(line_named(block, key) == Some(line));
    assert(line.skip(key.len() as int) =~= value);
}

/// Gzip is accepted in the usual forms: a request accepts gzip if its first
/// header line is `Accept-Encoding: gzip` or `Accept-Encoding: gzip,
/// deflate`, the name written in whatever case, whatever header lines
/// follow.
pub proof fn accept_encoding_gzip_is_accepted(name: Seq<u8>, rest: Seq<u8>)
    requires
        name.len() == ascii("accept-encoding:").len(),
        has_prefix_nocase(name, ascii("accept-encoding:")),
    ensures
        accepts_gzip(name + ascii(" gzip\r") + seq![LF] + rest),
        accepts_gzip(name + ascii(" gzip, deflate\r") + seq![LF] + rest),
{
    reveal_strlit(" gzip\r");
    reveal_strlit(" gzip, deflate\r");
    reveal_strlit("gzip");
    let gzip = ascii("gzip");
    let alone = ascii(" gzip\r");
    lemma_index_of_first(alone, COMMA, 0, 6);
    let item = alone.subrange(0, 6);
    assert(item =~= alone);
    reveal_with_fuel(after_space, 3);
    reveal_with_fuel(before_space, 3);
    assert(after_space(item, 0) == 1);
    assert(trimmed_start(item) =~= seq![0x67u8, 0x7a, 0x69, 0x70, 0x0d]);
    assert(before_space(trimmed_start(item), 5) == 4);
    assert(trimmed(item) =~= gzip);
    assert(lists(alone, gzip, 0));
    lemma_first_line_accepts(name, alone, rest);

    let first = ascii(" gzip, deflate\r");
    lemma_index_of_first(first, COMMA, 0, 5);
    let item = first.subrange(0, 5);
    assert(after_space(item, 0) == 1);
    assert(trimmed_start(item) =~= seq![0x67u8, 0x7a, 0x69, 0x70]);
    assert(before_space(trimmed_start(item), 4) == 4);
    assert(trimmed(item) =~= gzip);
    assert(lists(first, gzip, 0));
    lemma_first_line_accepts(name, first, rest);
}

/// What is uploaded can be downloaded: `POST /files/{name}` with body
/// `body` asks for exactly `body` to be stored under `name` and is answered
/// 201 once it is; `GET /files/{name}` asks for the stored file of that same
/// `name`; and where the file store returns `body` for it, the response
/// carries `body` as its payload: as the body itself to a client that does
/// not accept gzip, and as its gzip stream otherwise.
pub proof fn upload_then_download(
    name: Seq<u8>,
    body: Seq<u8>,
    post_headers: Seq<u8>,
    get_headers: Seq<u8>,
)
    ensures
        ({
            let path = ascii("/files/") + name;
            let post = RequestView {
                method: ascii("POST"),
                path,
                headers: post_headers,
                body,
            };
            let get = RequestView {
                method: ascii("GET"),
                path,
                headers: get_headers,
                body: Seq::empty(),
            };
            &&& dispatched(post) == (
                ConnectionView::Storing(bare(Status::Created)),
                ActionView::Store(UploadView { name, contents: body }),
            )
            &&& stepped(dispatched(post).0, EventView::Stored) == answered(bare(Status::Created))
            &&& dispatched(get) == (
                ConnectionView::Fetching { path, headers: get_headers },
                ActionView::Fetch(name),
            )
            &&& stepped(dispatched(get).0, EventView::Fetched(Some(body))) == answered(
                get_response(path, get_headers, Some(body)),
            )
            &&& get_response(path, get_headers, Some(body)).status == Status::Success
            &&& get_response(path, get_headers, Some(body)).body == if accepts_gzip(get_headers) {
                gzip_stream(body)
            } else {
                body
            }
        }),
{
    reveal_strlit("GET");
    reveal_strlit("POST");
    reveal_strlit("/files/");
    let path = ascii("/files/") + name;
    assert(path.take(7) =~= ascii("/files/"));
    assert(path.skip(7) =~= name);
    assert(ascii("GET").len() != ascii("POST").len());
}

/// A file that is not there is not found: `GET /files/{name}`, where the
/// file store holds nothing under `name`, is answered 404 with no header
/// fields and no body, whatever the client accepts.
pub proof fn missing_file_is_not_found(name: Seq<u8>, headers: Seq<u8>)
    ensures
        get_response(ascii("/files/") + name, headers, None) == bare(Status::NotFound),
        stepped(
            ConnectionView::Fetching { path: ascii("/files/") + name, headers },
            EventView::Fetched(None),
        ) == answered(bare(Status::NotFound)),
{
    reveal_strlit("GET");
    reveal_strlit("/files/");
    let path = ascii("/files/") + name;
    assert(path.take(7) =~= ascii("/files/"));
}

/// Other methods are refused: a request whose method is neither `GET` nor
/// `POST`, and a `POST` to a path that is not under `/files/`, is answered
/// 405 with no header fields and no body, and nothing is stored.
pub proof fn other_methods_are_refused(r: RequestView)
    requires
        r.method != ascii("GET"),
        r.method == ascii("POST") ==> !has_prefix(r.path, ascii("/files/")),
    ensures
        routed(r.method, r.path) == RouteView::MethodNotAllowed,
        dispatched(r) == answered(bare(Status::MethodNotAllowed)),
{
}

/// A request has the body that its header block declares: wherever a
/// request is read, its body is exactly as long as the length that its
/// header block declares, and is empty where none is declared. Its head and
/// body lie one behind the other at the start of the input.
pub proof fn body_has_declared_length(s: Seq<u8>)
    ensures
        request(s) matches Ok(r) ==> {
            &&& r.body.len() == declared_length(r.headers)
            &&& exists|n: int|
                0 < n && n + r.body.len() <= s.len() && r.body == #[trigger] s.subrange(
                    n,
                    n + r.body.len(),
                )
        },
{
    lemma_head_bounds(s);
    if let Ok(r) = request(s) {
        let n = head(s).unwrap().len;
        assert(r.body == s.subrange(n, n + r.body.len()));
    }
}

/// The progress that a state stands for: states are passed in this order.
pub open spec fn rank(c: ConnectionView) -> nat {
    match c {
        ConnectionView::Accepted => 0,
        ConnectionView::Reading => 1,
        ConnectionView::Fetching { .. } => 2,
        ConnectionView::Storing(_) => 2,
        ConnectionView::Writing => 3,
        ConnectionView::Closed => 4,
        ConnectionView::Failed => 4,
    }
}

/// A connection only moves forward: no step leads back to an earlier
/// state. `Closed` and `Failed` are final and ask for nothing more.
/// `Failed` is entered only from a state that waits for outside work, and
/// `Closed` only once the response is written. Bytes are sent only on the
/// step into `Writing`.
pub proof fn connection_moves_forward(
    c: ConnectionView,
    e: EventView,
    next: ConnectionView,
    action: ActionView,
)
    requires
        steps_to(c, e, next, action),
    ensures
        rank(next) >= rank(c),
        c is Closed ==> next is Closed && action is Idle,
        c is Failed ==> next is Failed && action is Idle,
        next is Failed && !(c is Failed) ==> (c is Reading || c is Fetching || c is Storing
            || c is Writing) && action is Close,
        next is Closed && !(c is Closed) ==> c is Writing && e is Written && action is Close,
        action is Write <==> next is Writing,
        next is Writing ==> rank(c) < 3,
{
}

/// A run of a connection: the states it passes through, the events
/// reported to it, and the actions it asks for, step by step.
pub open spec fn is_run(
    states: Seq<ConnectionView>,
    events: Seq<EventView>,
    actions: Seq<ActionView>,
) -> bool {
    &&& states.len() == events.len() + 1
    &&& actions.len() == events.len()
    &&& forall|i: int|
        0 <= i < events.len() ==> steps_to(
            #[trigger] states[i],
            events[i],
            states[i + 1],
            actions[i],
        )
}

proof fn lemma_rank_grows(
    states: Seq<ConnectionView>,
    events: Seq<EventView>,
    actions: Seq<ActionView>,
    i: int,
    j: int,
)
    requires
        is_run(states, events, actions),
        0 <= i <= j < states.len(),
    ensures
        rank(states[i]) <= rank(states[j]),
    decreases j - i,
{
    if i < j {
        lemma_rank_grows(states, events, actions, i, j - 1);
        connection_moves_forward(states[j - 1], events[j - 1], states[j], actions[j - 1]);
    }
}

/// One connection sends at most one response: in any run, whatever events
/// are reported, bytes are sent at most once.
pub proof fn one_response_per_connection(
    states: Seq<ConnectionView>,
    events: Seq<EventView>,
    actions: Seq<ActionView>,
    i: int,
    j: int,
)
    requires
        is_run(states, events, actions),
        0 <= i < j < actions.len(),
    ensures
        !(actions[i] is Write && actions[j] is Write),
{
    connection_moves_forward(states[i], events[i], states[i + 1], actions[i]);
    connection_moves_forward(states[j], events[j], states[j + 1], actions[j]);
    lemma_rank_grows(states, events, actions, i + 1, j);
}

/// The responses that a state holds for later declare the length of their body.
pub open spec fn sound(c: ConnectionView) -> bool {
    c matches ConnectionView::Storing(r) ==> r.well_formed()
}

/// Every response to `GET` that has a body declares that body's length.
pub proof fn get_response_well_formed(path: Seq<u8>, headers: Seq<u8>, file: Option<Seq<u8>>)
    ensures
        get_response(path, headers, file).well_formed(),
{
    match get_payload(path, headers, file) {
        Some((content_type, payload)) => {
            lemma_carrying_well_formed(content_type, payload, false);
            lemma_carrying_well_formed(content_type, gzip_stream(payload), true);
        },
        None => {},
    }
}

/// What is sent is a response that declares its length: the bytes of every
/// `Write` are the wire form of a response in which, if it has a body,
/// exactly one `Content-Length` field gives the length of that body as sent.
pub proof fn sent_responses_declare_their_length(
    c: ConnectionView,
    e: EventView,
    next: ConnectionView,
    action: ActionView,
)
    requires
        sound(c),
        steps_to(c, e, next, action),
    ensures
        sound(next),
        action matches ActionView::Write(bytes) ==> exists|r: ResponseView|
            r.well_formed() && bytes == #[trigger] r.wire(),
{
    match c {
        ConnectionView::Reading => match e {
            EventView::Input { bytes, end } => match request(bytes) {
                Ok(r) => {
                    get_response_well_formed(r.path, r.headers, None);
                    if action is Write {
                        if r.method == ascii("POST") {
                            assert(post_response(r.path).well_formed());
                            assert(action->Write_0 == post_response(r.path).wire());
                        } else if r.method == ascii("GET") {
                            assert(action->Write_0 == get_response(r.path, r.headers, None).wire());
                        } else {
                            assert(bare(Status::MethodNotAllowed).well_formed());
                            assert(action->Write_0 == bare(Status::MethodNotAllowed).wire());
                        }
                    }
                },
                Err(_) => {},
            },
            _ => {},
        },
        ConnectionView::Fetching { path, headers } => match e {
            EventView::Fetched(file) => {
                get_response_well_formed(path, headers, file);
                if action is Write {
                    assert(action->Write_0 == get_response(path, headers, file).wire());
                }
            },
            _ => {},
        },
        ConnectionView::Storing(response) => {
            if action is Write {
                assert(action->Write_0 == response.wire());
            }
        },
        _ => {},
    }
}

} // verus!
