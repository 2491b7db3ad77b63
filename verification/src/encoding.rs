//! Content-encoding negotiation: whether the client accepts gzip, and the
//! response that carries a payload in the encoding agreed on.

use crate::decimal::{digits, to_decimal};
use crate::error::Error;
use crate::headers::{find_line, lemma_line_named_matches, line_named};
use crate::response::{Response, ResponseView, Status};
use crate::text::{
    ascii, bytes_of, equal, find, index_of, lemma_index_of_bounds, trim, trimmed,
};
use flate2::write::GzEncoder;
use flate2::Compression;
use std::io::Write;
use vstd::prelude::*;

verus! {

/// The comma that separates the items of a list.
pub const COMMA: u8 = 0x2c;

/// One of the comma-separated items of `list` that start at index `i` or
/// later is, once trimmed of whitespace, exactly `token`.
pub open spec fn lists(list: Seq<u8>, token: Seq<u8>, i: int) -> bool
    decreases list.len() - i,
{
    if i < 0 || i > list.len() {
        false
    } else {
        proof {
            lemma_index_of_bounds(list, COMMA, i);
        }
        let end = index_of(list, COMMA, i);
        trimmed(list.subrange(i, end)) == token || (end < list.len() && lists(
            list,
            token,
            end + 1,
        ))
    }
}

/// The client accepts gzip: the first header line that begins with
/// `accept-encoding:`, case disregarded, lists the token `gzip`.
pub open spec fn accepts_gzip(headers: Seq<u8>) -> bool {
    match line_named(headers, ascii("accept-encoding:")) {
        Some(line) => lists(line.skip(ascii("accept-encoding:").len() as int), ascii("gzip"), 0),
        None => false,
    }
}

/// Whether one of the comma-separated items of `list` is, once trimmed of
/// whitespace, exactly `token`.
pub fn has_item(list: &[u8], token: &[u8]) -> (r: bool)
    ensures
        r == lists(list@, token@, 0),
{
    let n = list.len();
    let mut i: usize = 0;
    loop
        invariant
            i <= n == list@.len(),
            lists(list@, token@, i as int) == lists(list@, token@, 0),
        decreases n - i,
    {
        let end = find(list, COMMA, i);
        let item = trim(vstd::slice::slice_subrange(list, i, end));
        if equal(item, token) {
            return true;
        }
        if end >= n {
            return false;
        }
        i = end + 1;
    }
}

/// Whether the client accepts gzip, going by the header block of its request.
pub fn supports_gzip(headers: &[u8]) -> (r: bool)
    ensures
        r == accepts_gzip(headers@),
{
    proof {
        reveal_strlit("accept-encoding:");
        reveal_strlit("gzip");
    }
    match find_line(headers, bytes_of("accept-encoding:")) {
        Some(line) => {
            proof {
                lemma_line_named_matches(headers@, ascii("accept-encoding:"));
            }
            let list = vstd::slice::slice_subrange(line, 16, line.len());
            assert(list@ =~= line@.skip(16));
            has_item(list, bytes_of("gzip"))
        },
        None => false,
    }
}

/// `std::io::Error`, the error of the compressor's writer. Nothing is
/// claimed of it: it is carried from the compressor to the code that turns
/// it into an `Error` of this library.
#[verifier::external_type_specification]
#[verifier::external_body]
pub struct ExIoError(std::io::Error);

/// The gzip stream that the compressor produces for `data`. It stands for
/// what `compress_gzip` returns, and nothing else is claimed of it.
pub uninterp spec fn gzip_stream(data: Seq<u8>) -> Seq<u8>;

/// Compresses `data` with `flate2::write::GzEncoder`: an encoder made by
/// `GzEncoder::new` over an empty vector at `Compression::default()`, fed
/// with `write_all`, and closed with `finish`. With these settings the header
/// carries no time stamp, file name or host system, so the stream depends on
/// `data` alone; the contract gives it the name `gzip_stream(data)` and
/// claims nothing else. Whether the call succeeds is left open.
#[verifier::external_body]
pub(crate) fn compress_gzip(data: &[u8]) -> (res: Result<Vec<u8>, std::io::Error>)
    ensures
        res matches Ok(out) ==> out@ == gzip_stream(data@),
{
    let mut encoder = GzEncoder::new(Vec::new(), Compression::default());
    encoder.write_all(data)?;
    encoder.finish()
}

/// The response that carries `body` as content of type `content_type`:
/// status 200, then `Content-Type`, then `Content-Encoding: gzip` if the
/// body is gzipped, then `Content-Length` with the length of `body`.
pub open spec fn carrying(content_type: Seq<u8>, body: Seq<u8>, gzipped: bool) -> ResponseView {
    ResponseView {
        status: Status::Success,
        headers: if gzipped {
            seq![
                (ascii("Content-Type"), content_type),
                (ascii("Content-Encoding"), ascii("gzip")),
                (ascii("Content-Length"), digits(body.len())),
            ]
        } else {
            seq![
                (ascii("Content-Type"), content_type),
                (ascii("Content-Length"), digits(body.len())),
            ]
        },
        body,
    }
}

/// The response to a request with header block `headers` that carries
/// `payload`: gzipped if the client accepts gzip, as it is otherwise.
pub open spec fn negotiated(content_type: Seq<u8>, payload: Seq<u8>, headers: Seq<u8>) -> ResponseView {
    if accepts_gzip(headers) {
        carrying(content_type, gzip_stream(payload), true)
    } else {
        carrying(content_type, payload, false)
    }
}

/// Every response that carries a body declares that body's length.
pub proof fn lemma_carrying_well_formed(content_type: Seq<u8>, body: Seq<u8>, gzipped: bool)
    ensures
        carrying(content_type, body, gzipped).declares_length(),
        carrying(content_type, body, gzipped).well_formed(),
{
    reveal_strlit("Content-Type");
    reveal_strlit("Content-Encoding");
    reveal_strlit("Content-Length");
    let r = carrying(content_type, body, gzipped);
    let i = if gzipped {
        2int
    } else {
        1int
    };
    assert(ascii("Content-Type").len() == 12);
    assert(ascii("Content-Encoding").len() == 16);
    assert(ascii("Content-Length").len() == 14);
    assert(r.headers[i] == (ascii("Content-Length"), digits(body.len())));
    assert(forall|j: int|
        0 <= j < r.headers.len() && (#[trigger] r.headers[j]).0 == ascii("Content-Length") ==> j
            == i);
}

/// Builds the response that carries `body` as content of type `content_type`.
pub fn carry(content_type: &[u8], body: Vec<u8>, gzipped: bool) -> (r: Response)
    ensures
        r@ == carrying(content_type@, body@, gzipped),
        r@.well_formed(),
{
    proof {
        reveal_strlit("Content-Type");
        reveal_strlit("Content-Encoding");
        reveal_strlit("Content-Length");
        reveal_strlit("gzip");
        lemma_carrying_well_formed(content_type@, body@, gzipped);
    }
    let mut headers: Vec<(Vec<u8>, Vec<u8>)> = Vec::new();
    headers.push(
        (
            vstd::slice::slice_to_vec(bytes_of("Content-Type")),
            vstd::slice::slice_to_vec(content_type),
        ),
    );
    if gzipped {
        headers.push(
            (
                vstd::slice::slice_to_vec(bytes_of("Content-Encoding")),
                vstd::slice::slice_to_vec(bytes_of("gzip")),
            ),
        );
    }
    headers.push((vstd::slice::slice_to_vec(bytes_of("Content-Length")), to_decimal(body.len())));
    let r = Response { status: Status::Success, headers, body };
    assert(r@.headers =~= carrying(content_type@, body@, gzipped).headers);
    r
}

/// Completes the gzipped response from what the compressor returned: the
/// response that carries the stream, or the failure.
pub fn carry_compressed(content_type: &[u8], outcome: Result<Vec<u8>, std::io::Error>) -> (res:
    Result<Response, Error>)
    ensures
        match outcome {
            Ok(stream) => res is Ok && res.unwrap()@ == carrying(content_type@, stream@, true),
            Err(_) => res == Err::<Response, Error>(Error::Compression),
        },
        res matches Ok(r) ==> r@.well_formed(),
{
    match outcome {
        Ok(stream) => Ok(carry(content_type, stream, true)),
        Err(_) => Err(Error::Compression),
    }
}

/// Builds the response that carries `payload` in the encoding that the
/// client accepts: gzipped if its header block lists gzip, as it is otherwise.
/// Without gzip the call always succeeds; with it, it fails only if the
/// compressor does.
pub fn encode(content_type: &[u8], payload: &[u8], headers: &[u8]) -> (res: Result<Response, Error>)
    ensures
        !accepts_gzip(headers@) ==> res is Ok,
        res matches Ok(r) ==> r@ == negotiated(content_type@, payload@, headers@)
            && r@.well_formed(),
        res matches Err(e) ==> e == Error::Compression,
{
    if supports_gzip(headers) {
        carry_compressed(content_type, compress_gzip(payload))
    } else {
        Ok(carry(content_type, vstd::slice::slice_to_vec(payload), false))
    }
}

} // verus!
