//! Reading a request from the bytes of a connection.

use crate::error::Error;
use crate::headers::{content_length, declared_length, LF};
use crate::text::{
    blank, find, index_of, is_blank, lemma_index_of_bounds, nth_word, word,
};
use vstd::prelude::*;
use vstd::utf8::valid_utf8;

verus! {

/// The `n`-th whitespace-delimited word of `line`, or nothing if there are
/// not that many.
pub open spec fn word_or_empty(line: Seq<u8>, n: nat) -> Seq<u8> {
    match word(line, n) {
        Some(w) => w,
        None => Seq::empty(),
    }
}

/// Where the header block ends: the start of the first blank line among the
/// lines of `s` that start at index `i` or later. A line runs up to and
/// includes its line feed; without one, `s` ends too early.
pub open spec fn blank_line(s: Seq<u8>, i: int) -> Option<int>
    decreases s.len() - i,
{
    if i < 0 || i >= s.len() {
        None
    } else {
        proof {
            lemma_index_of_bounds(s, LF, i);
        }
        let end = index_of(s, LF, i);
        if end >= s.len() {
            None
        } else if blank(s.subrange(i, end + 1)) {
            Some(i)
        } else {
            blank_line(s, end + 1)
        }
    }
}

/// The head of a request: what precedes its body.
pub struct Head {
    /// The first word of the request line.
    pub method: Seq<u8>,
    /// The second word of the request line.
    pub path: Seq<u8>,
    /// The header lines as they arrived, line terminators included.
    pub headers: Seq<u8>,
    /// The number of bytes that the head takes up, the blank line included.
    pub len: int,
}

/// The request head at the start of `s`: the request line, the header lines
/// that follow it, and the blank line that ends them. `None` where `s` ends
/// before that blank line does.
///
/// Reading is permissive. A line ends at its line feed, and the carriage
/// return before it counts as whitespace, as it does anywhere. The header
/// block ends at the first line that holds nothing but whitespace. Header
/// lines need not have the form of a header field.
pub open spec fn head(s: Seq<u8>) -> Option<Head> {
    let first = index_of(s, LF, 0);
    if first >= s.len() {
        None
    } else {
        match blank_line(s, first + 1) {
            Some(b) => Some(
                Head {
                    method: word_or_empty(s.subrange(0, first + 1), 0),
                    path: word_or_empty(s.subrange(0, first + 1), 1),
                    headers: s.subrange(first + 1, b),
                    len: index_of(s, LF, b) + 1,
                },
            ),
            None => None,
        }
    }
}

/// The blank line that ends a header block lies within the input, behind
/// the index from which it was looked for.
pub proof fn lemma_blank_line_bounds(s: Seq<u8>, i: int)
    ensures
        blank_line(s, i) matches Some(b) ==> i <= b <= index_of(s, LF, b) < s.len(),
    decreases s.len() - i,
{
    if 0 <= i < s.len() {
        lemma_index_of_bounds(s, LF, i);
        let end = index_of(s, LF, i);
        if end < s.len() && !blank(s.subrange(i, end + 1)) {
            lemma_blank_line_bounds(s, end + 1);
        }
    }
}

/// A request head lies within the input it was read from.
pub proof fn lemma_head_bounds(s: Seq<u8>)
    ensures
        head(s) matches Some(h) ==> 0 < h.len <= s.len() && h.headers.len() < h.len,
{
    lemma_index_of_bounds(s, LF, 0);
    lemma_blank_line_bounds(s, index_of(s, LF, 0) + 1);
}

/// A cursor over the bytes received on a connection.
pub struct Reader<'a> {
    data: &'a [u8],
    pos: usize,
}

impl<'a> View for Reader<'a> {
    type V = Seq<u8>;

    /// The bytes not yet consumed.
    closed spec fn view(&self) -> Seq<u8> {
        self.data@.skip(self.pos as int)
    }
}

impl<'a> Reader<'a> {
    #[verifier::type_invariant]
    spec fn in_bounds(&self) -> bool {
        self.pos <= self.data@.len()
    }

    /// A cursor at the start of `data`.
    pub fn new(data: &'a [u8]) -> (r: Reader<'a>)
        ensures
            r@ == data@,
    {
        assert(data@.skip(0) =~= data@);
        Reader { data, pos: 0 }
    }

    /// The bytes not yet consumed.
    pub fn remaining(&self) -> (r: &'a [u8])
        ensures
            r@ == self@,
    {
        proof {
            use_type_invariant(self);
        }
        let r = vstd::slice::slice_subrange(self.data, self.pos, self.data.len());
        assert(r@ =~= self@);
        r
    }

    /// Consumes the next `n` bytes.
    pub fn advance(&mut self, n: usize)
        requires
            n <= old(self)@.len(),
        ensures
            final(self)@ == old(self)@.skip(n as int),
    {
        proof {
            use_type_invariant(&*self);
        }
        let ghost before = self@;
        let total = self.data.len();
        assert(before.len() == total - self.pos);
        self.pos = self.pos + n;
        assert(self@ =~= before.skip(n as int));
    }
}

/// Whether `bytes` are well-formed UTF-8, as `std::str::from_utf8` finds:
/// it returns `Ok` on exactly the byte sequences that are.
#[verifier::external_body]
fn is_utf8(bytes: &[u8]) -> (r: bool)
    ensures
        r == valid_utf8(bytes@),
{
    std::str::from_utf8(bytes).is_ok()
}

/// The `n`-th whitespace-delimited word of `line`, or nothing if there are
/// not that many.
fn word_of(line: &[u8], n: usize) -> (w: Vec<u8>)
    ensures
        w@ == word_or_empty(line@, n as nat),
{
    match nth_word(line, n) {
        Some(w) => vstd::slice::slice_to_vec(w),
        None => Vec::new(),
    }
}

/// Reads the head of a request: the method and the path from the request
/// line, and the header lines as they arrived. Words that the request line
/// lacks are empty. Fails, consuming nothing, where the input ends before
/// the blank line that closes the header block, and where the head is not
/// well-formed UTF-8.
pub fn parse_request(reader: &mut Reader) -> (res: Result<(Vec<u8>, Vec<u8>, Vec<u8>), Error>)
    ensures
        match head(old(reader)@) {
            Some(h) => if valid_utf8(old(reader)@.take(h.len)) {
                &&& res matches Ok(parts)
                &&& parts.0@ == h.method
                &&& parts.1@ == h.path
                &&& parts.2@ == h.headers
                &&& final(reader)@ == old(reader)@.skip(h.len)
            } else {
                res == Err::<(Vec<u8>, Vec<u8>, Vec<u8>), Error>(Error::Malformed)
                    && final(reader)@ == old(reader)@
            },
            None => res == Err::<(Vec<u8>, Vec<u8>, Vec<u8>), Error>(Error::TruncatedHead)
                && final(reader)@ == old(reader)@,
        },
{
    let input = reader.remaining();
    let n = input.len();
    let first = find(input, LF, 0);
    if first >= n {
        return Err(Error::TruncatedHead);
    }
    let mut i: usize = first + 1;
    loop
        invariant
            first < i <= n == input@.len(),
            blank_line(input@, i as int) == blank_line(input@, first + 1),
            first == index_of(input@, LF, 0),
            input@ == reader@,
            reader@ == old(reader)@,
        decreases n - i,
    {
        if i >= n {
            return Err(Error::TruncatedHead);
        }
        let end = find(input, LF, i);
        if end >= n {
            return Err(Error::TruncatedHead);
        }
        if is_blank(vstd::slice::slice_subrange(input, i, end + 1)) {
            let whole = vstd::slice::slice_subrange(input, 0, end + 1);
            assert(whole@ =~= input@.take(end + 1));
            if !is_utf8(whole) {
                return Err(Error::Malformed);
            }
            let line = vstd::slice::slice_subrange(input, 0, first + 1);
            let method = word_of(line, 0);
            let path = word_of(line, 1);
            let headers = vstd::slice::slice_to_vec(
                vstd::slice::slice_subrange(input, first + 1, i),
            );
            reader.advance(end + 1);
            return Ok((method, path, headers));
        }
        i = end + 1;
    }
}

/// Reads the body that a header block declares. Where the declared length
/// is zero, the body is empty and nothing is consumed. Otherwise exactly
/// that many bytes are consumed; the call fails, consuming nothing, where
/// the input holds fewer.
pub fn read_body(reader: &mut Reader, headers: &[u8]) -> (res: Result<Vec<u8>, Error>)
    ensures
        declared_length(headers@) <= old(reader)@.len() ==> {
            &&& res matches Ok(body)
            &&& body@ == old(reader)@.take(declared_length(headers@) as int)
            &&& final(reader)@ == old(reader)@.skip(declared_length(headers@) as int)
        },
        declared_length(headers@) > old(reader)@.len() ==> res == Err::<Vec<u8>, Error>(
            Error::TruncatedBody,
        ) && final(reader)@ == old(reader)@,
{
    let length = content_length(headers);
    let input = reader.remaining();
    if length > input.len() {
        return Err(Error::TruncatedBody);
    }
    let body = vstd::slice::slice_to_vec(vstd::slice::slice_subrange(input, 0, length));
    reader.advance(length);
    assert(body@ =~= old(reader)@.take(length as int));
    Ok(body)
}

/// A request as read from a connection.
#[derive(Clone, Debug, PartialEq, Eq)]
pub struct Request {
    /// The first word of the request line.
    pub method: Vec<u8>,
    /// The second word of the request line.
    pub path: Vec<u8>,
    /// The header lines as they arrived, line terminators included.
    pub headers: Vec<u8>,
    /// The body, as long as the header block declares.
    pub body: Vec<u8>,
}

/// The mathematical value of a `Request`.
pub struct RequestView {
    pub method: Seq<u8>,
    pub path: Seq<u8>,
    pub headers: Seq<u8>,
    pub body: Seq<u8>,
}

impl View for Request {
    type V = RequestView;

    open spec fn view(&self) -> RequestView {
        RequestView {
            method: self.method@,
            path: self.path@,
            headers: self.headers@,
            body: self.body@,
        }
    }
}

/// The request at the start of `s`: its head, which must be well-formed
/// UTF-8, then as many body bytes, whatever they are, as its header block
/// declares.
pub open spec fn request(s: Seq<u8>) -> Result<RequestView, Error> {
    match head(s) {
        None => Err(Error::TruncatedHead),
        Some(h) => if !valid_utf8(s.take(h.len)) {
            Err(Error::Malformed)
        } else if h.len + declared_length(h.headers) > s.len() {
            Err(Error::TruncatedBody)
        } else {
            Ok(
                RequestView {
                    method: h.method,
                    path: h.path,
                    headers: h.headers,
                    body: s.subrange(h.len, h.len + declared_length(h.headers)),
                },
            )
        },
    }
}

/// Reads the request at the start of `input`.
pub fn read_request(input: &[u8]) -> (res: Result<Request, Error>)
    ensures
        match request(input@) {
            Ok(r) => res is Ok && res.unwrap()@ == r,
            Err(e) => res == Err::<Request, Error>(e),
        },
{
    proof {
        lemma_head_bounds(input@);
    }
    let mut reader = Reader::new(input);
    let (method, path, headers) = match parse_request(&mut reader) {
        Ok(parts) => parts,
        Err(e) => {
            return Err(e);
        },
    };
    let ghost h = head(input@).unwrap();
    match read_body(&mut reader, headers.as_slice()) {
        Ok(body) => {
            assert(body@ =~= input@.subrange(h.len, h.len + declared_length(h.headers)));
            Ok(Request { method, path, headers, body })
        },
        Err(e) => Err(e),
    }
}

} // verus!
