//! Responses and their serialisation to wire bytes.

use crate::decimal::digits;
use crate::text::{ascii, bytes_of};
use vstd::prelude::*;

verus! {

/// The status of a response.
#[derive(Clone, Copy, Debug, PartialEq, Eq, Structural)]
pub enum Status {
    Success,
    Created,
    NotFound,
    MethodNotAllowed,
}

impl Status {
    /// The status line as sent, line terminator included.
    pub open spec fn line(self) -> Seq<u8> {
        match self {
            Status::Success => ascii("HTTP/1.1 200 OK\r\n"),
            Status::Created => ascii("HTTP/1.1 201 Created\r\n"),
            Status::NotFound => ascii("HTTP/1.1 404 Not Found\r\n"),
            Status::MethodNotAllowed => ascii("HTTP/1.1 405 Method Not Allowed\r\n"),
        }
    }

    /// The status line as sent, line terminator included.
    pub fn status_line(self) -> (r: &'static [u8])
        ensures
            r@ == self.line(),
    {
        proof {
            reveal_strlit("HTTP/1.1 200 OK\r\n");
            reveal_strlit("HTTP/1.1 201 Created\r\n");
            reveal_strlit("HTTP/1.1 404 Not Found\r\n");
            reveal_strlit("HTTP/1.1 405 Method Not Allowed\r\n");
        }
        match self {
            Status::Success => bytes_of("HTTP/1.1 200 OK\r\n"),
            Status::Created => bytes_of("HTTP/1.1 201 Created\r\n"),
            Status::NotFound => bytes_of("HTTP/1.1 404 Not Found\r\n"),
            Status::MethodNotAllowed => bytes_of("HTTP/1.1 405 Method Not Allowed\r\n"),
        }
    }
}

/// A response: status, header fields in the order in which they are sent, and body.
#[derive(Clone, Debug, PartialEq, Eq)]
pub struct Response {
    pub status: Status,
    pub headers: Vec<(Vec<u8>, Vec<u8>)>,
    pub body: Vec<u8>,
}

/// A header field as a pair of byte sequences: name, then value.
pub type Field = (Seq<u8>, Seq<u8>);

/// The mathematical value of a `Response`.
pub struct ResponseView {
    pub status: Status,
    pub headers: Seq<Field>,
    pub body: Seq<u8>,
}

/// The name and value of one stored header field.
pub open spec fn field(h: (Vec<u8>, Vec<u8>)) -> Field {
    (h.0@, h.1@)
}

/// One header field as sent: name, colon, space, value, line terminator.
pub open spec fn field_line(h: Field) -> Seq<u8> {
    h.0 + ascii(": ") + h.1 + ascii("\r\n")
}

/// The header fields as sent, one line each, in order.
pub open spec fn field_lines(hs: Seq<Field>) -> Seq<u8>
    decreases hs.len(),
{
    if hs.len() == 0 {
        Seq::empty()
    } else {
        field_lines(hs.drop_last()) + field_line(hs.last())
    }
}

impl ResponseView {
    /// The bytes that go on the wire: status line, header lines, an empty
    /// line, then the body as it is.
    pub open spec fn wire(self) -> Seq<u8> {
        self.status.line() + field_lines(self.headers) + ascii("\r\n") + self.body
    }

    /// The response declares the length of its body: exactly one field is
    /// named `Content-Length`, and its value is the body's length in decimal
    /// notation.
    pub open spec fn declares_length(self) -> bool {
        exists|i: int|
            {
                &&& 0 <= i < self.headers.len()
                &&& #[trigger] self.headers[i] == (
                    ascii("Content-Length"),
                    digits(self.body.len()),
                )
                &&& forall|j: int|
                    0 <= j < self.headers.len() && (#[trigger] self.headers[j]).0 == ascii(
                        "Content-Length",
                    ) ==> j == i
            }
    }

    /// A response with a body declares that body's length.
    pub open spec fn well_formed(self) -> bool {
        self.body.len() > 0 ==> self.declares_length()
    }
}

impl View for Response {
    type V = ResponseView;

    open spec fn view(&self) -> ResponseView {
        ResponseView {
            status: self.status,
            headers: self.headers@.map_values(|h: (Vec<u8>, Vec<u8>)| field(h)),
            body: self.body@,
        }
    }
}

impl Response {
    /// A response with the given status, no header fields and no body.
    pub fn empty(status: Status) -> (r: Response)
        ensures
            r@ == (ResponseView { status, headers: Seq::empty(), body: Seq::empty() }),
            r@.well_formed(),
    {
        let r = Response { status, headers: Vec::new(), body: Vec::new() };
        assert(r@.headers =~= Seq::empty());
        r
    }

    /// Serialises the response: status line, each header field as
    /// `Name: Value` on a line of its own, an empty line, then the body.
    pub fn build(&self) -> (out: Vec<u8>)
        ensures
            out@ == self@.wire(),
    {
        proof {
            reveal_strlit(": ");
            reveal_strlit("\r\n");
        }
        let mut out: Vec<u8> = Vec::new();
        out.extend_from_slice(self.status.status_line());
        assert(out@ =~= self.status.line());
        let mut i: usize = 0;
        assert(self@.headers.take(0) =~= Seq::<Field>::empty());
        while i < self.headers.len()
            invariant
                i <= self.headers@.len(),
                "\r\n".is_ascii(),
                ": ".is_ascii(),
                out@ == self.status.line() + field_lines(self@.headers.take(i as int)),
            decreases self.headers@.len() - i,
        {
            let ghost before = out@;
            let h = &self.headers[i];
            out.extend_from_slice(h.0.as_slice());
            out.extend_from_slice(bytes_of(": "));
            out.extend_from_slice(h.1.as_slice());
            out.extend_from_slice(bytes_of("\r\n"));
            proof {
                let hs = self@.headers.take(i + 1);
                assert(hs.drop_last() =~= self@.headers.take(i as int));
                assert(hs.last() == field(self.headers@[i as int]));
                assert(out@ =~= before + field_line(hs.last()));
            }
            i += 1;
        }
        assert(self@.headers.take(i as int) =~= self@.headers);
        out.extend_from_slice(bytes_of("\r\n"));
        out.extend_from_slice(self.body.as_slice());
        assert(out@ =~= self@.wire());
        out
    }
}

} // verus!
