//! The ways in which serving a request can fail.

use vstd::prelude::*;

verus! {

/// A failure that ends a connection without a response.
#[derive(Clone, Copy, Debug, PartialEq, Eq, Structural)]
pub enum Error {
    /// The input ended before the empty line that closes the header block.
    TruncatedHead,
    /// The request line or the header lines are not well-formed UTF-8.
    Malformed,
    /// The input ended before the declared number of body bytes.
    TruncatedBody,
    /// The compressor reported a failure.
    Compression,
}

} // verus!
