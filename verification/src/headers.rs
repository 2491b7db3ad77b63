//! Lookup in a block of raw header lines.
//!
//! A header block is the header lines of a request as they arrived, one after
//! another, each ending with a line feed. Lookup is by a linear scan in
//! arrival order; the first line that matches is the only one considered.

use crate::decimal::{count, from_decimal};
use crate::text::{
    ascii, bytes_of, find, has_prefix_nocase, index_of, lemma_index_of_bounds, nth_word,
    starts_with_nocase, word,
};
use vstd::prelude::*;

verus! {

/// The line feed that ends a line.
pub const LF: u8 = 0x0a;

/// The first line of `block`, among those that start at index `i` or later,
/// that begins with `name` when case is disregarded. A line runs up to the
/// next line feed, which is not part of it.
pub open spec fn line_from(block: Seq<u8>, name: Seq<u8>, i: int) -> Option<Seq<u8>>
    decreases block.len() + 1 - i,
{
    if i < 0 || i >= block.len() {
        None
    } else {
        let end = index_of(block, LF, i);
        let line = block.subrange(i, end);
        if has_prefix_nocase(line, name) {
            Some(line)
        } else {
            proof {
                lemma_index_of_bounds(block, LF, i);
            }
            line_from(block, name, end + 1)
        }
    }
}

/// The first line of `block` that begins with `name` when case is disregarded.
pub open spec fn line_named(block: Seq<u8>, name: Seq<u8>) -> Option<Seq<u8>> {
    line_from(block, name, 0)
}

/// A line found by name begins with that name, and so is at least as long.
pub proof fn lemma_line_named_matches(block: Seq<u8>, name: Seq<u8>)
    ensures
        line_named(block, name) matches Some(line) ==> has_prefix_nocase(line, name),
{
    lemma_line_from_matches(block, name, 0);
}

proof fn lemma_line_from_matches(block: Seq<u8>, name: Seq<u8>, i: int)
    ensures
        line_from(block, name, i) matches Some(line) ==> has_prefix_nocase(line, name),
    decreases block.len() + 1 - i,
{
    if 0 <= i < block.len() {
        lemma_index_of_bounds(block, LF, i);
        let end = index_of(block, LF, i);
        if !has_prefix_nocase(block.subrange(i, end), name) {
            lemma_line_from_matches(block, name, end + 1);
        }
    }
}

/// Finds the first line of `block` that begins with `name` when case is disregarded.
pub fn find_line<'a>(block: &'a [u8], name: &[u8]) -> (r: Option<&'a [u8]>)
    ensures
        r.is_some() == line_named(block@, name@).is_some(),
        r matches Some(line) ==> line@ == line_named(block@, name@).unwrap(),
{
    let n = block.len();
    let mut i: usize = 0;
    while i < n
        invariant
            i <= n == block@.len(),
            line_from(block@, name@, i as int) == line_named(block@, name@),
        decreases n - i,
    {
        let end = find(block, LF, i);
        let line = vstd::slice::slice_subrange(block, i, end);
        if starts_with_nocase(line, name) {
            return Some(line);
        }
        if end >= n {
            assert(line_from(block@, name@, end + 1) == None::<Seq<u8>>);
            return None;
        }
        i = end + 1;
    }
    None
}

/// The body length that a header block declares: on the first line that
/// begins with `content-length:`, case disregarded, the second
/// whitespace-delimited word, read as a decimal byte count. Zero when there
/// is no such line, no second word, or no byte count in it.
pub open spec fn declared_length(headers: Seq<u8>) -> usize {
    match line_named(headers, ascii("content-length:")) {
        Some(line) => match word(line, 1) {
            Some(w) => match count(w) {
                Some(n) => n,
                None => 0,
            },
            None => 0,
        },
        None => 0,
    }
}

/// Extracts the body length that a header block declares.
pub fn content_length(headers: &[u8]) -> (n: usize)
    ensures
        n == declared_length(headers@),
{
    proof {
        reveal_strlit("content-length:");
    }
    match find_line(headers, bytes_of("content-length:")) {
        Some(line) => match nth_word(line, 1) {
            Some(w) => match from_decimal(w) {
                Some(n) => n,
                None => 0,
            },
            None => 0,
        },
        None => 0,
    }
}

} // verus!
