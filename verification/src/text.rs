//! Byte-level text primitives: case folding, prefixes, searching, whitespace.
//!
//! Requests arrive as bytes and are never decoded into characters. Whitespace
//! is recognised in its UTF-8 encoded form, so that on well-formed UTF-8 the
//! functions here agree with the character-level operations of the same name.

use vstd::prelude::*;

verus! {

/// The bytes of a string of ASCII characters.
pub open spec fn ascii(s: &str) -> Seq<u8> {
    Seq::new(s@.len(), |i: int| s@[i] as u8)
}

/// The ASCII lower-case form of a byte; bytes outside `A..=Z` are unchanged.
pub open spec fn lower(b: u8) -> u8 {
    if 0x41 <= b <= 0x5a {
        (b + 0x20) as u8
    } else {
        b
    }
}

/// `s` begins with the bytes of `p`.
pub open spec fn has_prefix(s: Seq<u8>, p: Seq<u8>) -> bool {
    p.len() <= s.len() && s.take(p.len() as int) == p
}

/// `s` begins with the bytes of `p`, ASCII letters compared without regard to case.
pub open spec fn has_prefix_nocase(s: Seq<u8>, p: Seq<u8>) -> bool {
    p.len() <= s.len() && forall|i: int| 0 <= i < p.len() ==> lower(#[trigger] s[i]) == lower(p[i])
}

/// The least index `k >= i` with `s[k] == b`, or `s.len()` when there is none.
pub open spec fn index_of(s: Seq<u8>, b: u8, i: int) -> int
    decreases s.len() - i,
{
    if i < 0 || i >= s.len() {
        s.len() as int
    } else if s[i] == b {
        i
    } else {
        index_of(s, b, i + 1)
    }
}

/// A whitespace character encoded in one byte: space, or one of U+0009 to U+000D.
pub open spec fn space1(a: u8) -> bool {
    a == 0x20 || 0x09 <= a <= 0x0d
}

/// A whitespace character encoded in two bytes: U+0085 or U+00A0.
pub open spec fn space2(a: u8, b: u8) -> bool {
    a == 0xc2 && (b == 0x85 || b == 0xa0)
}

/// A whitespace character encoded in three bytes: U+1680, U+2000 to U+200A,
/// U+2028, U+2029, U+202F, U+205F or U+3000.
pub open spec fn space3(a: u8, b: u8, c: u8) -> bool {
    ||| a == 0xe1 && b == 0x9a && c == 0x80
    ||| a == 0xe2 && b == 0x80 && (0x80 <= c <= 0x8a || c == 0xa8 || c == 0xa9 || c == 0xaf)
    ||| a == 0xe2 && b == 0x81 && c == 0x9f
    ||| a == 0xe3 && b == 0x80 && c == 0x80
}

/// The number of bytes of the whitespace character that starts at `i`,
/// or 0 when none starts there.
pub open spec fn space_at(s: Seq<u8>, i: int) -> int {
    if 0 <= i < s.len() && space1(s[i]) {
        1
    } else if 0 <= i && i + 1 < s.len() && space2(s[i], s[i + 1]) {
        2
    } else if 0 <= i && i + 2 < s.len() && space3(s[i], s[i + 1], s[i + 2]) {
        3
    } else {
        0
    }
}

/// The number of bytes of the whitespace character that ends just before `j`,
/// or 0 when none ends there.
pub open spec fn space_before(s: Seq<u8>, j: int) -> int {
    if 1 <= j <= s.len() && space1(s[j - 1]) {
        1
    } else if 2 <= j <= s.len() && space2(s[j - 2], s[j - 1]) {
        2
    } else if 3 <= j <= s.len() && space3(s[j - 3], s[j - 2], s[j - 1]) {
        3
    } else {
        0
    }
}

/// The first index at or after `i` at which no whitespace character starts.
pub open spec fn after_space(s: Seq<u8>, i: int) -> int
    decreases s.len() - i,
{
    if space_at(s, i) > 0 {
        after_space(s, i + space_at(s, i))
    } else {
        i
    }
}

/// The last index at or before `j` before which no whitespace character ends.
pub open spec fn before_space(s: Seq<u8>, j: int) -> int
    decreases j,
{
    if space_before(s, j) > 0 {
        before_space(s, j - space_before(s, j))
    } else {
        j
    }
}

/// `s` without its leading whitespace.
pub open spec fn trimmed_start(s: Seq<u8>) -> Seq<u8> {
    s.skip(after_space(s, 0))
}

/// `s` without its trailing whitespace.
pub open spec fn trimmed_end(s: Seq<u8>) -> Seq<u8> {
    s.take(before_space(s, s.len() as int))
}

/// `s` without its leading and trailing whitespace.
pub open spec fn trimmed(s: Seq<u8>) -> Seq<u8> {
    trimmed_end(trimmed_start(s))
}

/// `s` holds nothing but whitespace.
pub open spec fn blank(s: Seq<u8>) -> bool {
    after_space(s, 0) >= s.len()
}

/// The end of the word that starts at `i`: the first index at or after `i`
/// where the sequence ends or a whitespace character starts.
pub open spec fn word_end(s: Seq<u8>, i: int) -> int
    decreases s.len() - i,
{
    if i < 0 || i >= s.len() || space_at(s, i) > 0 {
        i
    } else {
        word_end(s, i + 1)
    }
}

/// The `n`-th whitespace-delimited word found in `s` from index `i` on,
/// counting from zero.
pub open spec fn word_from(s: Seq<u8>, i: int, n: nat) -> Option<Seq<u8>>
    decreases n,
{
    let a = after_space(s, i);
    if a >= s.len() {
        None
    } else if n == 0 {
        Some(s.subrange(a, word_end(s, a)))
    } else {
        word_from(s, word_end(s, a), (n - 1) as nat)
    }
}

/// The `n`-th whitespace-delimited word of `s`, counting from zero.
pub open spec fn word(s: Seq<u8>, n: nat) -> Option<Seq<u8>> {
    word_from(s, 0, n)
}

/// `index_of` finds the first occurrence at or after `i`, if there is one.
pub proof fn lemma_index_of_bounds(s: Seq<u8>, b: u8, i: int)
    requires
        0 <= i <= s.len(),
    ensures
        i <= index_of(s, b, i) <= s.len(),
        index_of(s, b, i) < s.len() ==> s[index_of(s, b, i)] == b,
        forall|k: int| i <= k < index_of(s, b, i) ==> s[k] != b,
    decreases s.len() - i,
{
    if i < s.len() && s[i] != b {
        lemma_index_of_bounds(s, b, i + 1);
    }
}

/// The bytes of a string of ASCII characters.
pub fn bytes_of(s: &'static str) -> (r: &'static [u8])
    requires
        s.is_ascii(),
    ensures
        r@ == ascii(s),
{
    broadcast use vstd::string::is_ascii_spec_bytes;

    let r = s.as_bytes();
    assert(r@ =~= ascii(s));
    r
}

/// ASCII lower-casing of one byte.
pub fn to_lower(b: u8) -> (r: u8)
    ensures
        r == lower(b),
{
    if b >= 0x41 && b <= 0x5a {
        b + 0x20
    } else {
        b
    }
}

/// Whether two byte strings are equal.
pub fn equal(a: &[u8], b: &[u8]) -> (r: bool)
    ensures
        r == (a@ == b@),
{
    if a.len() != b.len() {
        return false;
    }
    let mut i: usize = 0;
    while i < a.len()
        invariant
            a@.len() == b@.len(),
            i <= a@.len(),
            forall|k: int| 0 <= k < i ==> a@[k] == b@[k],
        decreases a@.len() - i,
    {
        if a[i] != b[i] {
            return false;
        }
        i += 1;
    }
    assert(a@ =~= b@);
    true
}

/// Whether `s` begins with `p`.
pub fn starts_with(s: &[u8], p: &[u8]) -> (r: bool)
    ensures
        r == has_prefix(s@, p@),
{
    if p.len() > s.len() {
        return false;
    }
    let mut i: usize = 0;
    while i < p.len()
        invariant
            p@.len() <= s@.len(),
            i <= p@.len(),
            forall|k: int| 0 <= k < i ==> s@[k] == p@[k],
        decreases p@.len() - i,
    {
        if s[i] != p[i] {
            assert(s@.take(p@.len() as int)[i as int] != p@[i as int]);
            return false;
        }
        i += 1;
    }
    assert(s@.take(p@.len() as int) =~= p@);
    true
}

/// Whether `s` begins with `p` when ASCII letters are compared without regard to case.
pub fn starts_with_nocase(s: &[u8], p: &[u8]) -> (r: bool)
    ensures
        r == has_prefix_nocase(s@, p@),
{
    if p.len() > s.len() {
        return false;
    }
    let mut i: usize = 0;
    while i < p.len()
        invariant
            p@.len() <= s@.len(),
            i <= p@.len(),
            forall|k: int| 0 <= k < i ==> lower(#[trigger] s@[k]) == lower(p@[k]),
        decreases p@.len() - i,
    {
        if to_lower(s[i]) != to_lower(p[i]) {
            return false;
        }
        i += 1;
    }
    true
}

/// The position of the first `b` in `s` at or after `from`, or `s.len()`.
pub fn find(s: &[u8], b: u8, from: usize) -> (r: usize)
    requires
        from <= s@.len(),
    ensures
        r == index_of(s@, b, from as int),
        from <= r <= s@.len(),
{
    let mut i: usize = from;
    while i < s.len() && s[i] != b
        invariant
            from <= i <= s@.len(),
            index_of(s@, b, i as int) == index_of(s@, b, from as int),
        decreases s@.len() - i,
    {
        i += 1;
    }
    i
}

/// The width in bytes of the whitespace character that starts at `i`, or 0.
pub fn space_width(s: &[u8], i: usize) -> (r: usize)
    requires
        i <= s@.len(),
    ensures
        r == space_at(s@, i as int),
        r <= 3,
        i + r <= s@.len(),
{
    let n = s.len();
    if i >= n {
        return 0;
    }
    let a = s[i];
    if a == 0x20 || (0x09 <= a && a <= 0x0d) {
        return 1;
    }
    if n - i < 2 {
        return 0;
    }
    let b = s[i + 1];
    if a == 0xc2 && (b == 0x85 || b == 0xa0) {
        return 2;
    }
    if n - i < 3 {
        return 0;
    }
    let c = s[i + 2];
    if (a == 0xe1 && b == 0x9a && c == 0x80) || (a == 0xe2 && b == 0x80 && ((0x80 <= c && c
        <= 0x8a) || c == 0xa8 || c == 0xa9 || c == 0xaf)) || (a == 0xe2 && b == 0x81 && c == 0x9f)
        || (a == 0xe3 && b == 0x80 && c == 0x80) {
        return 3;
    }
    0
}

/// The width in bytes of the whitespace character that ends just before `j`, or 0.
pub fn space_width_before(s: &[u8], j: usize) -> (r: usize)
    requires
        j <= s@.len(),
    ensures
        r == space_before(s@, j as int),
        r <= 3,
        r <= j,
{
    if j < 1 {
        return 0;
    }
    let c = s[j - 1];
    if c == 0x20 || (0x09 <= c && c <= 0x0d) {
        return 1;
    }
    if j < 2 {
        return 0;
    }
    let b = s[j - 2];
    if b == 0xc2 && (c == 0x85 || c == 0xa0) {
        return 2;
    }
    if j < 3 {
        return 0;
    }
    let a = s[j - 3];
    if (a == 0xe1 && b == 0x9a && c == 0x80) || (a == 0xe2 && b == 0x80 && ((0x80 <= c && c
        <= 0x8a) || c == 0xa8 || c == 0xa9 || c == 0xaf)) || (a == 0xe2 && b == 0x81 && c == 0x9f)
        || (a == 0xe3 && b == 0x80 && c == 0x80) {
        return 3;
    }
    0
}

/// The first position at or after `from` at which no whitespace character starts.
pub fn skip_space(s: &[u8], from: usize) -> (r: usize)
    requires
        from <= s@.len(),
    ensures
        r == after_space(s@, from as int),
        from <= r <= s@.len(),
{
    let n = s.len();
    let mut i: usize = from;
    loop
        invariant
            from <= i <= s@.len() == n,
            after_space(s@, i as int) == after_space(s@, from as int),
        decreases s@.len() - i,
    {
        let w = space_width(s, i);
        if w == 0 {
            return i;
        }
        i += w;
    }
}

/// The last position at or before `to` before which no whitespace character ends.
pub fn skip_space_back(s: &[u8], to: usize) -> (r: usize)
    requires
        to <= s@.len(),
    ensures
        r == before_space(s@, to as int),
        r <= to,
{
    let mut j: usize = to;
    loop
        invariant
            j <= to <= s@.len(),
            before_space(s@, j as int) == before_space(s@, to as int),
        decreases j,
    {
        let w = space_width_before(s, j);
        if w == 0 {
            return j;
        }
        j -= w;
    }
}

/// The end of the word that starts at `from`.
pub fn find_word_end(s: &[u8], from: usize) -> (r: usize)
    requires
        from <= s@.len(),
    ensures
        r == word_end(s@, from as int),
        from <= r <= s@.len(),
{
    let mut i: usize = from;
    loop
        invariant
            from <= i <= s@.len(),
            word_end(s@, i as int) == word_end(s@, from as int),
        decreases s@.len() - i,
    {
        if i >= s.len() {
            return i;
        }
        let w = space_width(s, i);
        if w > 0 {
            return i;
        }
        i += 1;
    }
}

/// `s` without its leading and trailing whitespace.
pub fn trim(s: &[u8]) -> (r: &[u8])
    ensures
        r@ == trimmed(s@),
{
    let a = skip_space(s, 0);
    let t = vstd::slice::slice_subrange(s, a, s.len());
    let e = skip_space_back(t, t.len());
    let r = vstd::slice::slice_subrange(t, 0, e);
    assert(t@ =~= s@.skip(a as int));
    assert(r@ =~= t@.take(e as int));
    r
}

/// Whether `s` holds nothing but whitespace.
pub fn is_blank(s: &[u8]) -> (r: bool)
    ensures
        r == blank(s@),
{
    skip_space(s, 0) >= s.len()
}

/// The `n`-th whitespace-delimited word of `s`, counting from zero.
pub fn nth_word(s: &[u8], n: usize) -> (r: Option<&[u8]>)
    ensures
        r.is_some() == word(s@, n as nat).is_some(),
        r matches Some(w) ==> w@ == word(s@, n as nat).unwrap(),
{
    let mut i: usize = 0;
    let mut k: usize = n;
    loop
        invariant
            i <= s@.len(),
            k <= n,
            word_from(s@, i as int, k as nat) == word(s@, n as nat),
        decreases k,
    {
        let a = skip_space(s, i);
        if a >= s.len() {
            return None;
        }
        let e = find_word_end(s, a);
        if k == 0 {
            return Some(vstd::slice::slice_subrange(s, a, e));
        }
        i = e;
        k -= 1;
    }
}

} // verus!
