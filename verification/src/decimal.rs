//! Decimal notation for byte counts: writing a length, and reading one back.

use vstd::prelude::*;

verus! {

/// The ASCII digit for `d`, where `d < 10`.
pub open spec fn digit(d: nat) -> u8 {
    (0x30 + d) as u8
}

/// `b` is one of the ASCII digits `0` to `9`.
pub open spec fn is_digit(b: u8) -> bool {
    0x30 <= b <= 0x39
}

/// The decimal notation of `n`, without sign or leading zeros.
pub open spec fn digits(n: nat) -> Seq<u8>
    decreases n,
{
    if n < 10 {
        seq![digit(n)]
    } else {
        digits(n / 10).push(digit(n % 10))
    }
}

/// Every byte of `s` is an ASCII digit.
pub open spec fn all_digits(s: Seq<u8>) -> bool {
    forall|i: int| 0 <= i < s.len() ==> is_digit(#[trigger] s[i])
}

/// The number that a sequence of ASCII digits denotes; 0 for the empty one.
pub open spec fn value(s: Seq<u8>) -> nat
    decreases s.len(),
{
    if s.len() == 0 {
        0
    } else {
        (value(s.drop_last()) * 10 + (s.last() - 0x30)) as nat
    }
}

/// The number that `s` denotes: an optional `+`, then one or more ASCII
/// digits. Anything else denotes nothing.
pub open spec fn number(s: Seq<u8>) -> Option<nat> {
    let d = if s.len() > 0 && s[0] == 0x2b {
        s.skip(1)
    } else {
        s
    };
    if d.len() > 0 && all_digits(d) {
        Some(value(d))
    } else {
        None
    }
}

/// The digits of a number are digits, and there is at least one.
pub proof fn lemma_digits_are_digits(n: nat)
    ensures
        digits(n).len() > 0,
        all_digits(digits(n)),
    decreases n,
{
    if n >= 10 {
        lemma_digits_are_digits(n / 10);
    }
}

/// Reading back what was written gives the number that was written.
pub proof fn lemma_number_of_digits(n: nat)
    ensures
        number(digits(n)) == Some(n),
    decreases n,
{
    lemma_digits_are_digits(n);
    lemma_value_of_digits(n);
}

proof fn lemma_value_of_digits(n: nat)
    ensures
        value(digits(n)) == n,
    decreases n,
{
    if n < 10 {
        assert(digits(n).drop_last() =~= Seq::<u8>::empty());
        assert(value(digits(n).drop_last()) == 0);
    } else {
        lemma_value_of_digits(n / 10);
        assert(digits(n).drop_last() =~= digits(n / 10));
    }
}

/// A sequence of digits denotes at least what any of its prefixes denotes.
proof fn lemma_value_grows(s: Seq<u8>, k: int)
    requires
        all_digits(s),
        0 <= k <= s.len(),
    ensures
        value(s.take(k)) <= value(s),
    decreases s.len() - k,
{
    if k < s.len() {
        lemma_value_grows(s, k + 1);
        assert(s.take(k + 1).drop_last() =~= s.take(k));
        assert(is_digit(s[k]));
    } else {
        assert(s.take(k) =~= s);
    }
}

/// The byte count that `s` denotes, where it denotes a number that a
/// `usize` can hold.
pub open spec fn count(s: Seq<u8>) -> Option<usize> {
    match number(s) {
        Some(v) => if v <= usize::MAX {
            Some(v as usize)
        } else {
            None
        },
        None => None,
    }
}

/// Writes `n` in decimal notation.
pub fn to_decimal(n: usize) -> (out: Vec<u8>)
    ensures
        out@ == digits(n as nat),
{
    let mut out: Vec<u8> = Vec::new();
    let mut rest: usize = n;
    while rest >= 10
        invariant
            digits(n as nat) =~= digits(rest as nat) + out@,
        decreases rest,
    {
        let d: u8 = 0x30 + (rest % 10) as u8;
        out.insert(0, d);
        rest = rest / 10;
    }
    let d: u8 = 0x30 + rest as u8;
    out.insert(0, d);
    out
}

/// Reads a byte count in decimal notation.
pub fn from_decimal(s: &[u8]) -> (r: Option<usize>)
    ensures
        r == count(s@),
{
    let n = s.len();
    let start: usize = if n > 0 && s[0] == 0x2b {
        1
    } else {
        0
    };
    if start >= n {
        return None;
    }
    let ghost d = s@.skip(start as int);
    assert(s@.skip(0) =~= s@);
    let mut acc: usize = 0;
    let mut i: usize = start;
    assert(d.take(0) =~= Seq::<u8>::empty());
    while i < n
        invariant
            start <= i <= n == s@.len(),
            d == s@.skip(start as int),
            start == if s@.len() > 0 && s@[0] == 0x2b { 1int } else { 0int },
            forall|k: int| 0 <= k < i - start ==> is_digit(#[trigger] d[k]),
            acc == value(d.take(i - start)),
        decreases n - i,
    {
        let b = s[i];
        if b < 0x30 || b > 0x39 {
            assert(!is_digit(d[i - start]));
            return None;
        }
        let unit: usize = (b - 0x30) as usize;
        proof {
            assert(d.take(i - start + 1).drop_last() =~= d.take(i - start));
            assert(value(d.take(i - start + 1)) == acc * 10 + unit);
        }
        if acc > (usize::MAX - unit) / 10 {
            proof {
                assert(s@.skip(0) =~= s@);
                if all_digits(d) {
                    lemma_value_grows(d, i - start + 1);
                    assert(value(d) > usize::MAX);
                }
            }
            return None;
        }
        acc = acc * 10 + unit;
        i += 1;
    }
    assert(d.take(i - start) =~= d);
    Some(acc)
}

} // verus!
