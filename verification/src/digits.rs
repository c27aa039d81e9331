//! Decimal numbers in ASCII text, read the way `str::parse` reads them for
//! the integer types: an optional sign, then nothing but digits.

use vstd::prelude::*;

verus! {

/// Is `b` an ASCII digit?
pub open spec fn is_digit(b: u8) -> bool {
    0x30 <= b <= 0x39
}

/// Are all bytes of `s` ASCII digits?
pub open spec fn all_digits(s: Seq<u8>) -> bool {
    forall|i: int| 0 <= i < s.len() ==> is_digit(#[trigger] s[i])
}

/// The number that a run of digits writes, most significant digit first.
pub open spec fn digits_value(s: Seq<u8>) -> nat
    decreases s.len(),
{
    if s.len() == 0 {
        0
    } else {
        digits_value(s.drop_last()) * 10 + (s.last() - 0x30) as nat
    }
}

/// The magnitude that `s` writes, if `s` is a run of one or more digits.
pub open spec fn magnitude(s: Seq<u8>) -> Option<nat> {
    if s.len() > 0 && all_digits(s) {
        Some(digits_value(s))
    } else {
        None
    }
}

/// What parsing `s` as a `u32` gives: an optional `+`, then digits that write
/// a number up to `u32::MAX`.
pub open spec fn parse_u32(s: Seq<u8>) -> Option<u32> {
    let body = if s.len() > 0 && s[0] == 0x2b { s.skip(1) } else { s };
    match magnitude(body) {
        Some(n) if n <= u32::MAX => Some(n as u32),
        _ => None,
    }
}

/// What parsing `s` as an `i32` gives: an optional `+` or `-`, then digits
/// that write a magnitude within the range of `i32`.
pub open spec fn parse_i32(s: Seq<u8>) -> Option<i32> {
    if s.len() > 0 && s[0] == 0x2d {
        match magnitude(s.skip(1)) {
            Some(n) if n <= 0x8000_0000 => Some((-(n as int)) as i32),
            _ => None,
        }
    } else {
        let body = if s.len() > 0 && s[0] == 0x2b { s.skip(1) } else { s };
        match magnitude(body) {
            Some(n) if n <= i32::MAX => Some(n as i32),
            _ => None,
        }
    }
}

/// A longer run of digits writes no smaller a number than its prefix.
proof fn lemma_prefix_value(s: Seq<u8>, k: int)
    requires
        0 <= k <= s.len(),
    ensures
        digits_value(s.take(k)) <= digits_value(s),
    decreases s.len() - k,
{
    if k < s.len() {
        lemma_prefix_value(s, k + 1);
        assert(s.take(k + 1).drop_last() =~= s.take(k));
    } else {
        assert(s.take(k) =~= s);
    }
}

/// Reads the digits `bytes[from..]` as a number of at most `limit`.
fn read_magnitude(bytes: &[u8], from: usize, limit: u64) -> (out: Option<u64>)
    requires
        from <= bytes@.len(),
        limit <= 0x1_0000_0000,
    ensures
        out == match magnitude(bytes@.skip(from as int)) {
            Some(n) if n <= limit => Some(n as u64),
            _ => None,
        },
{
    let ghost body = bytes@.skip(from as int);
    if from == bytes.len() {
        return None;
    }
    let mut value: u64 = 0;
    let mut i: usize = from;
    while i < bytes.len()
        invariant
            from <= i <= bytes@.len(),
            body == bytes@.skip(from as int),
            all_digits(body.take(i - from)),
            value == digits_value(body.take(i - from)),
            value <= limit <= 0x1_0000_0000,
        decreases bytes@.len() - i,
    {
        let b = bytes[i];
        if b < 0x30 || b > 0x39 {
            assert(!is_digit(body[i - from]));
            return None;
        }
        let ghost next = body.take(i - from + 1);
        assert(next.drop_last() =~= body.take(i - from));
        assert(next.last() == b);
        value = value * 10 + (b - 0x30) as u64;
        assert(all_digits(next)) by {
            assert forall|j: int| 0 <= j < next.len() implies is_digit(#[trigger] next[j]) by {
                if j < next.len() - 1 {
                    assert(next[j] == body.take(i - from)[j]);
                }
            }
        }
        if value > limit {
            proof {
                lemma_prefix_value(body, i - from + 1);
            }
            return None;
        }
        i += 1;
    }
    assert(body.take(i - from) =~= body);
    Some(value)
}

/// Parses `bytes` as `str::parse::<u32>` parses the text they spell.
pub fn read_u32(bytes: &[u8]) -> (out: Option<u32>)
    ensures
        out == parse_u32(bytes@),
{
    let from: usize = if bytes.len() > 0 && bytes[0] == 0x2b { 1 } else { 0 };
    assert(bytes@.skip(0) =~= bytes@);
    match read_magnitude(bytes, from, 0xffff_ffff) {
        Some(n) => Some(n as u32),
        None => None,
    }
}

/// Parses `bytes` as `str::parse::<i32>` parses the text they spell.
pub fn read_i32(bytes: &[u8]) -> (out: Option<i32>)
    ensures
        out == parse_i32(bytes@),
{
    assert(bytes@.skip(0) =~= bytes@);
    if bytes.len() > 0 && bytes[0] == 0x2d {
        match read_magnitude(bytes, 1, 0x8000_0000) {
            Some(n) => {
                if n == 0x8000_0000 {
                    Some(i32::MIN)
                } else {
                    Some(-(n as i32))
                }
            },
            None => None,
        }
    } else {
        let from: usize = if bytes.len() > 0 && bytes[0] == 0x2b { 1 } else { 0 };
        match read_magnitude(bytes, from, 0x7fff_ffff) {
            Some(n) => Some(n as i32),
            None => None,
        }
    }
}

} // verus!
