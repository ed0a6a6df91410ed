//! The capability probe: what the server's answer says about the resource.

use vstd::prelude::*;

verus! {

/// What the probe found out about the resource. It is determined once, before
/// any transfer, and does not change after that.
#[derive(Clone, Copy, Debug, PartialEq, Eq, Structural)]
pub struct DownloadTarget {
    /// Declared size in bytes; zero where the server declared none.
    pub total_size: u64,
    /// Whether the server advertises byte-range requests.
    pub supports_ranges: bool,
}

/// Whether `byte` is an ASCII decimal digit.
pub open spec fn is_digit(byte: u8) -> bool {
    0x30 <= byte <= 0x39
}

/// Whether `text` holds ASCII decimal digits only.
pub open spec fn all_digits(text: Seq<u8>) -> bool {
    forall|i: int| 0 <= i < text.len() ==> is_digit(#[trigger] text[i])
}

/// The number that the digits `text` denote.
pub open spec fn digits_value(text: Seq<u8>) -> nat
    decreases text.len(),
{
    if text.len() == 0 {
        0
    } else {
        digits_value(text.drop_last()) * 10 + (text.last() - 0x30) as nat
    }
}

/// The digits of `text`: all of it but an optional leading plus sign.
pub open spec fn unsigned_digits(text: Seq<u8>) -> Seq<u8> {
    if text.len() > 0 && text[0] == 0x2b {
        text.drop_first()
    } else {
        text
    }
}

/// The number that `text` denotes: an optional plus sign, then one or more
/// decimal digits and nothing else, with a value that fits in 64 bits.
pub open spec fn decimal_u64(text: Seq<u8>) -> Option<u64> {
    let digits = unsigned_digits(text);
    if digits.len() > 0 && all_digits(digits) && digits_value(digits) <= u64::MAX {
        Some(digits_value(digits) as u64)
    } else {
        None
    }
}

/// The size that a `Content-Length` header declares: its number, or zero where
/// the header is missing or is no such number.
pub open spec fn declared_size(content_length: Option<Seq<u8>>) -> u64 {
    match content_length {
        Some(text) => match decimal_u64(text) {
            Some(size) => size,
            None => 0,
        },
        None => 0,
    }
}

/// Digits that start with the digits of a number too large stay too large.
proof fn lemma_digits_value_grows(text: Seq<u8>, n: int)
    requires
        0 <= n <= text.len(),
    ensures
        digits_value(text.take(n)) <= digits_value(text),
    decreases text.len() - n,
{
    if n < text.len() {
        lemma_digits_value_grows(text, n + 1);
        assert(text.take(n + 1).drop_last() =~= text.take(n));
    } else {
        assert(text.take(n) =~= text);
    }
}

/// Parses an unsigned decimal number of at most 64 bits.
pub fn parse_decimal_u64(text: &[u8]) -> (value: Option<u64>)
    ensures
        value == decimal_u64(text@),
{
    let start: usize = if text.len() > 0 && text[0] == 0x2b {
        1
    } else {
        0
    };
    let ghost digits = unsigned_digits(text@);
    assert(digits =~= text@.subrange(start as int, text.len() as int));
    if start == text.len() {
        return None;
    }
    let mut value: u64 = 0;
    let mut i: usize = start;
    assert(digits.take(0) =~= Seq::<u8>::empty());
    while i < text.len()
        invariant
            start <= i <= text.len(),
            digits == unsigned_digits(text@),
            digits =~= text@.subrange(start as int, text.len() as int),
            all_digits(digits.take(i - start)),
            value == digits_value(digits.take(i - start)),
        decreases text.len() - i,
    {
        let byte = text[i];
        let ghost n = i - start;
        proof {
            assert(digits[n] == byte);
            assert(digits.take(n + 1).drop_last() =~= digits.take(n));
            assert(digits.take(n + 1).last() == byte);
            lemma_digits_value_grows(digits, n + 1);
        }
        if byte < 0x30 || byte > 0x39 {
            assert(!all_digits(digits));
            return None;
        }
        let digit: u64 = (byte - 0x30) as u64;
        if value > (u64::MAX - digit) / 10 {
            return None;
        }
        value = value * 10 + digit;
        i = i + 1;
        assert forall|j: int| 0 <= j < digits.take(i - start).len() implies is_digit(
            #[trigger] digits.take(i - start)[j],
        ) by {
            if j < n {
                assert(digits.take(n)[j] == digits[j]);
            }
        }
    }
    assert(digits.take(i - start) =~= digits);
    Some(value)
}

impl DownloadTarget {
    /// What a probe's answer says: the size from the value of its
    /// `Content-Length` header, if it has one, and range support from the
    /// presence of an `Accept-Ranges` header.
    pub fn from_probe(content_length: Option<&[u8]>, accept_ranges: bool) -> (target:
        DownloadTarget)
        ensures
            target.total_size == declared_size(
                match content_length {
                    Some(text) => Some(text@),
                    None => None,
                },
            ),
            target.supports_ranges == accept_ranges,
    {
        let total_size = match content_length {
            Some(text) => match parse_decimal_u64(text) {
                Some(size) => size,
                None => 0,
            },
            None => 0,
        };
        DownloadTarget { total_size, supports_ranges: accept_ranges }
    }
}

} // verus!
