//! Byte-level text helpers: comparison, ASCII lowercasing, decimal parsing,
//! and UTF-8 decoding of string sample values.

use vstd::prelude::*;
use vstd::string::StringSliceAdditionalSpecFns;

verus! {

/// Lowercases one byte: ASCII letters `A`..`Z` move to `a`..`z`, everything
/// else is unchanged.
pub open spec fn spec_lower_byte(c: u8) -> u8 {
    if 0x41 <= c <= 0x5a {
        (c + 0x20) as u8
    } else {
        c
    }
}

/// ASCII lowercasing of a byte sequence, byte by byte.
pub open spec fn spec_ascii_lower(b: Seq<u8>) -> Seq<u8> {
    b.map_values(|c: u8| spec_lower_byte(c))
}

/// Lowercases the ASCII letters of a string's UTF-8 bytes.
pub fn ascii_lower_bytes(s: &str) -> (r: Vec<u8>)
    ensures
        r@ == spec_ascii_lower(s.spec_bytes()),
{
    let b = s.as_bytes();
    let mut out: Vec<u8> = Vec::new();
    let mut i: usize = 0;
    while i < b.len()
        invariant
            i <= b@.len(),
            b@ == s.spec_bytes(),
            out@ == spec_ascii_lower(b@.subrange(0, i as int)),
        decreases b@.len() - i,
    {
        let c = b[i];
        if 0x41 <= c && c <= 0x5a {
            out.push(c + 0x20);
        } else {
            out.push(c);
        }
        i = i + 1;
        proof {
            assert(b@.subrange(0, i as int).drop_last() =~= b@.subrange(0, i as int - 1));
            assert(out@ =~= spec_ascii_lower(b@.subrange(0, i as int)));
        }
    }
    proof {
        assert(b@.subrange(0, b@.len() as int) =~= b@);
    }
    out
}

/// Whether two byte slices hold the same bytes.
pub fn bytes_eq(a: &[u8], b: &[u8]) -> (r: bool)
    ensures
        r == (a@ == b@),
{
    if a.len() != b.len() {
        return false;
    }
    let mut i: usize = 0;
    while i < a.len()
        invariant
            i <= a@.len(),
            a@.len() == b@.len(),
            forall|j: int| 0 <= j < i ==> a@[j] == b@[j],
        decreases a@.len() - i,
    {
        if a[i] != b[i] {
            return false;
        }
        i = i + 1;
    }
    proof {
        assert(a@ =~= b@);
    }
    true
}

/// Whether a byte is an ASCII decimal digit.
pub open spec fn is_digit(c: u8) -> bool {
    0x30 <= c <= 0x39
}

/// Whether every byte of the sequence is an ASCII decimal digit.
pub open spec fn all_digits(b: Seq<u8>) -> bool {
    forall|i: int| 0 <= i < b.len() ==> is_digit(#[trigger] b[i])
}

/// The value of a sequence of decimal digit bytes, most significant first.
pub open spec fn dec_val(b: Seq<u8>) -> int
    decreases b.len(),
{
    if b.len() == 0 {
        0
    } else {
        dec_val(b.drop_last()) * 10 + b.last() - 0x30
    }
}

/// The value of a digit string is non-negative.
proof fn lemma_dec_val_nonneg(b: Seq<u8>)
    requires
        all_digits(b),
    ensures
        dec_val(b) >= 0,
    decreases b.len(),
{
    if b.len() > 0 {
        assert(all_digits(b.drop_last()));
        lemma_dec_val_nonneg(b.drop_last());
    }
}

/// Mathematical model of parsing an unsigned 32-bit decimal: an optional `+`
/// sign, then at least one digit, and the value must fit in `u32`.
pub open spec fn spec_parse_u32(b: Seq<u8>) -> Option<u32> {
    let d = if b.len() >= 1 && b[0] == 0x2b {
        b.drop_first()
    } else {
        b
    };
    if d.len() >= 1 && all_digits(d) && dec_val(d) <= u32::MAX {
        Some(dec_val(d) as u32)
    } else {
        None
    }
}

/// Appending a digit multiplies the value by ten and adds the digit.
proof fn lemma_dec_val_push(b: Seq<u8>, c: u8)
    requires
        all_digits(b),
        is_digit(c),
    ensures
        dec_val(b.push(c)) == dec_val(b) * 10 + c - 0x30,
        dec_val(b.push(c)) >= dec_val(b),
{
    assert(b.push(c).drop_last() =~= b);
    assert(b.push(c).last() == c);
    lemma_dec_val_nonneg(b);
}

/// Parses a decimal `u32` from a string, as the stream header's
/// `channel_count` field requires: an optional leading `+`, then decimal
/// digits; overflow or any other character rejects the string.
pub fn parse_u32(s: &str) -> (r: Option<u32>)
    ensures
        r == spec_parse_u32(s.spec_bytes()),
{
    let b = s.as_bytes();
    let start: usize = if b.len() >= 1 && b[0] == 0x2b {
        1
    } else {
        0
    };
    let ghost d: Seq<u8> = if b@.len() >= 1 && b@[0] == 0x2b {
        b@.drop_first()
    } else {
        b@
    };
    proof {
        assert(d =~= b@.subrange(start as int, b@.len() as int));
    }
    if b.len() == start {
        return None;
    }
    let mut acc: u64 = 0;
    let mut over: bool = false;
    let mut i: usize = start;
    while i < b.len()
        invariant
            start <= i <= b@.len(),
            b@ == s.spec_bytes(),
            start == (if b@.len() >= 1 && b@[0] == 0x2b {
                1int
            } else {
                0int
            }),
            d == (if b@.len() >= 1 && b@[0] == 0x2b {
                b@.drop_first()
            } else {
                b@
            }),
            d =~= b@.subrange(start as int, b@.len() as int),
            all_digits(b@.subrange(start as int, i as int)),
            over == (dec_val(b@.subrange(start as int, i as int)) > u32::MAX),
            !over ==> acc == dec_val(b@.subrange(start as int, i as int)),
            acc <= u32::MAX,
        decreases b@.len() - i,
    {
        let c = b[i];
        if c < 0x30 || c > 0x39 {
            proof {
                assert(d[i - start] == b@[i as int]);
                assert(!is_digit(d[i - start]));
                assert(!all_digits(d));
            }
            return None;
        }
        proof {
            assert(b@.subrange(start as int, i as int + 1) =~= b@.subrange(
                start as int,
                i as int,
            ).push(b@[i as int]));
            lemma_dec_val_push(b@.subrange(start as int, i as int), b@[i as int]);
        }
        if !over {
            let next = acc * 10 + (c - 0x30) as u64;
            if next > u32::MAX as u64 {
                over = true;
            } else {
                acc = next;
            }
        }
        i = i + 1;
    }
    proof {
        assert(b@.subrange(start as int, b@.len() as int) =~= d);
    }
    if over {
        None
    } else {
        Some(acc as u32)
    }
}

/// The characters that a valid UTF-8 byte sequence decodes to.
pub uninterp spec fn utf8_chars(b: Seq<u8>) -> Seq<char>;

/// Relies on `String::from_utf8`: it succeeds exactly on valid UTF-8, its
/// result is a function of the bytes alone, and the returned string holds
/// exactly those bytes.
#[verifier::external_body]
pub fn string_from_utf8(b: Vec<u8>) -> (r: Option<String>)
    ensures
        r is Some <==> vstd::utf8::valid_utf8(b@),
        r matches Some(s) ==> s@ == utf8_chars(b@) && vstd::utf8::encode_utf8(s@) == b@,
{
    String::from_utf8(b).ok()
}

} // verus!
