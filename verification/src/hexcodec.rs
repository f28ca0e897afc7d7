//! Lowercase-hex text encoding of byte sequences.
//!
//! Keys, signatures and envelopes all travel as hex text: two digits per
//! byte, high nibble first, emitted in lowercase and accepted in either
//! case. Key files may carry surrounding ASCII whitespace, which loading
//! trims off first.

use vstd::prelude::*;

use crate::errors::CryptoError;

verus! {

/// True of the ASCII bytes that are hex digits, in either case.
pub open spec fn is_hex_digit(b: u8) -> bool {
    (48 <= b && b <= 57) || (97 <= b && b <= 102) || (65 <= b && b <= 70)
}

/// True of the ASCII bytes that are lowercase hex digits, the only form
/// this library emits.
pub open spec fn is_lower_hex_digit(b: u8) -> bool {
    (48 <= b && b <= 57) || (97 <= b && b <= 102)
}

/// The numeric value of a hex digit byte.
pub open spec fn hex_digit_value(b: u8) -> u8
    recommends
        is_hex_digit(b),
{
    if 48 <= b && b <= 57 {
        (b - 48) as u8
    } else if 97 <= b && b <= 102 {
        (b - 87) as u8
    } else {
        (b - 55) as u8
    }
}

/// The lowercase hex digit byte for a nibble value below 16.
pub open spec fn hex_digit_of(v: u8) -> u8
    recommends
        v < 16,
{
    if v < 10 {
        (v + 48) as u8
    } else {
        (v + 87) as u8
    }
}

/// The lowercase-hex text of a byte sequence: two digits per byte, high
/// nibble first.
pub open spec fn spec_hex_encode(s: Seq<u8>) -> Seq<u8>
    decreases s.len(),
{
    if s.len() == 0 {
        Seq::empty()
    } else {
        spec_hex_encode(s.drop_last()) + seq![
            hex_digit_of(s.last() / 16),
            hex_digit_of(s.last() % 16),
        ]
    }
}

/// Whether a text is well-formed hex: even length, hex digits throughout.
pub open spec fn spec_hex_ok(t: Seq<u8>) -> bool {
    t.len() % 2 == 0 && (forall|i: int| 0 <= i < t.len() ==> is_hex_digit(#[trigger] t[i]))
}

/// The bytes a well-formed hex text decodes to, one byte per digit pair.
pub open spec fn spec_hex_decode(t: Seq<u8>) -> Seq<u8>
    decreases t.len(),
{
    if t.len() < 2 {
        Seq::empty()
    } else {
        spec_hex_decode(t.drop_last().drop_last()).push(
            (hex_digit_value(t[t.len() - 2]) * 16 + hex_digit_value(t.last())) as u8,
        )
    }
}

/// The lowercase hex digit for a nibble.
fn hex_digit_byte(v: u8) -> (d: u8)
    requires
        v < 16,
    ensures
        d == hex_digit_of(v),
{
    if v < 10 {
        v + 48
    } else {
        v + 87
    }
}

/// The value of a hex digit byte, or `None` if `b` is no hex digit.
fn hex_digit_val(b: u8) -> (r: Option<u8>)
    ensures
        r is Some <==> is_hex_digit(b),
        r matches Some(v) ==> v == hex_digit_value(b) && v < 16,
{
    if 48 <= b && b <= 57 {
        Some(b - 48)
    } else if 97 <= b && b <= 102 {
        Some(b - 87)
    } else if 65 <= b && b <= 70 {
        Some(b - 55)
    } else {
        None
    }
}

/// Encode bytes as lowercase hex text, two digits per byte.
pub fn hex_encode(bytes: &Vec<u8>) -> (text: Vec<u8>)
    requires
        bytes@.len() <= usize::MAX / 2,
    ensures
        text@ == spec_hex_encode(bytes@),
        text@.len() == 2 * bytes@.len(),
{
    let mut text: Vec<u8> = Vec::new();
    let n = bytes.len();
    for i in 0..n
        invariant
            n == bytes@.len(),
            n <= usize::MAX / 2,
            text@ == spec_hex_encode(bytes@.subrange(0, i as int)),
            text@.len() == 2 * i,
    {
        let b = bytes[i];
        text.push(hex_digit_byte(b / 16));
        text.push(hex_digit_byte(b % 16));
        proof {
            assert(bytes@.subrange(0, i + 1).drop_last() =~= bytes@.subrange(0, i as int));
            assert(bytes@.subrange(0, i + 1).last() == b);
        }
    }
    proof {
        assert(bytes@.subrange(0, n as int) =~= bytes@);
    }
    text
}

/// Decode hex text to bytes. Digits of either case are accepted; an odd
/// length or any non-digit byte is rejected.
pub fn hex_decode(text: &[u8]) -> (r: Result<Vec<u8>, CryptoError>)
    ensures
        r is Ok <==> spec_hex_ok(text@),
        r matches Ok(v) ==> v@ == spec_hex_decode(text@) && text@.len() == 2 * v@.len(),
        r is Err ==> r == Err::<Vec<u8>, CryptoError>(CryptoError::InvalidHexEncoding),
{
    let n = text.len();
    if n % 2 != 0 {
        return Err(CryptoError::InvalidHexEncoding);
    }
    let mut out: Vec<u8> = Vec::new();
    let mut i: usize = 0;
    while i < n
        invariant
            n == text@.len(),
            n % 2 == 0,
            i % 2 == 0,
            i <= n,
            out@ == spec_hex_decode(text@.subrange(0, i as int)),
            2 * out@.len() == i,
            forall|j: int| 0 <= j < i ==> is_hex_digit(#[trigger] text@[j]),
        decreases n - i,
    {
        assert(i + 2 <= n);
        let hi = match hex_digit_val(text[i]) {
            Some(v) => v,
            None => {
                assert(!is_hex_digit(text@[i as int]));
                return Err(CryptoError::InvalidHexEncoding);
            },
        };
        let lo = match hex_digit_val(text[i + 1]) {
            Some(v) => v,
            None => {
                assert(!is_hex_digit(text@[i + 1]));
                return Err(CryptoError::InvalidHexEncoding);
            },
        };
        out.push(hi * 16 + lo);
        proof {
            let p = text@.subrange(0, i + 2);
            assert(p.drop_last().drop_last() =~= text@.subrange(0, i as int));
            assert(p.last() == text@[i + 1]);
            assert(p[p.len() - 2] == text@[i as int]);
        }
        i = i + 2;
    }
    proof {
        assert(text@.subrange(0, n as int) =~= text@);
    }
    Ok(out)
}

/// True of the ASCII whitespace bytes trimmed from key files.
pub open spec fn is_ascii_space(b: u8) -> bool {
    b == 32 || b == 9 || b == 10 || b == 13
}

/// The text with trailing ASCII whitespace removed.
pub open spec fn spec_trim_end(t: Seq<u8>) -> Seq<u8>
    decreases t.len(),
{
    if t.len() > 0 && is_ascii_space(t.last()) {
        spec_trim_end(t.drop_last())
    } else {
        t
    }
}

/// The text with leading ASCII whitespace removed.
pub open spec fn spec_trim_start(t: Seq<u8>) -> Seq<u8>
    decreases t.len(),
{
    if t.len() > 0 && is_ascii_space(t[0]) {
        spec_trim_start(t.drop_first())
    } else {
        t
    }
}

/// The text with leading and trailing ASCII whitespace removed.
pub open spec fn spec_trim(t: Seq<u8>) -> Seq<u8> {
    spec_trim_start(spec_trim_end(t))
}

/// Whether a byte is ASCII whitespace.
fn ascii_space_byte(b: u8) -> (r: bool)
    ensures
        r == is_ascii_space(b),
{
    b == 32 || b == 9 || b == 10 || b == 13
}

/// Copy `text` with leading and trailing ASCII whitespace removed.
pub fn trim_ascii(text: &[u8]) -> (out: Vec<u8>)
    ensures
        out@ == spec_trim(text@),
{
    let mut end = text.len();
    proof {
        assert(text@.subrange(0, end as int) =~= text@);
    }
    while end > 0 && ascii_space_byte(text[end - 1])
        invariant
            end <= text@.len(),
            spec_trim_end(text@.subrange(0, end as int)) == spec_trim_end(text@),
        decreases end,
    {
        proof {
            assert(text@.subrange(0, end as int).drop_last() =~= text@.subrange(0, end - 1));
        }
        end = end - 1;
    }
    let ghost kept = text@.subrange(0, end as int);
    proof {
        assert(spec_trim_end(kept) == kept);
    }
    let mut start: usize = 0;
    while start < end && ascii_space_byte(text[start])
        invariant
            start <= end,
            end <= text@.len(),
            kept == text@.subrange(0, end as int),
            spec_trim_start(text@.subrange(start as int, end as int)) == spec_trim_start(kept),
        decreases end - start,
    {
        proof {
            assert(text@.subrange(start as int, end as int).drop_first() =~= text@.subrange(
                start + 1,
                end as int,
            ));
        }
        start = start + 1;
    }
    proof {
        assert(spec_trim_start(text@.subrange(start as int, end as int)) == text@.subrange(
            start as int,
            end as int,
        ));
    }
    let mut out: Vec<u8> = Vec::new();
    let mut k = start;
    while k < end
        invariant
            start <= k <= end,
            end <= text@.len(),
            out@ == text@.subrange(start as int, k as int),
        decreases end - k,
    {
        out.push(text[k]);
        proof {
            assert(text@.subrange(start as int, k + 1) =~= text@.subrange(start as int, k as int)
                + seq![text@[k as int]]);
        }
        k = k + 1;
    }
    out
}

/// Every byte of a hex encoding is a lowercase hex digit.
pub proof fn lemma_hex_encode_lower(s: Seq<u8>)
    ensures
        forall|i: int|
            0 <= i < spec_hex_encode(s).len() ==> is_lower_hex_digit(
                #[trigger] spec_hex_encode(s)[i],
            ),
    decreases s.len(),
{
    if s.len() > 0 {
        lemma_hex_encode_lower(s.drop_last());
        let e = spec_hex_encode(s);
        let ep = spec_hex_encode(s.drop_last());
        assert(is_lower_hex_digit(hex_digit_of(s.last() / 16)));
        assert(is_lower_hex_digit(hex_digit_of(s.last() % 16)));
        assert forall|i: int| 0 <= i < e.len() implies is_lower_hex_digit(e[i]) by {
            if i < ep.len() {
                assert(is_lower_hex_digit(ep[i]));
            } else {
                assert(e[i] == hex_digit_of(s.last() / 16) || e[i] == hex_digit_of(s.last() % 16));
            }
        }
    }
}

/// Hex text holds no whitespace, so trimming leaves it unchanged.
pub proof fn lemma_trim_hex_identity(t: Seq<u8>)
    requires
        forall|i: int| 0 <= i < t.len() ==> is_hex_digit(#[trigger] t[i]),
    ensures
        spec_trim(t) == t,
{
    if t.len() > 0 {
        assert(is_hex_digit(t.last()));
        assert(!is_ascii_space(t.last()));
        assert(!is_ascii_space(t[0]));
    }
    assert(spec_trim_end(t) == t);
    assert(spec_trim_start(t) == t);
}

/// A byte sequence survives the round trip through its hex text: the text
/// is twice as long, well-formed hex, and decodes to the original bytes.
pub proof fn lemma_hex_round_trip(s: Seq<u8>)
    ensures
        spec_hex_ok(spec_hex_encode(s)),
        spec_hex_encode(s).len() == 2 * s.len(),
        spec_hex_decode(spec_hex_encode(s)) == s,
    decreases s.len(),
{
    if s.len() == 0 {
    } else {
        let p = s.drop_last();
        lemma_hex_round_trip(p);
        let e = spec_hex_encode(s);
        let ep = spec_hex_encode(p);
        let hi = hex_digit_of(s.last() / 16);
        let lo = hex_digit_of(s.last() % 16);
        assert(e == ep + seq![hi, lo]);
        assert(is_hex_digit(hi) && hex_digit_value(hi) == s.last() / 16);
        assert(is_hex_digit(lo) && hex_digit_value(lo) == s.last() % 16);
        assert forall|i: int| 0 <= i < e.len() implies is_hex_digit(e[i]) by {
            if i < ep.len() {
                assert(is_hex_digit(ep[i]));
            }
        }
        assert(e.drop_last().drop_last() =~= ep);
        assert(e[e.len() - 2] == hi && e.last() == lo);
        assert((s.last() / 16) * 16 + (s.last() % 16) == s.last());
        assert(spec_hex_decode(e) =~= s);
    }
}

} // verus!
