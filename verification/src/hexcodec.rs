//! Lower-case hexadecimal text for byte strings, as stored in install records.
use vstd::prelude::*;

verus! {

/// The lower-case hexadecimal digit for a value below sixteen.
pub open spec fn hex_digit(n: int) -> char {
    if n < 10 {
        ((48 + n) as u8) as char
    } else {
        ((87 + n) as u8) as char
    }
}

/// The hexadecimal text of `bytes`: two lower-case digits per byte, high
/// nibble first.
pub open spec fn hex_encode_spec(bytes: Seq<u8>) -> Seq<char> {
    Seq::new(
        2 * bytes.len(),
        |i: int|
            if i % 2 == 0 {
                hex_digit(bytes[i / 2] as int / 16)
            } else {
                hex_digit(bytes[i / 2] as int % 16)
            },
    )
}

/// Whether `c` is a hexadecimal digit of either case.
pub open spec fn is_hex_char(c: char) -> bool {
    ('0' <= c && c <= '9') || ('a' <= c && c <= 'f') || ('A' <= c && c <= 'F')
}

/// The value of a hexadecimal digit of either case.
pub open spec fn hex_val(c: char) -> int {
    if '0' <= c && c <= '9' {
        c as int - 48
    } else if 'a' <= c && c <= 'f' {
        c as int - 87
    } else {
        c as int - 55
    }
}

/// Whether `chars` is hexadecimal text: an even number of hexadecimal digits.
pub open spec fn is_hex_text(chars: Seq<char>) -> bool {
    chars.len() % 2 == 0 && forall|i: int| 0 <= i < chars.len() ==> is_hex_char(#[trigger] chars[i])
}

/// The bytes that hexadecimal text stands for, or `None` where `chars` is
/// no hexadecimal text.
pub open spec fn hex_decode_spec(chars: Seq<char>) -> Option<Seq<u8>> {
    if is_hex_text(chars) {
        Some(
            Seq::new(
                chars.len() / 2,
                |i: int| (hex_val(chars[2 * i]) * 16 + hex_val(chars[2 * i + 1])) as u8,
            ),
        )
    } else {
        None
    }
}

/// Calls `hex::encode`. Trusted: the result is the lower-case hexadecimal
/// text of `data`, two digits per byte with the high nibble first.
#[verifier::external_body]
pub(crate) fn hex_encode(data: &[u8]) -> (r: String)
    ensures
        r@ == hex_encode_spec(data@),
{
    hex::encode(data)
}

/// Calls `hex::decode`. Trusted: the call succeeds exactly on an even number
/// of hexadecimal digits of either case and then yields one byte per pair of
/// digits, high nibble first; every failure is reported as `None`.
#[verifier::external_body]
pub(crate) fn hex_decode(text: &str) -> (r: Option<Vec<u8>>)
    ensures
        match r {
            Some(v) => hex_decode_spec(text@) == Some(v@),
            None => hex_decode_spec(text@) is None,
        },
{
    hex::decode(text).ok()
}

/// The value of `c` where it is a hexadecimal digit of either case.
pub fn hex_digit_value(c: char) -> (r: Option<u8>)
    ensures
        match r {
            Some(v) => is_hex_char(c) && v == hex_val(c),
            None => !is_hex_char(c),
        },
{
    let n: u32 = c as u32;
    if 48 <= n && n <= 57 {
        Some((n - 48) as u8)
    } else if 97 <= n && n <= 102 {
        Some((n - 87) as u8)
    } else if 65 <= n && n <= 70 {
        Some((n - 55) as u8)
    } else {
        None
    }
}

/// The byte that the two hexadecimal digits `hi` and `lo` stand for.
pub fn hex_pair_value(hi: char, lo: char) -> (r: Option<u8>)
    ensures
        match r {
            Some(v) => is_hex_char(hi) && is_hex_char(lo) && v == hex_val(hi) * 16 + hex_val(lo),
            None => !(is_hex_char(hi) && is_hex_char(lo)),
        },
{
    match hex_digit_value(hi) {
        Some(h) => match hex_digit_value(lo) {
            Some(l) => Some(h * 16 + l),
            None => None,
        },
        None => None,
    }
}

/// Hexadecimal text has two characters per byte.
pub proof fn lemma_hex_encode_len(bytes: Seq<u8>)
    ensures
        hex_encode_spec(bytes).len() == 2 * bytes.len(),
{
}

/// Every digit that encoding writes is a hexadecimal digit whose value is
/// the nibble it was written for.
pub proof fn lemma_hex_digit_val(n: int)
    requires
        0 <= n < 16,
    ensures
        is_hex_char(hex_digit(n)),
        hex_val(hex_digit(n)) == n,
{
}

/// Decoding the hexadecimal text of `bytes` gives `bytes` back.
pub proof fn lemma_hex_round_trip(bytes: Seq<u8>)
    ensures
        hex_decode_spec(hex_encode_spec(bytes)) == Some(bytes),
{
    let text = hex_encode_spec(bytes);
    assert forall|i: int| 0 <= i < text.len() implies is_hex_char(#[trigger] text[i]) by {
        let b = bytes[i / 2] as int;
        lemma_hex_digit_val(b / 16);
        lemma_hex_digit_val(b % 16);
    }
    assert(is_hex_text(text));
    let back = hex_decode_spec(text)->Some_0;
    assert(back.len() == bytes.len());
    assert forall|i: int| 0 <= i < bytes.len() implies back[i] == bytes[i] by {
        let b = bytes[i] as int;
        lemma_hex_digit_val(b / 16);
        lemma_hex_digit_val(b % 16);
        assert((2 * i) / 2 == i);
        assert((2 * i + 1) / 2 == i);
        assert(text[2 * i] == hex_digit(b / 16));
        assert(text[2 * i + 1] == hex_digit(b % 16));
    }
    assert(back =~= bytes);
}

/// Two byte strings with the same hexadecimal text are equal.
pub proof fn lemma_hex_encode_injective(a: Seq<u8>, b: Seq<u8>)
    requires
        hex_encode_spec(a) == hex_encode_spec(b),
    ensures
        a == b,
{
    lemma_hex_round_trip(a);
    lemma_hex_round_trip(b);
}

} // verus!
