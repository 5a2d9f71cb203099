//! Hexadecimal text for keys and signatures. The conversion itself is done
//! by the `hex` crate; this module states what it computes and proves that
//! decoding undoes encoding.

use vstd::prelude::*;

verus! {

/// The lower-case hexadecimal digit for a value below sixteen.
pub open spec fn hex_digit(v: int) -> char {
    if v == 0 {
        '0'
    } else if v == 1 {
        '1'
    } else if v == 2 {
        '2'
    } else if v == 3 {
        '3'
    } else if v == 4 {
        '4'
    } else if v == 5 {
        '5'
    } else if v == 6 {
        '6'
    } else if v == 7 {
        '7'
    } else if v == 8 {
        '8'
    } else if v == 9 {
        '9'
    } else if v == 10 {
        'a'
    } else if v == 11 {
        'b'
    } else if v == 12 {
        'c'
    } else if v == 13 {
        'd'
    } else if v == 14 {
        'e'
    } else {
        'f'
    }
}

/// Whether `c` is a hexadecimal digit, in either case.
pub open spec fn is_hex_digit(c: char) -> bool {
    ('0' <= c && c <= '9') || ('a' <= c && c <= 'f') || ('A' <= c && c <= 'F')
}

/// The value of a hexadecimal digit.
pub open spec fn hex_value(c: char) -> int {
    if '0' <= c && c <= '9' {
        c as int - '0' as int
    } else if 'a' <= c && c <= 'f' {
        c as int - 'a' as int + 10
    } else {
        c as int - 'A' as int + 10
    }
}

/// The hexadecimal text of a byte string: two lower-case digits per byte,
/// the high half first.
pub open spec fn hex_text(bytes: Seq<u8>) -> Seq<char> {
    Seq::new(
        2 * bytes.len(),
        |i: int|
            if i % 2 == 0 {
                hex_digit(bytes[i / 2] as int / 16)
            } else {
                hex_digit(bytes[i / 2] as int % 16)
            },
    )
}

/// Whether `s` is an even number of hexadecimal digits and nothing else.
pub open spec fn is_hex_text(s: Seq<char>) -> bool {
    s.len() % 2 == 0 && forall|i: int| 0 <= i < s.len() ==> is_hex_digit(#[trigger] s[i])
}

/// The bytes that a hexadecimal text denotes.
pub open spec fn hex_bytes(s: Seq<char>) -> Seq<u8> {
    Seq::new(
        s.len() / 2,
        |i: int| (16 * hex_value(s[2 * i]) + hex_value(s[2 * i + 1])) as u8,
    )
}

/// Every value below sixteen has a digit that reads back as that value.
pub proof fn lemma_hex_digit(v: int)
    requires
        0 <= v < 16,
    ensures
        is_hex_digit(hex_digit(v)),
        hex_value(hex_digit(v)) == v,
{
}

/// Decoding the hexadecimal text of a byte string gives the byte string back.
pub proof fn lemma_hex_round_trip(bytes: Seq<u8>)
    ensures
        is_hex_text(hex_text(bytes)),
        hex_bytes(hex_text(bytes)) == bytes,
{
    let s = hex_text(bytes);
    assert forall|i: int| 0 <= i < s.len() implies is_hex_digit(#[trigger] s[i]) by {
        let b = bytes[i / 2] as int;
        lemma_hex_digit(b / 16);
        lemma_hex_digit(b % 16);
    }
    assert forall|i: int| 0 <= i < bytes.len() implies hex_bytes(s)[i] == bytes[i] by {
        let b = bytes[i] as int;
        lemma_hex_digit(b / 16);
        lemma_hex_digit(b % 16);
        assert((2 * i) / 2 == i && (2 * i) % 2 == 0);
        assert((2 * i + 1) / 2 == i && (2 * i + 1) % 2 == 1);
        assert(s[2 * i] == hex_digit(b / 16));
        assert(s[2 * i + 1] == hex_digit(b % 16));
    }
    assert(hex_bytes(s) =~= bytes);
}

/// Two byte strings with the same hexadecimal text are the same byte string.
pub proof fn lemma_hex_text_injective(a: Seq<u8>, b: Seq<u8>)
    requires
        hex_text(a) == hex_text(b),
    ensures
        a == b,
{
    lemma_hex_round_trip(a);
    lemma_hex_round_trip(b);
}

/// The error of the `hex` crate, carried through without being read.
#[verifier::external_type_specification]
#[verifier::external_body]
pub struct ExFromHexError(hex::FromHexError);

/// `hex::encode`: two lower-case digits for each byte, the high half first.
#[verifier::external_body]
pub(crate) fn encode(bytes: &[u8]) -> (text: String)
    ensures
        text@ == hex_text(bytes@),
{
    hex::encode(bytes)
}

/// `hex::decode`: succeeds exactly on an even number of hexadecimal digits,
/// upper or lower case, and then gives one byte for each pair.
#[verifier::external_body]
pub(crate) fn decode(text: &str) -> (out: Result<Vec<u8>, hex::FromHexError>)
    ensures
        out is Ok <==> is_hex_text(text@),
        out matches Ok(bytes) ==> bytes@ == hex_bytes(text@),
{
    hex::decode(text)
}

/// Reads a hexadecimal text: the bytes it denotes, or `None` where it is not
/// an even number of hexadecimal digits.
pub fn decode_hex(text: &str) -> (out: Option<Vec<u8>>)
    ensures
        out is Some <==> is_hex_text(text@),
        out matches Some(bytes) ==> bytes@ == hex_bytes(text@),
{
    match decode(text) {
        Ok(bytes) => Some(bytes),
        Err(_) => None,
    }
}

/// Writes a byte string as hexadecimal text.
pub fn encode_hex(bytes: &[u8]) -> (text: String)
    ensures
        text@ == hex_text(bytes@),
{
    encode(bytes)
}

} // verus!
