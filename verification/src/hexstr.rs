use vstd::prelude::*;

use crate::tlv::DecodeError;
use crate::tlv::GTag;
use crate::tlv::Tag;
use crate::tlv::parse_tlv_vec;
use crate::tlv::spec_decode;
use crate::tlv::tags_view;

verus! {

/// Whether `c` is an ASCII hex digit, upper or lower case.
pub open spec fn spec_is_hex_digit(c: char) -> bool {
    let v = c as u32;
    (0x30 <= v && v <= 0x39) || (0x41 <= v && v <= 0x46) || (0x61 <= v && v <= 0x66)
}

/// The value of one hex digit.
pub open spec fn spec_hex_val(c: char) -> nat
    recommends
        spec_is_hex_digit(c),
{
    let v = c as u32;
    if 0x30 <= v && v <= 0x39 {
        (v - 0x30) as nat
    } else if 0x41 <= v && v <= 0x46 {
        (v - 0x41 + 10) as nat
    } else if 0x61 <= v && v <= 0x66 {
        (v - 0x61 + 10) as nat
    } else {
        0
    }
}

/// Whether `s` is a hex encoding: an even count of hex digits.
pub open spec fn spec_valid_hex(s: Seq<char>) -> bool {
    &&& s.len() % 2 == 0
    &&& forall|i: int| 0 <= i < s.len() ==> spec_is_hex_digit(#[trigger] s[i])
}

/// The bytes a hex encoding stands for: each pair of digits combined
/// high-nibble-first.
pub open spec fn spec_hex_bytes(s: Seq<char>) -> Seq<u8>
    recommends
        spec_valid_hex(s),
{
    Seq::new(s.len() / 2, |i: int| (16 * spec_hex_val(s[2 * i]) + spec_hex_val(s[2 * i + 1])) as u8)
}

/// What decoding a hex-encoded message yields: `InvalidHex` when the text
/// is not a hex encoding, otherwise whatever decoding the encoded bytes
/// yields.
pub open spec fn spec_decode_hex(s: Seq<char>) -> Result<Seq<GTag>, DecodeError> {
    if spec_valid_hex(s) {
        spec_decode(spec_hex_bytes(s))
    } else {
        Err(DecodeError::InvalidHex)
    }
}

/// Relies on hex::decode: it succeeds exactly on an even count of ASCII
/// hex digits (upper or lower case; any other character, and any character
/// outside ASCII, makes it fail), and returns each digit pair combined
/// high-nibble-first.
#[verifier::external_body]
fn hex_decode_bytes(s: &str) -> (r: Option<Vec<u8>>)
    ensures
        r is Some <==> spec_valid_hex(s@),
        r matches Some(v) ==> v@ == spec_hex_bytes(s@),
{
    match hex::decode(s) {
        Ok(v) => Some(v),
        Err(_) => None,
    }
}

/// Hex-decodes `data_raw` and parses the TLV elements out of the encoded
/// bytes: `InvalidHex` on text that is not a hex encoding, otherwise
/// exactly what `parse_tlv_vec` yields on those bytes.
pub fn parse_tlv(data_raw: String) -> (r: Result<Vec<Tag>, DecodeError>)
    ensures
        match r {
            Ok(tags) => spec_decode_hex(data_raw@) == Ok::<Seq<GTag>, DecodeError>(
                tags_view(tags@),
            ),
            Err(e) => spec_decode_hex(data_raw@) == Err::<Seq<GTag>, DecodeError>(e),
        },
{
    match hex_decode_bytes(data_raw.as_str()) {
        None => Err(DecodeError::InvalidHex),
        Some(bytes) => parse_tlv_vec(bytes.as_slice()),
    }
}

/// The lower-case hex digit for a value below sixteen.
pub open spec fn spec_hex_digit(v: nat) -> char
    recommends
        v < 16,
{
    if v == 0 {
        '0'
    } else if v == 1 {
        '1'
    } else if v == 2 {
        '2'
    } else if v == 3 {
        '3'
    } else if v == 4 {
        '4'
    } else if v == 5 {
        '5'
    } else if v == 6 {
        '6'
    } else if v == 7 {
        '7'
    } else if v == 8 {
        '8'
    } else if v == 9 {
        '9'
    } else if v == 10 {
        'a'
    } else if v == 11 {
        'b'
    } else if v == 12 {
        'c'
    } else if v == 13 {
        'd'
    } else if v == 14 {
        'e'
    } else {
        'f'
    }
}

/// The hex encoding of a byte sequence: two lower-case digits per byte,
/// high nibble first.
pub open spec fn spec_hex_encode(bs: Seq<u8>) -> Seq<char> {
    Seq::new(
        2 * bs.len(),
        |i: int|
            if i % 2 == 0 {
                spec_hex_digit(bs[i / 2] as nat / 16)
            } else {
                spec_hex_digit(bs[i / 2] as nat % 16)
            },
    )
}

/// A hex digit below sixteen encodes and evaluates back to itself.
proof fn lemma_hex_digit_val(v: nat)
    requires
        v < 16,
    ensures
        spec_is_hex_digit(spec_hex_digit(v)),
        spec_hex_val(spec_hex_digit(v)) == v,
{
}

/// Decoding a hex encoding gives back the encoded bytes: parsing the hex
/// encoding of a message and parsing the message itself yield identical
/// tag sequences.
pub proof fn lemma_hex_round_trip(bs: Seq<u8>)
    ensures
        spec_valid_hex(spec_hex_encode(bs)),
        spec_hex_bytes(spec_hex_encode(bs)) == bs,
        spec_decode_hex(spec_hex_encode(bs)) == spec_decode(bs),
{
    let enc = spec_hex_encode(bs);
    assert forall|i: int| 0 <= i < enc.len() implies spec_is_hex_digit(#[trigger] enc[i]) by {
        if i % 2 == 0 {
            lemma_hex_digit_val(bs[i / 2] as nat / 16);
        } else {
            lemma_hex_digit_val(bs[i / 2] as nat % 16);
        }
    }
    assert(enc.len() % 2 == 0);
    assert forall|i: int| 0 <= i < bs.len() implies spec_hex_bytes(enc)[i] == bs[i] by {
        let v = bs[i] as nat;
        assert(enc[2 * i] == spec_hex_digit(v / 16));
        assert(enc[2 * i + 1] == spec_hex_digit(v % 16));
        lemma_hex_digit_val(v / 16);
        lemma_hex_digit_val(v % 16);
        assert(16 * (v / 16) + v % 16 == v);
    }
    assert(spec_hex_bytes(enc) =~= bs);
}

} // verus!
