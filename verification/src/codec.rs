use vstd::prelude::*;

verus! {

use vstd::utf8::{encode_utf8, decode_utf8, valid_utf8, encode_utf8_decode_utf8};

/// The four big-endian bytes of a 32-bit two's-complement integer, most
/// significant byte first.
pub open spec fn be_bytes_of_i32(v: i32) -> Seq<u8> {
    seq![
        ((v as u32) >> 24) as u8,
        ((v as u32) >> 16) as u8,
        ((v as u32) >> 8) as u8,
        (v as u32) as u8,
    ]
}

/// The 32-bit two's-complement integer whose big-endian bytes are
/// `b0 b1 b2 b3`.
pub open spec fn i32_of_be_bytes(b0: u8, b1: u8, b2: u8, b3: u8) -> i32 {
    ((((b0 as u32) << 24) | ((b1 as u32) << 16) | ((b2 as u32) << 8) | (
    b3 as u32)) as i32)
}

/// Decoding the four big-endian bytes of `v` yields `v` again.
pub proof fn lemma_i32_be_round_trip(v: i32)
    ensures
        i32_of_be_bytes(
            be_bytes_of_i32(v)[0],
            be_bytes_of_i32(v)[1],
            be_bytes_of_i32(v)[2],
            be_bytes_of_i32(v)[3],
        ) == v,
{
    assert(((((((v as u32) >> 24) as u8) as u32) << 24) | (((((v as u32) >> 16) as u8) as u32)
        << 16) | (((((v as u32) >> 8) as u8) as u32) << 8) | (((v as u32) as u8) as u32)) as i32
        == v) by (bit_vector);
}

/// A length-prefixed string field: four big-endian bytes holding the byte
/// count, followed by that many UTF-8 bytes.
pub open spec fn string_encoding(s: Seq<char>) -> Seq<u8> {
    be_bytes_of_i32(encode_utf8(s).len() as i32) + encode_utf8(s)
}

/// Relies on `String::from_utf8`: it returns `Ok` exactly when the bytes are
/// valid UTF-8, and the string it then returns is built from those very
/// bytes.
#[verifier::external_body]
pub(crate) fn bytes_to_string(bytes: Vec<u8>) -> (r: Option<String>)
    ensures
        r is Some <==> valid_utf8(bytes@),
        r matches Some(s) ==> encode_utf8(s@) == bytes@,
{
    match String::from_utf8(bytes) {
        Ok(s) => Some(s),
        Err(_) => None,
    }
}

/// Decoding an encoded string gives the string back: the bytes of
/// `string_encoding(s)` past the length prefix are valid UTF-8 and decode
/// to `s`.
pub proof fn lemma_string_encoding_round_trip(s: Seq<char>)
    ensures
        valid_utf8(string_encoding(s).skip(4)),
        decode_utf8(string_encoding(s).skip(4)) == s,
{
    broadcast use vstd::utf8::group_utf8_lib;

    assert(string_encoding(s).skip(4) =~= encode_utf8(s));
    encode_utf8_decode_utf8(s);
}

} // verus!
