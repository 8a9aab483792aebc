//! Integers and text as bytes: the two building blocks of a frame.

use byteorder::{BigEndian, ByteOrder};
use vstd::prelude::*;
use vstd::utf8::*;

verus! {

/// The two bytes of a 16-bit number, most significant first.
pub open spec fn be16(n: u16) -> Seq<u8> {
    seq![(n / 256) as u8, (n % 256) as u8]
}

/// The 16-bit number whose bytes are `high` and `low`, most significant first.
pub open spec fn be16_value(high: u8, low: u8) -> u16 {
    (high * 256 + low) as u16
}

/// Reading the bytes of a number gives the number back.
pub proof fn lemma_be16_round_trip(n: u16)
    ensures
        be16(n).len() == 2,
        be16_value(be16(n)[0], be16(n)[1]) == n,
{
}

/// `byteorder::BigEndian::write_u16`, on a buffer of two bytes: the buffer
/// then holds the number's high byte followed by its low byte.
#[verifier::external_body]
pub(crate) fn u16_to_bytes(n: u16) -> (bytes: [u8; 2])
    ensures
        bytes@ == be16(n),
{
    let mut bytes = [0u8; 2];
    BigEndian::write_u16(&mut bytes, n);
    bytes
}

/// `byteorder::BigEndian::read_u16`: the number whose high byte is the first
/// byte of the slice and whose low byte is the second. The outside function
/// panics on a slice of fewer than two bytes, which `requires` leaves out.
#[verifier::external_body]
pub(crate) fn u16_from_bytes(bytes: &[u8]) -> (n: u16)
    requires
        bytes@.len() >= 2,
    ensures
        n == be16_value(bytes@[0], bytes@[1]),
{
    BigEndian::read_u16(bytes)
}

/// `String::from_utf8`: a string is returned exactly when the bytes are valid
/// UTF-8, and its bytes are then the given ones.
#[verifier::external_body]
pub(crate) fn string_from_utf8(bytes: Vec<u8>) -> (text: Option<String>)
    ensures
        text is Some <==> valid_utf8(bytes@),
        text matches Some(s) ==> encode_utf8(s@) == bytes@,
{
    match String::from_utf8(bytes) {
        Ok(s) => Some(s),
        Err(_) => None,
    }
}

/// Appends a copy of `bytes` to `data`.
pub(crate) fn append(data: &mut Vec<u8>, bytes: &[u8])
    ensures
        final(data)@ == old(data)@ + bytes@,
{
    let mut i: usize = 0;
    while i < bytes.len()
        invariant
            i <= bytes@.len(),
            data@ == old(data)@ + bytes@.take(i as int),
        decreases bytes@.len() - i,
    {
        data.push(bytes[i]);
        i = i + 1;
        assert(bytes@.take(i as int) == bytes@.take(i - 1).push(bytes@[i - 1]));
    }
    assert(bytes@.take(i as int) == bytes@);
}

} // verus!
