//! Big-endian integers on the wire.

use byteorder::{BigEndian, ByteOrder};
use vstd::prelude::*;

verus! {

/// The two bytes of `value`, most significant first.
pub open spec fn u16_be_bytes(value: u16) -> Seq<u8> {
    seq![((value >> 8) & 0xff) as u8, (value & 0xff) as u8]
}

/// The integer whose big-endian form is the first two bytes of `bytes`.
pub open spec fn u16_from_be_bytes(bytes: Seq<u8>) -> u16
    recommends
        bytes.len() >= 2,
{
    (bytes[0] as u16) << 8 | (bytes[1] as u16)
}

/// The eight bytes of `value`, most significant first.
pub open spec fn u64_be_bytes(value: u64) -> Seq<u8> {
    seq![
        ((value >> 56) & 0xff) as u8,
        ((value >> 48) & 0xff) as u8,
        ((value >> 40) & 0xff) as u8,
        ((value >> 32) & 0xff) as u8,
        ((value >> 24) & 0xff) as u8,
        ((value >> 16) & 0xff) as u8,
        ((value >> 8) & 0xff) as u8,
        (value & 0xff) as u8,
    ]
}

/// The integer whose big-endian form is the first eight bytes of `bytes`.
pub open spec fn u64_from_be_bytes(bytes: Seq<u8>) -> u64
    recommends
        bytes.len() >= 8,
{
    (bytes[0] as u64) << 56 | (bytes[1] as u64) << 48 | (bytes[2] as u64) << 40 | (bytes[3] as u64)
        << 32 | (bytes[4] as u64) << 24 | (bytes[5] as u64) << 16 | (bytes[6] as u64) << 8 | (
    bytes[7] as u64)
}

/// Reading back what was written gives the integer again.
pub proof fn lemma_u16_be_round_trip(value: u16)
    ensures
        u16_be_bytes(value).len() == 2,
        u16_from_be_bytes(u16_be_bytes(value)) == value,
{
    let hi = ((value >> 8) & 0xff) as u8;
    let lo = (value & 0xff) as u8;
    assert((hi as u16) << 8 | (lo as u16) == value) by (bit_vector)
        requires
            hi == ((value >> 8) & 0xff) as u8,
            lo == (value & 0xff) as u8,
    ;
}

/// Writing what was read gives the two bytes again.
pub proof fn lemma_u16_be_bytes_of_value(bytes: Seq<u8>)
    requires
        bytes.len() == 2,
    ensures
        u16_be_bytes(u16_from_be_bytes(bytes)) == bytes,
{
    let b0 = bytes[0];
    let b1 = bytes[1];
    let value = (b0 as u16) << 8 | (b1 as u16);
    assert(((value >> 8) & 0xff) as u8 == b0 && (value & 0xff) as u8 == b1) by (bit_vector)
        requires
            value == (b0 as u16) << 8 | (b1 as u16),
    ;
    assert(u16_be_bytes(value) =~= bytes);
}

/// Writing what was read gives the eight bytes again.
pub proof fn lemma_u64_be_bytes_of_value(bytes: Seq<u8>)
    requires
        bytes.len() == 8,
    ensures
        u64_be_bytes(u64_from_be_bytes(bytes)) == bytes,
{
    let b0 = bytes[0];
    let b1 = bytes[1];
    let b2 = bytes[2];
    let b3 = bytes[3];
    let b4 = bytes[4];
    let b5 = bytes[5];
    let b6 = bytes[6];
    let b7 = bytes[7];
    let value = u64_from_be_bytes(bytes);
    assert(((value >> 56) & 0xff) as u8 == b0 && ((value >> 48) & 0xff) as u8 == b1 && ((value
        >> 40) & 0xff) as u8 == b2 && ((value >> 32) & 0xff) as u8 == b3 && ((value >> 24) & 0xff) as u8
        == b4 && ((value >> 16) & 0xff) as u8 == b5 && ((value >> 8) & 0xff) as u8 == b6 && (value
        & 0xff) as u8 == b7) by (bit_vector)
        requires
            value == (b0 as u64) << 56 | (b1 as u64) << 48 | (b2 as u64) << 40 | (b3 as u64) << 32 | (
            b4 as u64) << 24 | (b5 as u64) << 16 | (b6 as u64) << 8 | (b7 as u64),
    ;
    assert(u64_be_bytes(value) =~= bytes);
}

/// Reading back what was written gives the integer again.
pub proof fn lemma_u64_be_round_trip(value: u64)
    ensures
        u64_be_bytes(value).len() == 8,
        u64_from_be_bytes(u64_be_bytes(value)) == value,
{
    let b0 = ((value >> 56) & 0xff) as u8;
    let b1 = ((value >> 48) & 0xff) as u8;
    let b2 = ((value >> 40) & 0xff) as u8;
    let b3 = ((value >> 32) & 0xff) as u8;
    let b4 = ((value >> 24) & 0xff) as u8;
    let b5 = ((value >> 16) & 0xff) as u8;
    let b6 = ((value >> 8) & 0xff) as u8;
    let b7 = (value & 0xff) as u8;
    assert((b0 as u64) << 56 | (b1 as u64) << 48 | (b2 as u64) << 40 | (b3 as u64) << 32 | (
    b4 as u64) << 24 | (b5 as u64) << 16 | (b6 as u64) << 8 | (b7 as u64) == value)
        by (bit_vector)
        requires
            b0 == ((value >> 56) & 0xff) as u8,
            b1 == ((value >> 48) & 0xff) as u8,
            b2 == ((value >> 40) & 0xff) as u8,
            b3 == ((value >> 32) & 0xff) as u8,
            b4 == ((value >> 24) & 0xff) as u8,
            b5 == ((value >> 16) & 0xff) as u8,
            b6 == ((value >> 8) & 0xff) as u8,
            b7 == (value & 0xff) as u8,
    ;
}

/// Calls byteorder's `BigEndian::write_u16` on a fresh two-byte buffer.
/// Trusted: the buffer then holds the high byte of `value`, then its low
/// byte.
#[verifier::external_body]
pub(crate) fn u16_to_be(value: u16) -> (bytes: [u8; 2])
    ensures
        bytes@ == u16_be_bytes(value),
{
    let mut bytes = [0u8; 2];
    BigEndian::write_u16(&mut bytes, value);
    bytes
}

/// Calls byteorder's `BigEndian::read_u16`.
/// Trusted: the result has the first byte as its high half and the second
/// as its low half.
#[verifier::external_body]
pub(crate) fn u16_from_be(bytes: &[u8]) -> (value: u16)
    requires
        bytes@.len() == 2,
    ensures
        value == u16_from_be_bytes(bytes@),
{
    BigEndian::read_u16(bytes)
}

/// Calls byteorder's `BigEndian::write_u64` on a fresh eight-byte buffer.
/// Trusted: the buffer then holds the bytes of `value` from the most
/// significant to the least.
#[verifier::external_body]
pub(crate) fn u64_to_be(value: u64) -> (bytes: [u8; 8])
    ensures
        bytes@ == u64_be_bytes(value),
{
    let mut bytes = [0u8; 8];
    BigEndian::write_u64(&mut bytes, value);
    bytes
}

/// Calls byteorder's `BigEndian::read_u64`.
/// Trusted: the result is the integer whose big-endian form the eight bytes
/// are.
#[verifier::external_body]
pub(crate) fn u64_from_be(bytes: &[u8]) -> (value: u64)
    requires
        bytes@.len() == 8,
    ensures
        value == u64_from_be_bytes(bytes@),
{
    BigEndian::read_u64(bytes)
}

} // verus!
