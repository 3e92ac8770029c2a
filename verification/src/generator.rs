//! Random validated records, for trials and measurements.

use crate::flags::{
    bits_contain, bits_defined, bits_online, LogFlags, IS_ONLINE_BIT, PLAYER_AUTH_BIT,
};
use crate::record::PlayerLogBuilder;
use crate::text::string_from_utf8;
use crate::versions::{label_for, lemma_registry_bijective};
use rand::rngs::ThreadRng;
use rand::Rng;
use vstd::prelude::*;
use vstd::string::StringExecFns;
use vstd::utf8::{
    decode_utf8_encode_utf8, encode_utf8, is_leading_byte_width_1, partial_valid_utf8,
    partial_valid_utf8_extend_ascii_block, valid_utf8,
};

verus! {

/// rand's handle on the generator of the running thread.
#[verifier::external_type_specification]
#[verifier::external_body]
pub struct ExThreadRng(ThreadRng);

/// rand's `thread_rng`: nothing is claimed of the handle it returns.
pub assume_specification[ rand::thread_rng ]() -> (rng: ThreadRng);

/// Calls rand's `Rng::gen` for a `bool`. Nothing is claimed of the result.
#[verifier::external_body]
fn random_bool(rng: &mut ThreadRng) -> (value: bool) {
    rng.gen()
}

/// Calls rand's `Rng::gen` for a `u16`. Nothing is claimed of the result.
#[verifier::external_body]
fn random_u16(rng: &mut ThreadRng) -> (value: u16) {
    rng.gen()
}

/// Calls rand's `Rng::gen_range` on `low..high`.
/// Trusted: the result lies in that range. An empty range makes rand panic,
/// so it is left out.
#[verifier::external_body]
fn random_in(rng: &mut ThreadRng, low: usize, high: usize) -> (value: usize)
    requires
        low < high,
    ensures
        low <= value < high,
{
    rng.gen_range(low..high)
}

/// Calls uuid's `Uuid::new_v4` and takes the bytes of what it returns.
/// Trusted: the bytes carry version 4 in the high half of byte 6 and the
/// RFC 4122 variant in the two top bits of byte 8.
#[verifier::external_body]
fn random_identity() -> (id: [u8; 16])
    ensures
        id@[6] & 0xf0 == 0x40,
        id@[8] & 0xc0 == 0x80,
{
    uuid::Uuid::new_v4().into_bytes()
}

/// The number of characters that random text is drawn from.
pub const CHARSET_LEN: usize = 36;

/// `byte` is an upper-case letter or a digit, in ASCII.
pub open spec fn in_charset(byte: u8) -> bool {
    (0x41 <= byte <= 0x5a) || (0x30 <= byte <= 0x39)
}

/// The character at `index` of the character set: the letters `A` to `Z`,
/// then the digits `0` to `9`.
pub open spec fn charset_byte(index: int) -> u8 {
    if index < 26 {
        (0x41 + index) as u8
    } else {
        (0x30 + index - 26) as u8
    }
}

/// The character at `index` of the character set.
fn charset_at(index: usize) -> (byte: u8)
    requires
        index < CHARSET_LEN,
    ensures
        byte == charset_byte(index as int),
        in_charset(byte),
{
    if index < 26 {
        0x41 + index as u8
    } else {
        0x30 + (index - 26) as u8
    }
}

/// Bytes below 128 are UTF-8 text, one character each.
proof fn lemma_ascii_is_utf8(bytes: Seq<u8>)
    requires
        forall|i: int| 0 <= i < bytes.len() ==> bytes[i] <= 0x7f,
    ensures
        valid_utf8(bytes),
{
    assert(bytes.subrange(0, 0) =~= Seq::<u8>::empty());
    assert(partial_valid_utf8(bytes, 0));
    assert forall|i: int| 0 <= i < bytes.len() implies #[trigger] is_leading_byte_width_1(
        bytes[i],
    ) by {}
    partial_valid_utf8_extend_ascii_block(bytes, 0, bytes.len() as int);
    assert(bytes.subrange(0, bytes.len() as int) =~= bytes);
}

/// Random text of `len` characters, each an upper-case letter or a digit.
fn rand_string(rng: &mut ThreadRng, len: usize) -> (text: String)
    ensures
        drawn_from_charset(text@, len as nat),
{
    let mut bytes: Vec<u8> = Vec::new();
    let mut i: usize = 0;
    while i < len
        invariant
            i <= len,
            bytes@.len() == i,
            forall|j: int| 0 <= j < i ==> in_charset(#[trigger] bytes@[j]),
        decreases len - i,
    {
        let index = random_in(rng, 0, CHARSET_LEN);
        bytes.push(charset_at(index));
        i += 1;
    }
    proof {
        lemma_ascii_is_utf8(bytes@);
        decode_utf8_encode_utf8(bytes@);
    }
    match string_from_utf8(bytes) {
        Some(text) => text,
        None => String::new(),
    }
}

/// A random address with every octet between 1 and 254.
fn rand_ip(rng: &mut ThreadRng) -> (address: [u8; 4])
    ensures
        plain_address(address@),
{
    let a = random_in(rng, 1, 255) as u8;
    let b = random_in(rng, 1, 255) as u8;
    let c = random_in(rng, 1, 255) as u8;
    let d = random_in(rng, 1, 255) as u8;
    [a, b, c, d]
}

/// The flags byte of a record that is online or not, authenticated or not.
pub open spec fn flag_bits(online: bool, authenticated: bool) -> u8 {
    if online && authenticated {
        3
    } else if online {
        IS_ONLINE_BIT
    } else if authenticated {
        PLAYER_AUTH_BIT
    } else {
        0
    }
}

/// The flags of a record that is online or not, authenticated or not:
/// the empty set with one flag inserted for each that holds.
pub fn flags_for(online: bool, authenticated: bool) -> (flags: LogFlags)
    ensures
        flags@ == flag_bits(online, authenticated),
        bits_defined(flags@),
        bits_online(flags@) == online,
        bits_contain(flags@, PLAYER_AUTH_BIT) == authenticated,
{
    let mut flags = LogFlags::empty();
    if online {
        flags.insert(LogFlags::is_online());
    }
    if authenticated {
        flags.insert(LogFlags::player_auth());
    }
    proof {
        assert((0u8 | 2u8) | 1u8 == 3u8 && 0u8 | 2u8 == 2u8 && 0u8 | 1u8 == 1u8) by (bit_vector);
        assert(0u8 & !3u8 == 0 && 1u8 & !3u8 == 0 && 2u8 & !3u8 == 0 && 3u8 & !3u8 == 0)
            by (bit_vector);
        assert(0u8 & 2u8 == 0 && 1u8 & 2u8 == 0 && 2u8 & 2u8 == 2 && 3u8 & 2u8 == 2)
            by (bit_vector);
        assert(0u8 & 1u8 == 0 && 1u8 & 1u8 == 1 && 2u8 & 1u8 == 0 && 3u8 & 1u8 == 1)
            by (bit_vector);
    }
    flags
}

/// `text` is made of `len` characters, each an upper-case letter or a
/// digit.
pub open spec fn drawn_from_charset(text: Seq<char>, len: nat) -> bool {
    &&& encode_utf8(text).len() == len
    &&& forall|i: int| 0 <= i < len ==> in_charset(#[trigger] encode_utf8(text)[i])
}

/// Every octet of `address` lies between 1 and 254.
pub open spec fn plain_address(address: Seq<u8>) -> bool {
    &&& address.len() == 4
    &&& forall|i: int| 0 <= i < 4 ==> 1 <= #[trigger] address[i] < 255
}

/// A random validated record.
///
/// Whatever the generator yields, the record is consistent (it has an
/// identity exactly when it is flagged online, and no reserved flag), its
/// name has 4 to 15 characters and its hostname 4 to 254, all of them
/// upper-case letters and digits, its addresses have no octet 0 or 255,
/// its identity is a version 4 UUID, and its version label is one of the
/// registry. So `build` succeeds on it, what `build` returns has an
/// encoding, and `from_log` gives the record back.
pub fn log_generator() -> (record: PlayerLogBuilder)
    ensures
        record@.consistent(),
        record@.reversible(),
        record@.spec_build() matches Ok(log) && log.encode_failure() is None,
        4 <= encode_utf8(record@.player_name).len() < 16,
        4 <= encode_utf8(record@.server_domain).len() < 255,
        drawn_from_charset(record@.player_name, encode_utf8(record@.player_name).len()),
        drawn_from_charset(record@.server_domain, encode_utf8(record@.server_domain).len()),
        plain_address(record@.player_ip),
        plain_address(record@.server_ip),
        record@.player_uuid matches Some(id) ==> id[6] & 0xf0 == 0x40 && id[8] & 0xc0 == 0x80,
{
    let mut rng = rand::thread_rng();
    let player_uuid = if random_bool(&mut rng) {
        Some(random_identity())
    } else {
        None
    };
    let flags = flags_for(player_uuid.is_some(), random_bool(&mut rng));
    let name_len = random_in(&mut rng, 4, 16);
    let player_name = rand_string(&mut rng, name_len);
    let player_ip = rand_ip(&mut rng);
    let server_ip = rand_ip(&mut rng);
    let server_port = random_u16(&mut rng);
    let domain_len = random_in(&mut rng, 4, 255);
    let server_domain = rand_string(&mut rng, domain_len);
    let code = random_in(&mut rng, 1, 15) as u8;
    let server_version = match label_for(code) {
        Some(label) => String::from_str(label),
        None => String::new(),
    };
    proof {
        lemma_registry_bijective(server_version@, code);
    }
    PlayerLogBuilder {
        flags,
        player_uuid,
        player_name,
        player_ip,
        server_ip,
        server_port,
        server_domain,
        server_version,
    }
}

} // verus!
