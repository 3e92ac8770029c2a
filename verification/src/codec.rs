//! The byte-exact encoding of one compact record.
//!
//! ```text
//! [binary version][flags]([identity; 16], when the "is online" flag is set)
//! [name length][name][player ip; 4][server ip; 4][port, big-endian; 2]
//! [hostname length][hostname][version code]
//! ```

use crate::endian::{
    lemma_u16_be_bytes_of_value, lemma_u16_be_round_trip, u16_be_bytes, u16_from_be_bytes,
    u16_to_be,
};
use crate::error::LogError;
use crate::flags::{bits_defined, bits_online, lemma_defined_bits, LogFlags, DEFINED_BITS};
use crate::reader::ByteReader;
use crate::record::{
    lemma_build_well_formed, PlayerLog, PlayerLogBuilderView, PlayerLogView, BINARY_VERSION,
    MAX_FIELD_BYTES,
};
use vstd::prelude::*;

verus! {

/// The byte that announces a string of `len` bytes.
pub open spec fn length_byte(len: nat) -> u8
    recommends
        len <= MAX_FIELD_BYTES,
{
    len as u8
}

/// The encoding of `record`, for a record that has one: a record that is
/// not missing its identity and whose name and hostname have at most 255
/// bytes.
pub open spec fn encode_record(record: PlayerLogView) -> Seq<u8> {
    seq![record.binary_version, record.flags] + (match record.player_uuid {
        Some(id) if bits_online(record.flags) => id,
        _ => Seq::empty(),
    }) + seq![length_byte(record.player_name.len())] + record.player_name + record.player_ip
        + record.server_ip + u16_be_bytes(record.server_port) + seq![
        length_byte(record.server_domain.len()),
    ] + record.server_domain + seq![record.server_version]
}

/// Where the name's length byte stands in a record with these flags.
pub open spec fn name_offset(flags: u8) -> int {
    if bits_online(flags) {
        18
    } else {
        2
    }
}

/// Why the header (binary version, flags, identity) stops decoding; `None`
/// when it does not. The checks are made in reading order.
pub open spec fn header_failure(bytes: Seq<u8>) -> Option<LogError> {
    if bytes.len() < 1 {
        Some(LogError::TruncatedInput)
    } else if bytes[0] != BINARY_VERSION {
        Some(LogError::UnsupportedVersion)
    } else if bytes.len() < 2 {
        Some(LogError::TruncatedInput)
    } else if !bits_defined(bytes[1]) {
        Some(LogError::InvalidFlags)
    } else if bytes.len() < name_offset(bytes[1]) {
        Some(LogError::TruncatedInput)
    } else {
        None
    }
}

/// What decoding makes of the front of `bytes`: the record and the number
/// of bytes it occupies, or the first failure met while reading in order.
pub open spec fn decode_record(bytes: Seq<u8>) -> Result<(PlayerLogView, nat), LogError> {
    let name_at = name_offset(bytes[1]);
    let name_end = name_at + 1 + bytes[name_at];
    let host_at = name_end + 10;
    let host_end = host_at + 1 + bytes[host_at];
    if let Some(failure) = header_failure(bytes) {
        Err(failure)
    } else if bytes.len() <= name_at || bytes.len() <= host_at || bytes.len() <= host_end {
        Err(LogError::TruncatedInput)
    } else {
        Ok(
            (
                PlayerLogView {
                    binary_version: bytes[0],
                    flags: bytes[1],
                    player_uuid: if bits_online(bytes[1]) {
                        Some(bytes.subrange(2, 18))
                    } else {
                        None
                    },
                    player_name: bytes.subrange(name_at + 1, name_end),
                    player_ip: bytes.subrange(name_end, name_end + 4),
                    server_ip: bytes.subrange(name_end + 4, name_end + 8),
                    server_port: u16_from_be_bytes(bytes.subrange(name_end + 8, name_end + 10)),
                    server_domain: bytes.subrange(host_at + 1, host_end),
                    server_version: bytes[host_end],
                },
                (host_end + 1) as nat,
            ),
        )
    }
}

/// The number of bytes that the encoding of `record` takes.
pub open spec fn encoded_len(record: PlayerLogView) -> nat {
    encode_record(record).len()
}

/// The size of an encoding: fifteen bytes for the fields of fixed width and
/// the two length prefixes, sixteen more when an identity is written, and
/// the bytes of the name and of the hostname.
pub proof fn lemma_encoded_len(record: PlayerLogView)
    requires
        record.well_shaped(),
    ensures
        encoded_len(record) == 15 + (if bits_online(record.flags) && record.player_uuid is Some {
            16nat
        } else {
            0nat
        }) + record.player_name.len() + record.server_domain.len(),
{
}

/// Decoding reads back what encoding wrote, whatever follows it: for every
/// well-formed record, the front of its encoding decodes to that record and
/// takes exactly the encoding's length.
pub proof fn lemma_decode_encode(record: PlayerLogView, rest: Seq<u8>)
    requires
        record.well_formed(),
    ensures
        decode_record(encode_record(record) + rest) == Ok::<_, LogError>(
            (record, encoded_len(record)),
        ),
{
    let bytes = encode_record(record) + rest;
    let name_at = name_offset(record.flags);
    let name_end = name_at + 1 + record.player_name.len();
    let host_at = name_end + 10;
    let host_end = host_at + 1 + record.server_domain.len();
    lemma_u16_be_round_trip(record.server_port);
    assert(bytes[name_at] == length_byte(record.player_name.len()));
    assert(bytes[host_at] == length_byte(record.server_domain.len()));
    assert(encoded_len(record) == host_end + 1);
    assert(bytes.subrange(name_end + 8, name_end + 10) =~= u16_be_bytes(record.server_port));
    assert(decode_record(bytes)->Ok_0.0 =~= record);
}

/// Encoding writes back what decoding read: whenever the front of `bytes`
/// decodes, the record is well formed and its encoding is exactly the
/// bytes that were taken. So decoding loses nothing, whatever the name and
/// the hostname hold.
pub proof fn lemma_encode_decode(bytes: Seq<u8>)
    requires
        decode_record(bytes) is Ok,
    ensures
        ({
            let (record, used) = decode_record(bytes)->Ok_0;
            &&& record.well_formed()
            &&& used <= bytes.len()
            &&& encode_record(record) == bytes.take(used as int)
        }),
{
    let (record, used) = decode_record(bytes)->Ok_0;
    let name_end = name_offset(bytes[1]) + 1 + bytes[name_offset(bytes[1])];
    lemma_u16_be_bytes_of_value(bytes.subrange(name_end + 8, name_end + 10));
    assert(encode_record(record) =~= bytes.take(used as int));
}

/// A record that `build` made of a consistent validated record is read
/// back as it was written, whatever follows it.
pub proof fn lemma_decode_encode_of_build(record: PlayerLogBuilderView, rest: Seq<u8>)
    requires
        record.consistent(),
        record.spec_build() is Ok,
    ensures
        decode_record(encode_record(record.spec_build()->Ok_0) + rest) == Ok::<_, LogError>(
            (record.spec_build()->Ok_0, encoded_len(record.spec_build()->Ok_0)),
        ),
{
    lemma_build_well_formed(record);
    lemma_decode_encode(record.spec_build()->Ok_0, rest);
}

/// A flags byte with any bit above bit 1 stops decoding with
/// `InvalidFlags`, whatever follows it.
pub proof fn lemma_reserved_flag_is_refused(bytes: Seq<u8>)
    requires
        bytes.len() >= 2,
        bytes[0] == BINARY_VERSION,
        bytes[1] > DEFINED_BITS,
    ensures
        decode_record(bytes) == Err::<(PlayerLogView, nat), _>(LogError::InvalidFlags),
{
    lemma_defined_bits(bytes[1]);
}

/// Appends `bytes` to `writer`.
pub(crate) fn put_bytes(writer: &mut Vec<u8>, bytes: &[u8])
    ensures
        final(writer)@ == old(writer)@ + bytes@,
{
    writer.extend_from_slice(bytes);
    assert(writer@ =~= old(writer)@ + bytes@);
}

impl PlayerLog {
    /// Appends the encoding of this record to `writer`.
    ///
    /// Fails with `MissingIdentity` when the "is online" flag is set and
    /// the record has no identity, else with `FieldTooLong` when the name
    /// or the hostname has more than 255 bytes. On failure nothing is
    /// written.
    pub fn serialize(&self, writer: &mut Vec<u8>) -> (result: Result<(), LogError>)
        ensures
            match self@.encode_failure() {
                Some(failure) => result == Err::<(), _>(failure) && final(writer)@ == old(writer)@,
                None => result is Ok && final(writer)@ == old(writer)@ + encode_record(self@),
            },
    {
        let online = LogFlags::from_bits_retain(self.flags).contains(LogFlags::is_online());
        if online && self.player_uuid.is_none() {
            return Err(LogError::MissingIdentity);
        }
        if self.player_name.len() > MAX_FIELD_BYTES || self.server_domain.len() > MAX_FIELD_BYTES {
            return Err(LogError::FieldTooLong);
        }
        writer.push(self.binary_version);
        writer.push(self.flags);
        if online {
            match &self.player_uuid {
                Some(id) => put_bytes(writer, id.as_slice()),
                None => {},
            }
        }
        writer.push(self.player_name.len() as u8);
        put_bytes(writer, self.player_name.as_slice());
        put_bytes(writer, self.player_ip.as_slice());
        put_bytes(writer, self.server_ip.as_slice());
        let port = u16_to_be(self.server_port);
        put_bytes(writer, port.as_slice());
        writer.push(self.server_domain.len() as u8);
        put_bytes(writer, self.server_domain.as_slice());
        writer.push(self.server_version);
        assert(writer@ =~= old(writer)@ + encode_record(self@));
        Ok(())
    }

    /// Reads one record from `reader`.
    ///
    /// Fields are read in wire order and the first failure is reported: a
    /// layout other than the supported one, a reserved flag bit, or input
    /// that ends early. On failure the reader stays where it was. The name
    /// and hostname are taken as raw bytes, whatever they hold. A record
    /// that is returned is well formed.
    pub fn deserialize(reader: &mut ByteReader) -> (result: Result<PlayerLog, LogError>)
        ensures
            match result {
                Ok(log) => decode_record(old(reader)@) matches Ok((record, used)) && log@ == record
                    && final(reader)@ == old(reader)@.skip(used as int),
                Err(e) => decode_record(old(reader)@) == Err::<(PlayerLogView, nat), _>(e)
                    && *final(reader) == *old(reader),
            },
            result matches Ok(log) ==> log@.well_formed(),
    {
        let ghost input = reader@;
        proof {
            if decode_record(input) is Ok {
                lemma_encode_decode(input);
            }
        }
        let mut cursor = *reader;
        let (binary_version, flags, player_uuid) = match read_header(&mut cursor) {
            Ok(header) => header,
            Err(e) => return Err(e),
        };
        let ghost name_at = name_offset(flags);
        let player_name = match read_prefixed(&mut cursor) {
            Some(bytes) => bytes,
            None => return Err(LogError::TruncatedInput),
        };
        let ghost name_end = name_at + 1 + player_name@.len();
        assert(cursor@ =~= input.skip(name_end));
        assert(player_name@ =~= input.subrange(name_at + 1, name_end));
        let (player_ip, server_ip, server_port) = match read_endpoints(&mut cursor) {
            Some(endpoints) => endpoints,
            None => return Err(LogError::TruncatedInput),
        };
        let ghost host_at = name_end + 10;
        assert(cursor@ =~= input.skip(host_at));
        assert(player_ip@ =~= input.subrange(name_end, name_end + 4));
        assert(server_ip@ =~= input.subrange(name_end + 4, name_end + 8));
        assert(input.skip(name_end).subrange(8, 10) =~= input.subrange(name_end + 8, name_end + 10));
        let server_domain = match read_prefixed(&mut cursor) {
            Some(bytes) => bytes,
            None => return Err(LogError::TruncatedInput),
        };
        let ghost host_end = host_at + 1 + server_domain@.len();
        assert(cursor@ =~= input.skip(host_end));
        assert(server_domain@ =~= input.subrange(host_at + 1, host_end));
        let server_version = match cursor.read_u8() {
            Some(byte) => byte,
            None => return Err(LogError::TruncatedInput),
        };
        assert(cursor@ =~= input.skip(host_end + 1));
        let log = PlayerLog {
            binary_version,
            flags,
            player_uuid,
            player_name,
            player_ip,
            server_ip,
            server_port,
            server_domain,
            server_version,
        };
        assert(log@ =~= decode_record(input)->Ok_0.0);
        *reader = cursor;
        Ok(log)
    }
}

/// Reads the binary version, the flags and, when they announce one, the
/// identity.
fn read_header(cursor: &mut ByteReader) -> (result: Result<(u8, u8, Option<[u8; 16]>), LogError>)
    ensures
        match result {
            Ok((binary_version, flags, identity)) => {
                &&& header_failure(old(cursor)@) is None
                &&& binary_version == old(cursor)@[0]
                &&& flags == old(cursor)@[1]
                &&& identity is Some <==> bits_online(flags)
                &&& identity matches Some(id) ==> id@ == old(cursor)@.subrange(2, 18)
                &&& final(cursor)@ == old(cursor)@.skip(name_offset(flags))
            },
            Err(e) => header_failure(old(cursor)@) == Some(e),
        },
{
    let ghost input = cursor@;
    let binary_version = match cursor.read_u8() {
        Some(byte) => byte,
        None => return Err(LogError::TruncatedInput),
    };
    if binary_version != BINARY_VERSION {
        return Err(LogError::UnsupportedVersion);
    }
    let flags = match cursor.read_u8() {
        Some(byte) => byte,
        None => return Err(LogError::TruncatedInput),
    };
    let parsed_flags = match LogFlags::from_bits(flags) {
        Some(parsed) => parsed,
        None => return Err(LogError::InvalidFlags),
    };
    assert(cursor@ =~= input.skip(2));
    if parsed_flags.contains(LogFlags::is_online()) {
        match cursor.read_array::<16>() {
            Some(id) => {
                assert(cursor@ =~= input.skip(18));
                assert(id@ =~= input.subrange(2, 18));
                Ok((binary_version, flags, Some(id)))
            },
            None => Err(LogError::TruncatedInput),
        }
    } else {
        Ok((binary_version, flags, None))
    }
}

/// Reads a length byte and the bytes that it announces.
fn read_prefixed(cursor: &mut ByteReader) -> (bytes: Option<Vec<u8>>)
    ensures
        bytes is Some <==> old(cursor)@.len() >= 1 && old(cursor)@.len() >= 1 + old(cursor)@[0],
        bytes matches Some(b) ==> {
            &&& b@ == old(cursor)@.subrange(1, 1 + old(cursor)@[0])
            &&& final(cursor)@ == old(cursor)@.skip(1 + old(cursor)@[0])
        },
{
    let ghost input = cursor@;
    let len = match cursor.read_u8() {
        Some(byte) => byte,
        None => return None,
    };
    match cursor.read_vec(len as usize) {
        Some(bytes) => {
            assert(bytes@ =~= input.subrange(1, 1 + len));
            assert(cursor@ =~= input.skip(1 + len));
            Some(bytes)
        },
        None => None,
    }
}

/// Reads the player's address, the server's address and the server's port.
fn read_endpoints(cursor: &mut ByteReader) -> (endpoints: Option<([u8; 4], [u8; 4], u16)>)
    ensures
        endpoints is Some <==> old(cursor)@.len() >= 10,
        endpoints matches Some((player_ip, server_ip, port)) ==> {
            &&& player_ip@ == old(cursor)@.subrange(0, 4)
            &&& server_ip@ == old(cursor)@.subrange(4, 8)
            &&& port == u16_from_be_bytes(old(cursor)@.subrange(8, 10))
            &&& final(cursor)@ == old(cursor)@.skip(10)
        },
{
    let ghost input = cursor@;
    let player_ip = match cursor.read_array::<4>() {
        Some(bytes) => bytes,
        None => return None,
    };
    let server_ip = match cursor.read_array::<4>() {
        Some(bytes) => bytes,
        None => return None,
    };
    assert(cursor@ =~= input.skip(8));
    let port = match cursor.read_u16_be() {
        Some(port) => port,
        None => return None,
    };
    assert(player_ip@ =~= input.subrange(0, 4));
    assert(server_ip@ =~= input.subrange(4, 8));
    assert(input.skip(8).take(2) =~= input.subrange(8, 10));
    assert(cursor@ =~= input.skip(10));
    Some((player_ip, server_ip, port))
}

} // verus!
