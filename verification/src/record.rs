//! The two forms of a log record: the validated form that people edit and
//! the compact form that goes on the wire.

use crate::error::LogError;
use crate::flags::{bits_defined, bits_online, LogFlags};
use crate::text::string_from_utf8;
use crate::versions::{code_for, code_of_label, label_for, label_of_code, lemma_registry_bijective};
use vstd::prelude::*;
use vstd::string::{StrSliceExecFns, StringExecFns};
use vstd::utf8::{
    decode_utf8, decode_utf8_encode_utf8, encode_utf8, encode_utf8_decode_utf8,
    encode_utf8_valid_utf8, valid_utf8,
};

verus! {

/// The only binary layout that is written and accepted.
pub const BINARY_VERSION: u8 = 1;

/// The longest player name, in bytes, that a validated record may carry.
pub const MAX_NAME_BYTES: usize = 16;

/// The longest byte string that a one-byte length prefix can announce.
pub const MAX_FIELD_BYTES: usize = 255;

/// The length of an identity, in bytes.
pub const IDENTITY_BYTES: usize = 16;

/// The length of an IPv4 address, in bytes.
pub const ADDRESS_BYTES: usize = 4;

/// The mathematical content of a [`PlayerLog`].
#[verifier::ext_equal]
pub struct PlayerLogView {
    pub binary_version: u8,
    pub flags: u8,
    pub player_uuid: Option<Seq<u8>>,
    pub player_name: Seq<u8>,
    pub player_ip: Seq<u8>,
    pub server_ip: Seq<u8>,
    pub server_port: u16,
    pub server_domain: Seq<u8>,
    pub server_version: u8,
}

impl PlayerLogView {
    /// The flags announce an identity that the record does not have.
    pub open spec fn missing_identity(self) -> bool {
        bits_online(self.flags) && self.player_uuid is None
    }

    /// The name or the hostname is longer than a length prefix can announce.
    pub open spec fn field_too_long(self) -> bool {
        self.player_name.len() > MAX_FIELD_BYTES || self.server_domain.len() > MAX_FIELD_BYTES
    }

    /// Why the record has no encoding; `None` when it has one. The identity
    /// is looked at first, as it comes first on the wire.
    pub open spec fn encode_failure(self) -> Option<LogError> {
        if self.missing_identity() {
            Some(LogError::MissingIdentity)
        } else if self.field_too_long() {
            Some(LogError::FieldTooLong)
        } else {
            None
        }
    }

    /// The fixed-width fields have their widths.
    pub open spec fn well_shaped(self) -> bool {
        &&& self.player_uuid matches Some(id) ==> id.len() == IDENTITY_BYTES
        &&& self.player_ip.len() == ADDRESS_BYTES
        &&& self.server_ip.len() == ADDRESS_BYTES
    }

    /// The record is one that decoding can produce: a supported layout, no
    /// reserved flag, an identity exactly when the flags announce one, and
    /// byte strings that their length prefixes can describe.
    pub open spec fn well_formed(self) -> bool {
        &&& self.well_shaped()
        &&& self.binary_version == BINARY_VERSION
        &&& bits_defined(self.flags)
        &&& bits_online(self.flags) <==> self.player_uuid is Some
        &&& self.player_name.len() <= MAX_FIELD_BYTES
        &&& self.server_domain.len() <= MAX_FIELD_BYTES
    }
}

/// A record in its compact, byte-oriented form.
#[derive(Debug, PartialEq, Eq, Clone)]
pub struct PlayerLog {
    pub binary_version: u8,
    pub flags: u8,
    pub player_uuid: Option<[u8; 16]>,
    pub player_name: Vec<u8>,
    pub player_ip: [u8; 4],
    pub server_ip: [u8; 4],
    pub server_port: u16,
    pub server_domain: Vec<u8>,
    pub server_version: u8,
}

impl View for PlayerLog {
    type V = PlayerLogView;

    open spec fn view(&self) -> PlayerLogView {
        PlayerLogView {
            binary_version: self.binary_version,
            flags: self.flags,
            player_uuid: match self.player_uuid {
                Some(id) => Some(id@),
                None => None,
            },
            player_name: self.player_name@,
            player_ip: self.player_ip@,
            server_ip: self.server_ip@,
            server_port: self.server_port,
            server_domain: self.server_domain@,
            server_version: self.server_version,
        }
    }
}

/// The mathematical content of a [`PlayerLogBuilder`].
#[verifier::ext_equal]
pub struct PlayerLogBuilderView {
    pub flags: u8,
    pub player_uuid: Option<Seq<u8>>,
    pub player_name: Seq<char>,
    pub player_ip: Seq<u8>,
    pub server_ip: Seq<u8>,
    pub server_port: u16,
    pub server_domain: Seq<char>,
    pub server_version: Seq<char>,
}

/// `bytes`, cut after `limit` bytes when it is longer.
pub open spec fn truncated(bytes: Seq<u8>, limit: nat) -> Seq<u8> {
    if bytes.len() <= limit {
        bytes
    } else {
        bytes.take(limit as int)
    }
}

impl PlayerLogBuilderView {
    /// What [`PlayerLogBuilder::build`] makes of this record.
    ///
    /// The name is measured in UTF-8 bytes. The hostname is cut after 255
    /// bytes, even inside a character. The flags are copied as they are.
    pub open spec fn spec_build(self) -> Result<PlayerLogView, LogError> {
        if encode_utf8(self.player_name).len() > MAX_NAME_BYTES {
            Err(LogError::NameTooLong)
        } else {
            match code_of_label(self.server_version) {
                None => Err(LogError::UnknownVersion),
                Some(code) => Ok(
                    PlayerLogView {
                        binary_version: BINARY_VERSION,
                        flags: self.flags,
                        player_uuid: self.player_uuid,
                        player_name: encode_utf8(self.player_name),
                        player_ip: self.player_ip,
                        server_ip: self.server_ip,
                        server_port: self.server_port,
                        server_domain: truncated(
                            encode_utf8(self.server_domain),
                            MAX_FIELD_BYTES as nat,
                        ),
                        server_version: code,
                    },
                ),
            }
        }
    }

    /// The record survives a conversion to the compact form and back: no
    /// reserved flag, a name of at most 16 bytes, a hostname of at most 255
    /// bytes, a version label that the registry knows.
    pub open spec fn reversible(self) -> bool {
        &&& bits_defined(self.flags)
        &&& encode_utf8(self.player_name).len() <= MAX_NAME_BYTES
        &&& encode_utf8(self.server_domain).len() <= MAX_FIELD_BYTES
        &&& code_of_label(self.server_version) is Some
    }

    /// The flags agree with the identity, and the fixed-width fields have
    /// their widths.
    pub open spec fn consistent(self) -> bool {
        &&& bits_defined(self.flags)
        &&& bits_online(self.flags) <==> self.player_uuid is Some
        &&& self.player_uuid matches Some(id) ==> id.len() == IDENTITY_BYTES
        &&& self.player_ip.len() == ADDRESS_BYTES
        &&& self.server_ip.len() == ADDRESS_BYTES
    }
}

impl PlayerLogView {
    /// What [`PlayerLogBuilder::from_log`] makes of this record. The checks
    /// are made in this order: flags, name, hostname, version code.
    pub open spec fn spec_from_log(self) -> Result<PlayerLogBuilderView, LogError> {
        if !bits_defined(self.flags) {
            Err(LogError::InvalidFlags)
        } else if !valid_utf8(self.player_name) {
            Err(LogError::InvalidName)
        } else if !valid_utf8(self.server_domain) {
            Err(LogError::InvalidHostname)
        } else {
            match label_of_code(self.server_version) {
                None => Err(LogError::UnknownVersionCode),
                Some(label) => Ok(
                    PlayerLogBuilderView {
                        flags: self.flags,
                        player_uuid: self.player_uuid,
                        player_name: decode_utf8(self.player_name),
                        player_ip: self.player_ip,
                        server_ip: self.server_ip,
                        server_port: self.server_port,
                        server_domain: decode_utf8(self.server_domain),
                        server_version: label,
                    },
                ),
            }
        }
    }
}

/// Converting a validated record to the compact form and back gives the
/// record again, for every record that is [reversible]. A hostname of more
/// than 255 bytes does not come back: it was cut.
///
/// [reversible]: PlayerLogBuilderView::reversible
pub proof fn lemma_from_log_of_build(record: PlayerLogBuilderView)
    requires
        record.reversible(),
    ensures
        record.spec_build() matches Ok(log) && log.spec_from_log() == Ok::<_, LogError>(record),
{
    let log = record.spec_build()->Ok_0;
    encode_utf8_valid_utf8(record.player_name);
    encode_utf8_valid_utf8(record.server_domain);
    encode_utf8_decode_utf8(record.player_name);
    encode_utf8_decode_utf8(record.server_domain);
    lemma_registry_bijective(record.server_version, log.server_version);
    assert(log.spec_from_log()->Ok_0 =~= record);
}

/// Converting a compact record to the validated form and back gives the
/// record again, when the first conversion succeeds, the layout is the
/// supported one and the name has at most 16 bytes and the hostname 255.
pub proof fn lemma_build_of_from_log(log: PlayerLogView)
    requires
        log.spec_from_log() is Ok,
        log.binary_version == BINARY_VERSION,
        log.player_name.len() <= MAX_NAME_BYTES,
        log.server_domain.len() <= MAX_FIELD_BYTES,
    ensures
        log.spec_from_log()->Ok_0.spec_build() == Ok::<_, LogError>(log),
{
    let record = log.spec_from_log()->Ok_0;
    decode_utf8_encode_utf8(log.player_name);
    decode_utf8_encode_utf8(log.server_domain);
    lemma_registry_bijective(record.server_version, log.server_version);
    assert(record.spec_build()->Ok_0 =~= log);
}

/// What `build` makes of a [consistent] record is well formed, so it has
/// an encoding and the codec reads it back as it wrote it.
///
/// [consistent]: PlayerLogBuilderView::consistent
pub proof fn lemma_build_well_formed(record: PlayerLogBuilderView)
    requires
        record.consistent(),
        record.spec_build() is Ok,
    ensures
        record.spec_build()->Ok_0.well_formed(),
        record.spec_build()->Ok_0.encode_failure() is None,
{
}

/// Whatever `build` returns has a name and a hostname short enough for
/// their length prefixes: only a missing identity can keep it from being
/// encoded.
pub proof fn lemma_build_fits(record: PlayerLogBuilderView)
    requires
        record.spec_build() is Ok,
    ensures
        !record.spec_build()->Ok_0.field_too_long(),
{
}

/// A record in the form that people write and edit.
#[derive(Debug, PartialEq, Eq, Clone)]
pub struct PlayerLogBuilder {
    pub flags: LogFlags,
    pub player_uuid: Option<[u8; 16]>,
    pub player_name: String,
    pub player_ip: [u8; 4],
    pub server_ip: [u8; 4],
    pub server_port: u16,
    pub server_domain: String,
    pub server_version: String,
}

impl View for PlayerLogBuilder {
    type V = PlayerLogBuilderView;

    open spec fn view(&self) -> PlayerLogBuilderView {
        PlayerLogBuilderView {
            flags: self.flags@,
            player_uuid: match self.player_uuid {
                Some(id) => Some(id@),
                None => None,
            },
            player_name: self.player_name@,
            player_ip: self.player_ip@,
            server_ip: self.server_ip@,
            server_port: self.server_port,
            server_domain: self.server_domain@,
            server_version: self.server_version@,
        }
    }
}

impl PlayerLogBuilder {
    /// Converts this record to its compact form.
    ///
    /// Fails with `NameTooLong` when the name has more than 16 bytes, else
    /// with `UnknownVersion` when the registry lacks the version label. The
    /// hostname is cut after 255 bytes. The flags are copied as they are:
    /// keeping them in line with the identity is the caller's part.
    pub fn build(&self) -> (result: Result<PlayerLog, LogError>)
        ensures
            match result {
                Ok(log) => self@.spec_build() == Ok::<_, LogError>(log@),
                Err(e) => self@.spec_build() == Err::<PlayerLogView, _>(e),
            },
    {
        if self.player_name.as_str().as_bytes().len() > MAX_NAME_BYTES {
            return Err(LogError::NameTooLong);
        }
        let player_name = self.player_name.as_str().as_bytes_vec();
        let mut server_domain = self.server_domain.as_str().as_bytes_vec();
        server_domain.truncate(MAX_FIELD_BYTES);
        let server_version = match code_for(self.server_version.as_str()) {
            Some(code) => code,
            None => return Err(LogError::UnknownVersion),
        };
        let log = PlayerLog {
            binary_version: BINARY_VERSION,
            flags: self.flags.bits(),
            player_uuid: self.player_uuid,
            player_name,
            player_ip: self.player_ip,
            server_ip: self.server_ip,
            server_port: self.server_port,
            server_domain,
            server_version,
        };
        assert(log@ =~= self@.spec_build()->Ok_0);
        Ok(log)
    }

    /// Converts a compact record back to the form that people edit.
    ///
    /// Fails with `InvalidFlags` on a reserved flag bit, else with
    /// `InvalidName` or `InvalidHostname` when those bytes are not UTF-8,
    /// else with `UnknownVersionCode` when the registry lacks the code.
    pub fn from_log(log: &PlayerLog) -> (result: Result<PlayerLogBuilder, LogError>)
        ensures
            match result {
                Ok(record) => log@.spec_from_log() == Ok::<_, LogError>(record@),
                Err(e) => log@.spec_from_log() == Err::<PlayerLogBuilderView, _>(e),
            },
    {
        let flags = match LogFlags::from_bits(log.flags) {
            Some(flags) => flags,
            None => return Err(LogError::InvalidFlags),
        };
        let player_name = match string_from_utf8(log.player_name.clone()) {
            Some(text) => text,
            None => return Err(LogError::InvalidName),
        };
        let server_domain = match string_from_utf8(log.server_domain.clone()) {
            Some(text) => text,
            None => return Err(LogError::InvalidHostname),
        };
        let server_version = match label_for(log.server_version) {
            Some(label) => String::from_str(label),
            None => return Err(LogError::UnknownVersionCode),
        };
        let record = PlayerLogBuilder {
            flags,
            player_uuid: log.player_uuid,
            player_name,
            player_ip: log.player_ip,
            server_ip: log.server_ip,
            server_port: log.server_port,
            server_domain,
            server_version,
        };
        assert(record@ =~= log@.spec_from_log()->Ok_0);
        Ok(record)
    }
}

} // verus!
