//! The failures that conversion, encoding and decoding can report.

use vstd::prelude::*;

verus! {

/// Why an operation was abandoned. No operation returns partial output.
#[derive(Clone, Copy, Debug, PartialEq, Eq, Structural)]
pub enum LogError {
    /// The player name is longer than 16 bytes.
    NameTooLong,
    /// The version label is not in the registry.
    UnknownVersion,
    /// The version code is not in the registry.
    UnknownVersionCode,
    /// The name bytes are not UTF-8 text.
    InvalidName,
    /// The hostname bytes are not UTF-8 text.
    InvalidHostname,
    /// The flags byte sets a reserved bit.
    InvalidFlags,
    /// The binary version tag is not the supported one.
    UnsupportedVersion,
    /// The "is online" flag is set and the record has no identity.
    MissingIdentity,
    /// The input ends before the field that is being read.
    TruncatedInput,
    /// A name or hostname is longer than the 255 bytes that its one-byte
    /// length prefix can announce.
    FieldTooLong,
    /// The input is not a zlib stream.
    DecompressionFailed,
}

/// The three families of failure.
#[derive(Clone, Copy, Debug, PartialEq, Eq, Structural)]
pub enum ErrorKind {
    /// A record's content is not acceptable.
    Validation,
    /// The bytes, or the record to encode, break the wire format.
    Format,
    /// The compressed container is at fault.
    Compression,
}

impl LogError {
    /// The family of this failure.
    pub open spec fn spec_kind(self) -> ErrorKind {
        match self {
            LogError::NameTooLong
            | LogError::UnknownVersion
            | LogError::UnknownVersionCode
            | LogError::InvalidName
            | LogError::InvalidHostname => ErrorKind::Validation,
            LogError::InvalidFlags
            | LogError::UnsupportedVersion
            | LogError::MissingIdentity
            | LogError::TruncatedInput
            | LogError::FieldTooLong => ErrorKind::Format,
            LogError::DecompressionFailed => ErrorKind::Compression,
        }
    }

    /// The family of this failure.
    pub fn kind(&self) -> (kind: ErrorKind)
        ensures
            kind == self.spec_kind(),
    {
        match self {
            LogError::NameTooLong
            | LogError::UnknownVersion
            | LogError::UnknownVersionCode
            | LogError::InvalidName
            | LogError::InvalidHostname => ErrorKind::Validation,
            LogError::InvalidFlags
            | LogError::UnsupportedVersion
            | LogError::MissingIdentity
            | LogError::TruncatedInput
            | LogError::FieldTooLong => ErrorKind::Format,
            LogError::DecompressionFailed => ErrorKind::Compression,
        }
    }
}

} // verus!
