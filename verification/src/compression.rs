//! The batch codec behind a zlib stream. The stream has no framing of its
//! own: it is the compressor's container around the batch bytes.

use crate::batch::{
    all_well_formed, decode_batch, encode_batch, first_failure, lemma_well_formed_is_encodable,
    lemma_decode_batch_of_encode, views, PlayerLogSerializer,
};
use crate::error::LogError;
use crate::record::{PlayerLog, PlayerLogView};
use flate2::read::ZlibDecoder;
use flate2::write::ZlibEncoder;
use std::io::{Read, Write};
use vstd::prelude::*;

verus! {

/// The highest compression level.
pub const MAX_LEVEL: u32 = 9;

/// A compression level: 0 stores the bytes as they are, 1 favours speed,
/// 9 favours size. Its view is the level's number.
#[derive(Clone, Copy, Debug, PartialEq, Eq)]
pub struct Compression {
    level: u32,
}

impl View for Compression {
    type V = u32;

    closed spec fn view(&self) -> u32 {
        self.level
    }
}

impl Compression {
    #[verifier::type_invariant]
    spec fn supported(self) -> bool {
        self.level <= MAX_LEVEL
    }

    /// The level with this number, if there is one.
    pub fn new(level: u32) -> (compression: Option<Compression>)
        ensures
            compression is Some <==> level <= MAX_LEVEL,
            compression matches Some(c) ==> c@ == level,
    {
        if level <= MAX_LEVEL {
            Some(Compression { level })
        } else {
            None
        }
    }

    /// No compression: the stream may be a little longer than its payload.
    pub fn none() -> (compression: Compression)
        ensures
            compression@ == 0,
    {
        Compression { level: 0 }
    }

    /// The fastest level.
    pub fn fast() -> (compression: Compression)
        ensures
            compression@ == 1,
    {
        Compression { level: 1 }
    }

    /// The level that gives the smallest stream.
    pub fn best() -> (compression: Compression)
        ensures
            compression@ == 9,
    {
        Compression { level: 9 }
    }

    /// The level's number.
    pub fn level(&self) -> (level: u32)
        ensures
            level == self@,
            level <= MAX_LEVEL,
    {
        proof {
            use_type_invariant(self);
        }
        self.level
    }
}

impl Default for Compression {
    /// The middle level, 6.
    fn default() -> (compression: Compression)
        ensures
            compression@ == 6,
    {
        Compression { level: 6 }
    }
}

/// The zlib stream that the compressor makes of `data` at `level`.
pub uninterp spec fn zlib_stream(data: Seq<u8>, level: u32) -> Seq<u8>;

/// The bytes that the decompressor makes of `stream`, or `None` when it
/// rejects the stream.
pub uninterp spec fn zlib_payload(stream: Seq<u8>) -> Option<Seq<u8>>;

/// Feeds `data` to flate2's `write::ZlibEncoder` over an empty vector, at
/// `Compression::new(level)`, and takes the vector back with `finish`.
/// Trusted: a stream always comes back, since a vector takes every write
/// and the compressor reports no failure on a fresh stream that is written
/// once and finished; the stream is the one named by [`zlib_stream`]; and
/// it is a complete zlib stream whose payload is `data`.
#[verifier::external_body]
fn zlib_compress(data: &[u8], level: u32) -> (stream: Option<Vec<u8>>)
    requires
        level <= MAX_LEVEL,
    ensures
        stream is Some,
        stream matches Some(s) ==> s@ == zlib_stream(data@, level) && zlib_payload(s@) == Some(
            data@,
        ),
{
    let mut encoder = ZlibEncoder::new(Vec::new(), flate2::Compression::new(level));
    match encoder.write_all(data) {
        Ok(()) => encoder.finish().ok(),
        Err(_) => None,
    }
}

/// Reads flate2's `read::ZlibDecoder` over `stream` to its end.
/// Trusted: what was read, or the fact that reading failed, is what
/// [`zlib_payload`] names.
#[verifier::external_body]
fn zlib_decompress(stream: &[u8]) -> (payload: Option<Vec<u8>>)
    ensures
        payload is Some <==> zlib_payload(stream@) is Some,
        payload matches Some(p) ==> zlib_payload(stream@) == Some(p@),
{
    let mut payload = Vec::new();
    match ZlibDecoder::new(stream).read_to_end(&mut payload) {
        Ok(_) => Some(payload),
        Err(_) => None,
    }
}

/// What decoding makes of a compressed batch: the stream is decompressed
/// to its end, then the batch at the front of the payload is decoded.
pub open spec fn decode_compressed_batch(stream: Seq<u8>) -> Result<Seq<PlayerLogView>, LogError> {
    match zlib_payload(stream) {
        None => Err(LogError::DecompressionFailed),
        Some(payload) => match decode_batch(payload) {
            Err(e) => Err(e),
            Ok((records, _)) => Ok(records),
        },
    }
}

/// Decoding a compressed batch gives the records back, in order: for every
/// sequence of well-formed records and every stream whose payload is the
/// encoding of that batch. `serialize_many_compressed` returns such a
/// stream at every level.
pub proof fn lemma_decode_compressed_batch(records: Seq<PlayerLogView>, stream: Seq<u8>)
    requires
        all_well_formed(records),
        records.len() <= u64::MAX,
        zlib_payload(stream) == Some(encode_batch(records)),
    ensures
        decode_compressed_batch(stream) == Ok::<_, LogError>(records),
{
    lemma_decode_batch_of_encode(records, Seq::empty());
    assert(encode_batch(records) + Seq::<u8>::empty() =~= encode_batch(records));
}

impl PlayerLogSerializer {
    /// Encodes the batch `logs` and compresses the bytes at `level`.
    ///
    /// Fails exactly where `serialize_many` does, and as it does. Else the
    /// stream is returned, and it decompresses to the batch, at every
    /// level: a batch of well-formed records comes back from
    /// `deserialize_many_compressed` as it was given.
    pub fn serialize_many_compressed(logs: &[PlayerLog], level: Compression) -> (result: Result<
        Vec<u8>,
        LogError,
    >)
        ensures
            match first_failure(views(logs@)) {
                Some(failure) => result == Err::<Vec<u8>, _>(failure),
                None => result matches Ok(stream) && stream@ == zlib_stream(
                    encode_batch(views(logs@)),
                    level@,
                ) && zlib_payload(stream@) == Some(encode_batch(views(logs@))),
            },
            all_well_formed(views(logs@)) ==> (result matches Ok(stream)
                && decode_compressed_batch(stream@) == Ok::<_, LogError>(views(logs@))),
    {
        proof {
            if all_well_formed(views(logs@)) {
                assert(views(logs@).len() == logs.len());
                lemma_well_formed_is_encodable(views(logs@));
                if zlib_payload(zlib_stream(encode_batch(views(logs@)), level@)) == Some(
                    encode_batch(views(logs@)),
                ) {
                    lemma_decode_compressed_batch(
                        views(logs@),
                        zlib_stream(encode_batch(views(logs@)), level@),
                    );
                }
            }
        }
        match Self::serialize_many(logs) {
            Ok(bytes) => Ok(zlib_compress(bytes.as_slice(), level.level()).unwrap()),
            Err(e) => Err(e),
        }
    }

    /// Decompresses `data` to its end and decodes the batch at the front
    /// of what comes out.
    ///
    /// Fails with `DecompressionFailed` when `data` is not a zlib stream,
    /// else as `deserialize_many` does on the payload.
    pub fn deserialize_many_compressed(data: &[u8]) -> (result: Result<Vec<PlayerLog>, LogError>)
        ensures
            match result {
                Ok(logs) => decode_compressed_batch(data@) == Ok::<_, LogError>(views(logs@)),
                Err(e) => decode_compressed_batch(data@) == Err::<Seq<PlayerLogView>, _>(e),
            },
            result matches Ok(logs) ==> all_well_formed(views(logs@)),
    {
        match zlib_decompress(data) {
            Some(payload) => Self::deserialize_many(payload.as_slice()),
            None => Err(LogError::DecompressionFailed),
        }
    }
}

} // verus!
