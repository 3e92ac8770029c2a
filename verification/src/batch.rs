//! The batch codec: an eight-byte big-endian record count, then the
//! records' encodings one after another, in the order they were given.
//!
//! Encoding works chunk by chunk: the input is cut into contiguous chunks,
//! each chunk is encoded into a buffer of its own, and the buffers are
//! joined in chunk order behind the count. Every record's encoding
//! delimits itself and no chunk boundary falls inside a record, so the
//! bytes do not depend on where the cuts were made.

use crate::codec::{
    decode_record, encode_record, lemma_decode_encode, lemma_encode_decode, put_bytes,
};
use crate::endian::{
    lemma_u64_be_bytes_of_value, lemma_u64_be_round_trip, u64_be_bytes, u64_from_be_bytes,
    u64_to_be,
};
use crate::error::LogError;
use crate::reader::ByteReader;
use crate::record::{PlayerLog, PlayerLogView};
use vstd::prelude::*;
use vstd::slice::slice_subrange;

verus! {

/// The contents of `logs`, record by record.
pub open spec fn views(logs: Seq<PlayerLog>) -> Seq<PlayerLogView> {
    Seq::new(logs.len(), |i: int| logs[i]@)
}

/// Why the batch has no encoding: the failure of the first record that
/// has none. `None` when every record has an encoding.
pub open spec fn first_failure(records: Seq<PlayerLogView>) -> Option<LogError>
    decreases records.len(),
{
    if records.len() == 0 {
        None
    } else {
        match first_failure(records.drop_last()) {
            Some(failure) => Some(failure),
            None => records.last().encode_failure(),
        }
    }
}

/// Every record of `records` has an encoding.
pub open spec fn all_encodable(records: Seq<PlayerLogView>) -> bool {
    forall|i: int| 0 <= i < records.len() ==> (#[trigger] records[i]).encode_failure() is None
}

/// Every record of `records` is well formed.
pub open spec fn all_well_formed(records: Seq<PlayerLogView>) -> bool {
    forall|i: int| 0 <= i < records.len() ==> #[trigger] records[i].well_formed()
}

/// The encodings of `records`, one after another.
pub open spec fn encode_records(records: Seq<PlayerLogView>) -> Seq<u8>
    decreases records.len(),
{
    if records.len() == 0 {
        Seq::empty()
    } else {
        encode_records(records.drop_last()) + encode_record(records.last())
    }
}

/// The encoding of a batch: the count, then the records.
pub open spec fn encode_batch(records: Seq<PlayerLogView>) -> Seq<u8> {
    u64_be_bytes(records.len() as u64) + encode_records(records)
}

/// What decoding makes of `count` records at the front of `bytes`: the
/// records and the number of bytes they occupy, or the first failure.
pub open spec fn decode_records(bytes: Seq<u8>, count: nat) -> Result<
    (Seq<PlayerLogView>, nat),
    LogError,
>
    decreases count,
{
    if count == 0 {
        Ok((Seq::empty(), 0))
    } else {
        match decode_record(bytes) {
            Err(e) => Err(e),
            Ok((first, used)) => match decode_records(
                bytes.skip(used as int),
                (count - 1) as nat,
            ) {
                Err(e) => Err(e),
                Ok((rest, more)) => Ok((seq![first] + rest, used + more)),
            },
        }
    }
}

/// What decoding makes of a batch at the front of `bytes`: the records and
/// the number of bytes that count and records occupy, or the first failure.
/// Bytes behind the last record are not looked at.
pub open spec fn decode_batch(bytes: Seq<u8>) -> Result<(Seq<PlayerLogView>, nat), LogError> {
    if bytes.len() < 8 {
        Err(LogError::TruncatedInput)
    } else {
        match decode_records(bytes.skip(8), u64_from_be_bytes(bytes.take(8)) as nat) {
            Err(e) => Err(e),
            Ok((records, used)) => Ok((records, 8 + used)),
        }
    }
}

/// The number of records that one chunk holds when `count` records are
/// encoded: a tenth of them, rounded down, and never fewer than one.
pub open spec fn spec_chunk_size(count: nat) -> nat {
    if count / 10 >= 1 {
        count / 10
    } else {
        1
    }
}

/// The contents of `buffers`, one after another.
pub open spec fn joined(buffers: Seq<Vec<u8>>) -> Seq<u8>
    decreases buffers.len(),
{
    if buffers.len() == 0 {
        Seq::empty()
    } else {
        joined(buffers.drop_last()) + buffers.last()@
    }
}

/// A batch fails exactly when one of its records has no encoding, and it
/// fails as the first such record does.
pub proof fn lemma_first_failure(records: Seq<PlayerLogView>)
    ensures
        first_failure(records) is None <==> all_encodable(records),
        first_failure(records) matches Some(failure) ==> exists|i: int|
            0 <= i < records.len() && (#[trigger] records[i]).encode_failure() == Some(failure)
                && all_encodable(records.take(i)),
    decreases records.len(),
{
    if records.len() > 0 {
        let front = records.drop_last();
        let last = records.len() - 1;
        lemma_first_failure(front);
        if first_failure(front) is None {
            assert forall|i: int| 0 <= i < last implies (#[trigger] records[i]).encode_failure()
                is None by {
                assert(records[i] == front[i]);
            }
            if records[last].encode_failure() is Some {
                assert(records.take(last) =~= front);
            }
        } else {
            let i = choose|i: int|
                0 <= i < front.len() && (#[trigger] front[i]).encode_failure() == first_failure(
                    front,
                ) && all_encodable(front.take(i));
            assert(records[i] == front[i]);
            assert(records.take(i) =~= front.take(i));
        }
    }
}

/// Failure does not depend on where a sequence is cut: two sequences put
/// together fail as the front one does, or else as the back one does.
pub proof fn lemma_first_failure_concat(front: Seq<PlayerLogView>, back: Seq<PlayerLogView>)
    ensures
        first_failure(front + back) == match first_failure(front) {
            Some(failure) => Some(failure),
            None => first_failure(back),
        },
    decreases back.len(),
{
    if back.len() == 0 {
        assert(front + back =~= front);
    } else {
        assert((front + back).drop_last() =~= front + back.drop_last());
        lemma_first_failure_concat(front, back.drop_last());
    }
}

/// Well-formed records have encodings.
pub proof fn lemma_well_formed_is_encodable(records: Seq<PlayerLogView>)
    requires
        all_well_formed(records),
    ensures
        first_failure(records) is None,
{
    lemma_first_failure(records);
    assert forall|i: int| 0 <= i < records.len() implies (#[trigger] records[i]).encode_failure()
        is None by {
        assert(records[i].well_formed());
    }
}

/// Encoding does not depend on where a sequence is cut: the encoding of
/// two sequences put together is the two encodings put together.
pub proof fn lemma_encode_records_concat(front: Seq<PlayerLogView>, back: Seq<PlayerLogView>)
    ensures
        encode_records(front + back) == encode_records(front) + encode_records(back),
    decreases back.len(),
{
    if back.len() == 0 {
        assert(front + back =~= front);
    } else {
        assert((front + back).drop_last() =~= front + back.drop_last());
        lemma_encode_records_concat(front, back.drop_last());
    }
}

/// The records of `chunks`, chunk after chunk.
pub open spec fn chunks_together(chunks: Seq<Seq<PlayerLogView>>) -> Seq<PlayerLogView>
    decreases chunks.len(),
{
    if chunks.len() == 0 {
        Seq::empty()
    } else {
        chunks_together(chunks.drop_last()) + chunks.last()
    }
}

/// However a sequence of records is cut into chunks, and however many
/// chunks there are, the chunks' buffers joined in chunk order are the
/// encoding of the whole sequence.
pub proof fn lemma_joined_chunks(chunks: Seq<Seq<PlayerLogView>>, buffers: Seq<Vec<u8>>)
    requires
        buffers.len() == chunks.len(),
        forall|i: int| 0 <= i < chunks.len() ==> (#[trigger] buffers[i])@ == encode_records(chunks[i]),
    ensures
        joined(buffers) == encode_records(chunks_together(chunks)),
    decreases chunks.len(),
{
    if chunks.len() > 0 {
        lemma_joined_chunks(chunks.drop_last(), buffers.drop_last());
        lemma_encode_records_concat(chunks_together(chunks.drop_last()), chunks.last());
    }
}

/// Decoding a batch reads back what encoding wrote, in the same order,
/// whatever follows it: for every sequence of well-formed records, empty
/// or not, whose length fits the count field.
pub proof fn lemma_decode_batch_of_encode(records: Seq<PlayerLogView>, rest: Seq<u8>)
    requires
        all_well_formed(records),
        records.len() <= u64::MAX,
    ensures
        decode_batch(encode_batch(records) + rest) == Ok::<_, LogError>(
            (records, encode_batch(records).len()),
        ),
{
    let bytes = encode_batch(records) + rest;
    lemma_u64_be_round_trip(records.len() as u64);
    assert(bytes.take(8) =~= u64_be_bytes(records.len() as u64));
    assert(bytes.skip(8) =~= encode_records(records) + rest);
    lemma_decode_records_of_encode(records, rest);
}

/// The encoding of a sequence starts with the encoding of its first record.
proof fn lemma_encode_records_front(records: Seq<PlayerLogView>)
    requires
        records.len() > 0,
    ensures
        encode_records(records) == encode_record(records[0]) + encode_records(
            records.drop_first(),
        ),
{
    let first = seq![records[0]];
    assert(records =~= first + records.drop_first());
    lemma_encode_records_concat(first, records.drop_first());
    assert(first.drop_last() =~= Seq::<PlayerLogView>::empty());
    assert(encode_records(first.drop_last()) =~= Seq::<u8>::empty());
    assert(encode_records(first) =~= encode_record(records[0]));
}

/// Behind `front`, the bytes `front + middle + back` go on with `middle + back`.
proof fn lemma_skip_front(front: Seq<u8>, middle: Seq<u8>, back: Seq<u8>)
    ensures
        front + middle + back == front + (middle + back),
        (front + (middle + back)).skip(front.len() as int) == middle + back,
{
    assert(front + middle + back =~= front + (middle + back));
    assert((front + (middle + back)).skip(front.len() as int) =~= middle + back);
}

/// The induction behind [`lemma_decode_batch_of_encode`].
proof fn lemma_decode_records_of_encode(records: Seq<PlayerLogView>, rest: Seq<u8>)
    requires
        all_well_formed(records),
    ensures
        decode_records(encode_records(records) + rest, records.len()) == Ok::<_, LogError>(
            (records, encode_records(records).len()),
        ),
    decreases records.len(),
{
    if records.len() == 0 {
        assert(records =~= Seq::empty());
    } else {
        let head = encode_record(records[0]);
        let tail = records.drop_first();
        lemma_encode_records_front(records);
        lemma_skip_front(head, encode_records(tail), rest);
        lemma_decode_encode(records[0], encode_records(tail) + rest);
        lemma_decode_records_of_encode(tail, rest);
        assert(seq![records[0]] + tail =~= records);
    }
}

/// Encoding a batch writes back what decoding read: whenever a batch at
/// the front of `bytes` decodes, its records are well formed, they are as
/// many as the count says, and the batch's encoding is exactly the bytes
/// that were taken.
pub proof fn lemma_encode_batch_of_decode(bytes: Seq<u8>)
    requires
        decode_batch(bytes) is Ok,
    ensures
        ({
            let (records, used) = decode_batch(bytes)->Ok_0;
            &&& all_well_formed(records)
            &&& records.len() == u64_from_be_bytes(bytes.take(8))
            &&& used <= bytes.len()
            &&& encode_batch(records) == bytes.take(used as int)
        }),
{
    let (records, used) = decode_batch(bytes)->Ok_0;
    let count = u64_from_be_bytes(bytes.take(8));
    lemma_encode_records_of_decode(bytes.skip(8), count as nat);
    lemma_u64_be_bytes_of_value(bytes.take(8));
    assert(bytes.take(8) + bytes.skip(8).take(used - 8) =~= bytes.take(used as int));
}

/// The induction behind [`lemma_encode_batch_of_decode`].
proof fn lemma_encode_records_of_decode(bytes: Seq<u8>, count: nat)
    requires
        decode_records(bytes, count) is Ok,
    ensures
        ({
            let (records, used) = decode_records(bytes, count)->Ok_0;
            &&& all_well_formed(records)
            &&& records.len() == count
            &&& used <= bytes.len()
            &&& encode_records(records) == bytes.take(used as int)
        }),
    decreases count,
{
    let (records, used) = decode_records(bytes, count)->Ok_0;
    if count == 0 {
        assert(bytes.take(0) =~= Seq::<u8>::empty());
    } else {
        let (first, step) = decode_record(bytes)->Ok_0;
        let behind = bytes.skip(step as int);
        let (rest, more) = decode_records(behind, (count - 1) as nat)->Ok_0;
        lemma_encode_decode(bytes);
        lemma_encode_records_of_decode(behind, (count - 1) as nat);
        assert(records.drop_first() =~= rest);
        lemma_encode_records_front(records);
        assert(bytes.take(step as int) + behind.take(more as int) =~= bytes.take(used as int));
        assert forall|i: int| 0 <= i < records.len() implies #[trigger] records[i].well_formed() by {
            if i > 0 {
                assert(records[i] == rest[i - 1]);
            }
        }
    }
}

/// Puts the records `front`, which took `used` bytes, in front of what the
/// bytes behind them decoded to.
spec fn prepend(
    front: Seq<PlayerLogView>,
    used: nat,
    back: Result<(Seq<PlayerLogView>, nat), LogError>,
) -> Result<(Seq<PlayerLogView>, nat), LogError> {
    match back {
        Err(e) => Err(e),
        Ok((rest, more)) => Ok((front + rest, used + more)),
    }
}

/// One turn of sequential decoding: with `front` already decoded from the
/// first `used` bytes, decoding `count` more records is decoding one record
/// and then `count - 1` more behind it.
proof fn lemma_decode_records_step(
    bytes: Seq<u8>,
    front: Seq<PlayerLogView>,
    used: nat,
    count: nat,
)
    requires
        count > 0,
        used <= bytes.len(),
    ensures
        prepend(front, used, decode_records(bytes.skip(used as int), count)) == match decode_record(
            bytes.skip(used as int),
        ) {
            Err(e) => Err(e),
            Ok((next, step)) => prepend(
                front.push(next),
                used + step,
                decode_records(bytes.skip((used + step) as int), (count - 1) as nat),
            ),
        },
{
    match decode_record(bytes.skip(used as int)) {
        Err(e) => {},
        Ok((next, step)) => {
            assert(bytes.skip(used as int).skip(step as int) =~= bytes.skip((used + step) as int));
            match decode_records(bytes.skip((used + step) as int), (count - 1) as nat) {
                Err(e) => {},
                Ok((rest, more)) => {
                    assert(front + (seq![next] + rest) =~= front.push(next) + rest);
                },
            }
        },
    }
}

/// The batch codec.
pub struct PlayerLogSerializer;

impl PlayerLogSerializer {
    /// The number of records per chunk for a batch of `count` records.
    pub fn chunk_size(count: usize) -> (size: usize)
        ensures
            size == spec_chunk_size(count as nat),
    {
        let tenth = count / 10;
        if tenth >= 1 {
            tenth
        } else {
            1
        }
    }

    /// Encodes one chunk into a buffer of its own.
    ///
    /// Fails as the first record of the chunk that has no encoding does.
    pub fn serialize_chunk(logs: &[PlayerLog]) -> (result: Result<Vec<u8>, LogError>)
        ensures
            match first_failure(views(logs@)) {
                Some(failure) => result == Err::<Vec<u8>, _>(failure),
                None => result matches Ok(buffer) && buffer@ == encode_records(views(logs@)),
            },
    {
        let mut buffer: Vec<u8> = Vec::new();
        let mut i: usize = 0;
        while i < logs.len()
            invariant
                i <= logs@.len(),
                buffer@ == encode_records(views(logs@.take(i as int))),
                first_failure(views(logs@.take(i as int))) is None,
            decreases logs@.len() - i,
        {
            let ghost before = views(logs@.take(i as int));
            let ghost after = views(logs@.take(i + 1));
            proof {
                assert(after.drop_last() =~= before);
                assert(after.last() == logs@[i as int]@);
            }
            match logs[i].serialize(&mut buffer) {
                Ok(()) => {},
                Err(e) => {
                    proof {
                        let behind = views(logs@.skip(i + 1));
                        assert(views(logs@) =~= after + behind);
                        lemma_first_failure_concat(after, behind);
                    }
                    return Err(e);
                },
            }
            i += 1;
        }
        assert(logs@.take(i as int) =~= logs@);
        Ok(buffer)
    }

    /// Appends a batch to `writer`: the count, then the chunk buffers in
    /// the order given.
    pub fn write_chunks(count: usize, buffers: &[Vec<u8>], writer: &mut Vec<u8>)
        ensures
            final(writer)@ == old(writer)@ + u64_be_bytes(count as u64) + joined(buffers@),
    {
        let prefix = u64_to_be(count as u64);
        put_bytes(writer, prefix.as_slice());
        let mut i: usize = 0;
        while i < buffers.len()
            invariant
                i <= buffers@.len(),
                writer@ == old(writer)@ + u64_be_bytes(count as u64) + joined(
                    buffers@.take(i as int),
                ),
            decreases buffers@.len() - i,
        {
            put_bytes(writer, buffers[i].as_slice());
            proof {
                assert(buffers@.take(i + 1).drop_last() =~= buffers@.take(i as int));
                assert(writer@ =~= old(writer)@ + u64_be_bytes(count as u64) + joined(
                    buffers@.take(i + 1),
                ));
            }
            i += 1;
        }
        assert(buffers@.take(i as int) =~= buffers@);
    }

    /// Appends the encoding of the batch `logs` to `writer`, working chunk
    /// by chunk. On failure nothing is written.
    fn serialization_helper(logs: &[PlayerLog], writer: &mut Vec<u8>) -> (result: Result<
        (),
        LogError,
    >)
        ensures
            match first_failure(views(logs@)) {
                Some(failure) => result == Err::<(), _>(failure) && final(writer)@ == old(writer)@,
                None => result is Ok && final(writer)@ == old(writer)@ + encode_batch(
                    views(logs@),
                ),
            },
    {
        let size = Self::chunk_size(logs.len());
        let mut buffers: Vec<Vec<u8>> = Vec::new();
        let mut start: usize = 0;
        while start < logs.len()
            invariant
                start <= logs@.len(),
                size >= 1,
                *writer == *old(writer),
                joined(buffers@) == encode_records(views(logs@.take(start as int))),
                first_failure(views(logs@.take(start as int))) is None,
            decreases logs@.len() - start,
        {
            let end = if logs.len() - start < size {
                logs.len()
            } else {
                start + size
            };
            let chunk = slice_subrange(logs, start, end);
            let ghost done = views(logs@.take(start as int));
            let ghost more = views(chunk@);
            proof {
                assert(views(logs@.take(end as int)) =~= done + more);
                lemma_encode_records_concat(done, more);
                lemma_first_failure_concat(done, more);
            }
            let ghost filled = buffers@;
            match Self::serialize_chunk(chunk) {
                Ok(buffer) => {
                    buffers.push(buffer);
                    assert(buffers@.drop_last() =~= filled);
                },
                Err(e) => {
                    proof {
                        let behind = views(logs@.skip(end as int));
                        assert(views(logs@) =~= (done + more) + behind);
                        lemma_first_failure_concat(done + more, behind);
                    }
                    return Err(e);
                },
            }
            start = end;
        }
        assert(logs@.take(start as int) =~= logs@);
        Self::write_chunks(logs.len(), buffers.as_slice(), writer);
        assert(writer@ =~= old(writer)@ + encode_batch(views(logs@)));
        Ok(())
    }

    /// Encodes the batch `logs`.
    ///
    /// Fails, with no output, exactly when a record has no encoding, and
    /// then as the first such record does: with `MissingIdentity` or with
    /// `FieldTooLong`.
    pub fn serialize_many(logs: &[PlayerLog]) -> (result: Result<Vec<u8>, LogError>)
        ensures
            match first_failure(views(logs@)) {
                Some(failure) => result == Err::<Vec<u8>, _>(failure),
                None => result matches Ok(bytes) && bytes@ == encode_batch(views(logs@)),
            },
    {
        let mut writer: Vec<u8> = Vec::new();
        match Self::serialization_helper(logs, &mut writer) {
            Ok(()) => {
                assert(writer@ =~= encode_batch(views(logs@)));
                Ok(writer)
            },
            Err(e) => Err(e),
        }
    }

    /// Reads a batch from `reader`: the count, then that many records, one
    /// after another. On failure the reader stays where it was.
    fn deserialize_helper(reader: &mut ByteReader) -> (result: Result<Vec<PlayerLog>, LogError>)
        ensures
            match result {
                Ok(logs) => decode_batch(old(reader)@) matches Ok((records, used)) && views(logs@)
                    == records && final(reader)@ == old(reader)@.skip(used as int),
                Err(e) => decode_batch(old(reader)@) == Err::<(Seq<PlayerLogView>, nat), _>(e)
                    && *final(reader) == *old(reader),
            },
    {
        let ghost input = reader@;
        let mut cursor = *reader;
        let count = match cursor.read_u64_be() {
            Some(count) => count,
            None => return Err(LogError::TruncatedInput),
        };
        let ghost body = input.skip(8);
        let ghost used: nat = 0;
        let mut logs: Vec<PlayerLog> = Vec::new();
        let mut i: u64 = 0;
        assert(cursor@ =~= body.skip(0));
        assert(views(logs@) =~= Seq::empty());
        while i < count
            invariant
                i <= count,
                input.len() >= 8,
                input == old(reader)@,
                *reader == *old(reader),
                body == input.skip(8),
                count == u64_from_be_bytes(input.take(8)),
                used <= body.len(),
                cursor@ == body.skip(used as int),
                decode_records(body, count as nat) == prepend(
                    views(logs@),
                    used,
                    decode_records(body.skip(used as int), (count - i) as nat),
                ),
            decreases count - i,
        {
            proof {
                lemma_decode_records_step(body, views(logs@), used, (count - i) as nat);
            }
            match PlayerLog::deserialize(&mut cursor) {
                Ok(log) => {
                    proof {
                        let step = decode_record(body.skip(used as int))->Ok_0.1;
                        assert(views(logs@.push(log)) =~= views(logs@).push(log@));
                        assert(body.skip(used as int).skip(step as int) =~= body.skip(
                            (used + step) as int,
                        ));
                        used = used + step;
                    }
                    logs.push(log);
                },
                Err(e) => {
                    return Err(e);
                },
            }
            i += 1;
        }
        proof {
            assert(views(logs@) + Seq::<PlayerLogView>::empty() =~= views(logs@));
            assert(body.skip(used as int) =~= input.skip(8 + used as int));
        }
        *reader = cursor;
        Ok(logs)
    }

    /// Decodes the batch at the front of `data`. Bytes behind the last
    /// record are not looked at. The records that are returned are well
    /// formed.
    pub fn deserialize_many(data: &[u8]) -> (result: Result<Vec<PlayerLog>, LogError>)
        ensures
            match result {
                Ok(logs) => decode_batch(data@) matches Ok((records, _)) && views(logs@) == records,
                Err(e) => decode_batch(data@) == Err::<(Seq<PlayerLogView>, nat), _>(e),
            },
            result matches Ok(logs) ==> all_well_formed(views(logs@)),
    {
        proof {
            if decode_batch(data@) is Ok {
                lemma_encode_batch_of_decode(data@);
            }
        }
        let mut reader = ByteReader::new(data);
        Self::deserialize_helper(&mut reader)
    }
}

} // verus!
