use player_log::batch::PlayerLogSerializer;
use player_log::error::LogError;
use player_log::record::PlayerLog;

fn log(number: usize) -> PlayerLog {
    let online = number % 3 != 0;
    PlayerLog {
        binary_version: 1,
        flags: if online { 2 } else { 0 } | (number % 2) as u8,
        player_uuid: if online { Some([number as u8; 16]) } else { None },
        player_name: format!("player{number}").into_bytes(),
        player_ip: [10, 0, (number >> 8) as u8, number as u8],
        server_ip: [172, 16, 0, 1],
        server_port: 20000 + number as u16,
        server_domain: format!("srv{}.example.com", number % 7).into_bytes(),
        server_version: (number % 14) as u8 + 1,
    }
}

fn logs(count: usize) -> Vec<PlayerLog> {
    (0..count).map(log).collect()
}

fn one_by_one(logs: &[PlayerLog]) -> Vec<u8> {
    let mut bytes = (logs.len() as u64).to_be_bytes().to_vec();
    for log in logs {
        log.serialize(&mut bytes).unwrap();
    }
    bytes
}

#[test]
fn an_empty_batch_is_eight_zero_bytes() {
    let bytes = PlayerLogSerializer::serialize_many(&[]).unwrap();
    assert_eq!(bytes, vec![0u8; 8]);
    assert_eq!(PlayerLogSerializer::deserialize_many(&bytes), Ok(Vec::new()));
}

#[test]
fn the_count_is_written_high_byte_first() {
    let bytes = PlayerLogSerializer::serialize_many(&logs(3)).unwrap();
    assert_eq!(&bytes[..8], &[0, 0, 0, 0, 0, 0, 0, 3]);
    let bytes = PlayerLogSerializer::serialize_many(&logs(258)).unwrap();
    assert_eq!(&bytes[..8], &[0, 0, 0, 0, 0, 0, 1, 2]);
}

#[test]
fn a_batch_is_the_count_and_the_records_in_order() {
    for count in [1usize, 2, 9, 10, 11, 19, 20, 25, 99, 100, 101, 257] {
        let logs = logs(count);
        assert_eq!(
            PlayerLogSerializer::serialize_many(&logs).unwrap(),
            one_by_one(&logs),
            "batch of {count}"
        );
    }
}

#[test]
fn a_batch_comes_back_in_the_order_it_was_given() {
    for count in [1usize, 7, 10, 25, 64, 333] {
        let logs = logs(count);
        let bytes = PlayerLogSerializer::serialize_many(&logs).unwrap();
        assert_eq!(PlayerLogSerializer::deserialize_many(&bytes), Ok(logs));
    }
}

#[test]
fn the_chunk_size_is_a_tenth_and_at_least_one() {
    let expected = [
        (0usize, 1usize),
        (1, 1),
        (9, 1),
        (10, 1),
        (19, 1),
        (20, 2),
        (29, 2),
        (105, 10),
        (500_000, 50_000),
    ];
    for (count, size) in expected {
        assert_eq!(PlayerLogSerializer::chunk_size(count), size, "count {count}");
    }
}

#[test]
fn the_bytes_do_not_depend_on_the_cuts() {
    let logs = logs(23);
    let whole = PlayerLogSerializer::serialize_many(&logs).unwrap();
    for size in [1usize, 2, 3, 5, 22, 23, 100] {
        let buffers: Vec<Vec<u8>> = logs
            .chunks(size)
            .map(|chunk| PlayerLogSerializer::serialize_chunk(chunk).unwrap())
            .collect();
        let mut bytes = Vec::new();
        PlayerLogSerializer::write_chunks(logs.len(), &buffers, &mut bytes);
        assert_eq!(bytes, whole, "chunks of {size}");
    }
}

#[test]
fn a_chunk_has_no_count() {
    let logs = logs(4);
    let chunk = PlayerLogSerializer::serialize_chunk(&logs).unwrap();
    assert_eq!(chunk.as_slice(), &one_by_one(&logs)[8..]);
    assert_eq!(PlayerLogSerializer::serialize_chunk(&[]), Ok(Vec::new()));
}

#[test]
fn write_chunks_appends_to_what_the_writer_holds() {
    let mut bytes = vec![0x55u8];
    PlayerLogSerializer::write_chunks(2, &[vec![1, 2], Vec::new(), vec![3]], &mut bytes);
    assert_eq!(bytes, vec![0x55, 0, 0, 0, 0, 0, 0, 0, 2, 1, 2, 3]);
}

#[test]
fn one_record_without_identity_fails_the_whole_batch() {
    for bad in [0usize, 1, 13, 24] {
        let mut logs = logs(25);
        logs[bad].flags = 2;
        logs[bad].player_uuid = None;
        assert_eq!(PlayerLogSerializer::serialize_many(&logs), Err(LogError::MissingIdentity));
        assert_eq!(PlayerLogSerializer::serialize_chunk(&logs), Err(LogError::MissingIdentity));
    }
}

#[test]
fn fewer_than_eight_bytes_are_truncated_input() {
    for len in 0..8 {
        assert_eq!(
            PlayerLogSerializer::deserialize_many(&vec![0u8; len]),
            Err(LogError::TruncatedInput)
        );
    }
}

#[test]
fn a_count_that_promises_too_much_is_truncated_input() {
    let mut bytes = PlayerLogSerializer::serialize_many(&logs(2)).unwrap();
    bytes[7] = 3;
    assert_eq!(PlayerLogSerializer::deserialize_many(&bytes), Err(LogError::TruncatedInput));
    let huge = [0xffu8; 8];
    assert_eq!(PlayerLogSerializer::deserialize_many(&huge), Err(LogError::TruncatedInput));
}

#[test]
fn every_proper_prefix_of_a_batch_is_truncated_input() {
    let bytes = PlayerLogSerializer::serialize_many(&logs(3)).unwrap();
    for len in 0..bytes.len() {
        assert_eq!(
            PlayerLogSerializer::deserialize_many(&bytes[..len]),
            Err(LogError::TruncatedInput),
            "prefix of {len} bytes"
        );
    }
}

#[test]
fn bytes_behind_the_last_record_are_not_looked_at() {
    let logs = logs(5);
    let mut bytes = PlayerLogSerializer::serialize_many(&logs).unwrap();
    bytes.extend_from_slice(&[0xde, 0xad, 0xbe, 0xef]);
    assert_eq!(PlayerLogSerializer::deserialize_many(&bytes), Ok(logs));
    let mut none = vec![0u8; 8];
    none.push(0x02);
    assert_eq!(PlayerLogSerializer::deserialize_many(&none), Ok(Vec::new()));
}

#[test]
fn a_bad_record_fails_the_whole_batch() {
    let logs = logs(4);
    let mut bytes = PlayerLogSerializer::serialize_many(&logs).unwrap();
    let second = 8 + {
        let mut first = Vec::new();
        logs[0].serialize(&mut first).unwrap();
        first.len()
    };
    bytes[second] = 2;
    assert_eq!(PlayerLogSerializer::deserialize_many(&bytes), Err(LogError::UnsupportedVersion));
    bytes[second] = 1;
    bytes[second + 1] = 0x40;
    assert_eq!(PlayerLogSerializer::deserialize_many(&bytes), Err(LogError::InvalidFlags));
}

#[test]
fn one_record_with_a_long_field_fails_the_whole_batch() {
    for bad in [0usize, 7, 24] {
        let mut logs = logs(25);
        logs[bad].server_domain = vec![b'd'; 256];
        assert_eq!(PlayerLogSerializer::serialize_many(&logs), Err(LogError::FieldTooLong));
        assert_eq!(PlayerLogSerializer::serialize_chunk(&logs), Err(LogError::FieldTooLong));
        logs[bad].server_domain = vec![b'd'; 255];
        let bytes = PlayerLogSerializer::serialize_many(&logs).unwrap();
        assert_eq!(PlayerLogSerializer::deserialize_many(&bytes), Ok(logs));
    }
}

#[test]
fn a_batch_fails_as_its_first_bad_record_does() {
    let mut batch = logs(40);
    batch[5].player_name = vec![b'n'; 400];
    batch[30].flags = 2;
    batch[30].player_uuid = None;
    assert_eq!(PlayerLogSerializer::serialize_many(&batch), Err(LogError::FieldTooLong));
    assert_eq!(PlayerLogSerializer::serialize_chunk(&batch), Err(LogError::FieldTooLong));
    let mut batch = logs(40);
    batch[5].flags = 3;
    batch[5].player_uuid = None;
    batch[30].player_name = vec![b'n'; 400];
    assert_eq!(PlayerLogSerializer::serialize_many(&batch), Err(LogError::MissingIdentity));
    assert_eq!(PlayerLogSerializer::serialize_chunk(&batch), Err(LogError::MissingIdentity));
}
