use flate2::read::ZlibDecoder;
use flate2::write::ZlibEncoder;
use player_log::batch::PlayerLogSerializer;
use player_log::compression::{Compression, MAX_LEVEL};
use player_log::error::LogError;
use player_log::record::PlayerLog;
use std::io::{Read, Write};

fn log(number: usize) -> PlayerLog {
    PlayerLog {
        binary_version: 1,
        flags: 2,
        player_uuid: Some([number as u8; 16]),
        player_name: format!("name{number}").into_bytes(),
        player_ip: [1, 1, 1, number as u8],
        server_ip: [2, 2, 2, 2],
        server_port: number as u16,
        server_domain: b"lobby.example.com".to_vec(),
        server_version: 13,
    }
}

fn logs(count: usize) -> Vec<PlayerLog> {
    (0..count).map(log).collect()
}

fn inflate(stream: &[u8]) -> Vec<u8> {
    let mut out = Vec::new();
    ZlibDecoder::new(stream).read_to_end(&mut out).unwrap();
    out
}

#[test]
fn levels_run_from_zero_to_nine() {
    assert_eq!(MAX_LEVEL, 9);
    for level in 0..=9 {
        assert_eq!(Compression::new(level).unwrap().level(), level);
    }
    for level in [10u32, 11, 100, u32::MAX] {
        assert_eq!(Compression::new(level), None);
    }
    assert_eq!(Compression::none().level(), 0);
    assert_eq!(Compression::fast().level(), 1);
    assert_eq!(Compression::default().level(), 6);
    assert_eq!(Compression::best().level(), 9);
}

#[test]
fn a_compressed_batch_comes_back_at_every_level() {
    let logs = logs(40);
    for level in 0..=9 {
        let level = Compression::new(level).unwrap();
        let stream = PlayerLogSerializer::serialize_many_compressed(&logs, level).unwrap();
        assert_eq!(PlayerLogSerializer::deserialize_many_compressed(&stream), Ok(logs.clone()));
    }
}

#[test]
fn the_stream_is_zlib_around_the_batch_bytes() {
    let logs = logs(40);
    let plain = PlayerLogSerializer::serialize_many(&logs).unwrap();
    for level in [Compression::none(), Compression::fast(), Compression::default(), Compression::best()] {
        let stream = PlayerLogSerializer::serialize_many_compressed(&logs, level).unwrap();
        assert_ne!(stream, plain);
        assert_eq!(stream[0] & 0x0f, 8);
        assert_eq!((u16::from(stream[0]) * 256 + u16::from(stream[1])) % 31, 0);
        assert_eq!(inflate(&stream), plain);
    }
}

#[test]
fn the_stream_is_what_the_encoder_writes() {
    let logs = logs(12);
    let plain = PlayerLogSerializer::serialize_many(&logs).unwrap();
    for level in 0..=9 {
        let mut encoder = ZlibEncoder::new(Vec::new(), flate2::Compression::new(level));
        encoder.write_all(&plain).unwrap();
        let expected = encoder.finish().unwrap();
        let level = Compression::new(level).unwrap();
        assert_eq!(PlayerLogSerializer::serialize_many_compressed(&logs, level), Ok(expected));
    }
}

#[test]
fn compression_makes_repetitive_batches_smaller() {
    let logs = logs(200);
    let plain = PlayerLogSerializer::serialize_many(&logs).unwrap();
    let stored = PlayerLogSerializer::serialize_many_compressed(&logs, Compression::none()).unwrap();
    let best = PlayerLogSerializer::serialize_many_compressed(&logs, Compression::best()).unwrap();
    assert!(stored.len() > plain.len());
    assert!(best.len() < plain.len() / 2);
}

#[test]
fn an_empty_batch_comes_back_compressed() {
    let stream =
        PlayerLogSerializer::serialize_many_compressed(&[], Compression::default()).unwrap();
    assert_eq!(inflate(&stream), vec![0u8; 8]);
    assert_eq!(PlayerLogSerializer::deserialize_many_compressed(&stream), Ok(Vec::new()));
}

#[test]
fn a_missing_identity_fails_before_compression() {
    let mut logs = logs(5);
    logs[3].player_uuid = None;
    assert_eq!(
        PlayerLogSerializer::serialize_many_compressed(&logs, Compression::fast()),
        Err(LogError::MissingIdentity)
    );
}

#[test]
fn bytes_that_are_no_zlib_stream_fail_decompression() {
    let plain = PlayerLogSerializer::serialize_many(&logs(3)).unwrap();
    assert_eq!(
        PlayerLogSerializer::deserialize_many_compressed(&plain),
        Err(LogError::DecompressionFailed)
    );
    for garbage in [&[][..], &[0x78][..], &[1, 2, 3, 4, 5, 6, 7, 8, 9][..], &[0xff; 64][..]] {
        assert_eq!(
            PlayerLogSerializer::deserialize_many_compressed(garbage),
            Err(LogError::DecompressionFailed)
        );
    }
}

#[test]
fn a_gzip_stream_fails_decompression() {
    let plain = PlayerLogSerializer::serialize_many(&logs(3)).unwrap();
    let mut encoder = flate2::write::GzEncoder::new(Vec::new(), flate2::Compression::default());
    encoder.write_all(&plain).unwrap();
    let stream = encoder.finish().unwrap();
    assert_eq!(
        PlayerLogSerializer::deserialize_many_compressed(&stream),
        Err(LogError::DecompressionFailed)
    );
}

#[test]
fn a_cut_stream_fails_decompression() {
    let stream =
        PlayerLogSerializer::serialize_many_compressed(&logs(30), Compression::default()).unwrap();
    assert_eq!(
        PlayerLogSerializer::deserialize_many_compressed(&stream[..stream.len() / 2]),
        Err(LogError::DecompressionFailed)
    );
    assert_eq!(
        PlayerLogSerializer::deserialize_many_compressed(&stream[..stream.len() - 1]),
        Err(LogError::DecompressionFailed)
    );
}

#[test]
fn a_damaged_stream_fails_decompression() {
    let mut stream =
        PlayerLogSerializer::serialize_many_compressed(&logs(30), Compression::none()).unwrap();
    let last = stream.len() - 1;
    stream[last] ^= 0xff;
    assert_eq!(
        PlayerLogSerializer::deserialize_many_compressed(&stream),
        Err(LogError::DecompressionFailed)
    );
}

#[test]
fn a_valid_stream_around_a_bad_batch_fails_as_the_batch_does() {
    let mut encoder = ZlibEncoder::new(Vec::new(), flate2::Compression::default());
    encoder.write_all(&[0, 0, 0, 0, 0, 0, 0, 1, 7]).unwrap();
    let stream = encoder.finish().unwrap();
    assert_eq!(
        PlayerLogSerializer::deserialize_many_compressed(&stream),
        Err(LogError::UnsupportedVersion)
    );
    let mut encoder = ZlibEncoder::new(Vec::new(), flate2::Compression::default());
    encoder.write_all(&[0, 0, 0]).unwrap();
    let stream = encoder.finish().unwrap();
    assert_eq!(
        PlayerLogSerializer::deserialize_many_compressed(&stream),
        Err(LogError::TruncatedInput)
    );
}

#[test]
fn the_compressed_encoder_fails_where_the_plain_one_does() {
    let good = logs(9);
    let mut no_identity = logs(9);
    no_identity[4].player_uuid = None;
    let mut long_name = logs(9);
    long_name[8].player_name = vec![b'x'; 256];
    for level in 0..=9 {
        let level = Compression::new(level).unwrap();
        for batch in [&good, &no_identity, &long_name] {
            let plain = PlayerLogSerializer::serialize_many(batch);
            let packed = PlayerLogSerializer::serialize_many_compressed(batch, level);
            match plain {
                Ok(bytes) => assert_eq!(inflate(&packed.unwrap()), bytes),
                Err(e) => assert_eq!(packed, Err(e)),
            }
        }
    }
    assert_eq!(
        PlayerLogSerializer::serialize_many_compressed(&long_name, Compression::best()),
        Err(LogError::FieldTooLong)
    );
}
