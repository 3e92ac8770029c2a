use player_log::error::{ErrorKind, LogError};
use player_log::flags::{LogFlags, DEFINED_BITS, IS_ONLINE_BIT, PLAYER_AUTH_BIT};
use player_log::text::str_eq;
use player_log::versions::{code_for, label_for};

const LABELS: [&str; 14] = [
    "1.8", "1.9", "1.10", "1.11", "1.12", "1.13", "1.14", "1.15", "1.16", "1.17", "1.18", "1.19",
    "1.20", "1.21",
];

#[test]
fn strict_flags_accept_the_four_defined_bytes() {
    for bits in 0u8..=3 {
        let flags = LogFlags::from_bits(bits).unwrap();
        assert_eq!(flags.bits(), bits);
    }
}

#[test]
fn strict_flags_reject_every_reserved_bit() {
    for bits in 4u8..=255 {
        assert_eq!(LogFlags::from_bits(bits), None, "bits {bits:#x}");
    }
    for shift in 2..8 {
        assert_eq!(LogFlags::from_bits(1 << shift), None);
        assert_eq!(LogFlags::from_bits((1 << shift) | 3), None);
    }
}

#[test]
fn permissive_flags_keep_every_bit() {
    for bits in 0u8..=255 {
        assert_eq!(LogFlags::from_bits_retain(bits).bits(), bits);
    }
}

#[test]
fn named_flags_have_their_bits() {
    assert_eq!(LogFlags::empty().bits(), 0);
    assert_eq!(LogFlags::player_auth().bits(), 1);
    assert_eq!(LogFlags::is_online().bits(), 2);
    assert_eq!(PLAYER_AUTH_BIT, 1);
    assert_eq!(IS_ONLINE_BIT, 2);
    assert_eq!(DEFINED_BITS, 3);
}

#[test]
fn contains_asks_for_every_bit_of_its_argument() {
    let online = LogFlags::is_online();
    let auth = LogFlags::player_auth();
    let both = LogFlags::from_bits(3).unwrap();
    assert!(online.contains(online));
    assert!(!online.contains(auth));
    assert!(!online.contains(both));
    assert!(both.contains(online));
    assert!(both.contains(auth));
    assert!(both.contains(both));
    assert!(online.contains(LogFlags::empty()));
    assert!(LogFlags::from_bits_retain(0xfe).contains(online));
    assert!(!LogFlags::from_bits_retain(0xfd).contains(online));
}

#[test]
fn insert_sets_bits_and_keeps_the_others() {
    let mut flags = LogFlags::empty();
    flags.insert(LogFlags::is_online());
    assert_eq!(flags.bits(), 2);
    flags.insert(LogFlags::is_online());
    assert_eq!(flags.bits(), 2);
    flags.insert(LogFlags::player_auth());
    assert_eq!(flags.bits(), 3);
    let mut wide = LogFlags::from_bits_retain(0x80);
    wide.insert(LogFlags::player_auth());
    assert_eq!(wide.bits(), 0x81);
}

#[test]
fn every_label_has_its_code() {
    for (index, label) in LABELS.iter().enumerate() {
        assert_eq!(code_for(label), Some(index as u8 + 1), "label {label}");
    }
    assert_eq!(code_for("1.20"), Some(0x0D));
}

#[test]
fn every_code_has_its_label() {
    for (index, label) in LABELS.iter().enumerate() {
        assert_eq!(label_for(index as u8 + 1), Some(*label));
    }
}

#[test]
fn lookups_are_inverse_to_each_other() {
    for code in 0u8..=255 {
        match label_for(code) {
            Some(label) => assert_eq!(code_for(label), Some(code)),
            None => assert!(code == 0 || code > 14),
        }
    }
}

#[test]
fn unknown_labels_and_codes_are_not_found() {
    for label in ["1.99", "", "1", "1.", "1.7", "1.22", "1.8 ", " 1.8", "1.80", "2.8", "1.08", "1.2"] {
        assert_eq!(code_for(label), None, "label {label:?}");
    }
    assert_eq!(label_for(0), None);
    assert_eq!(label_for(15), None);
    assert_eq!(label_for(255), None);
}

#[test]
fn every_error_has_its_kind() {
    let validation = [
        LogError::NameTooLong,
        LogError::UnknownVersion,
        LogError::UnknownVersionCode,
        LogError::InvalidName,
        LogError::InvalidHostname,
    ];
    let format = [
        LogError::InvalidFlags,
        LogError::UnsupportedVersion,
        LogError::MissingIdentity,
        LogError::TruncatedInput,
        LogError::FieldTooLong,
    ];
    let compression = [LogError::DecompressionFailed];
    for e in validation {
        assert_eq!(e.kind(), ErrorKind::Validation);
    }
    for e in format {
        assert_eq!(e.kind(), ErrorKind::Format);
    }
    for e in compression {
        assert_eq!(e.kind(), ErrorKind::Compression);
    }
}

#[test]
fn texts_are_equal_when_their_characters_are() {
    assert!(str_eq("", ""));
    assert!(str_eq("1.20", "1.20"));
    assert!(str_eq("héllo", "héllo"));
    assert!(!str_eq("1.20", "1.21"));
    assert!(!str_eq("1.2", "1.20"));
    assert!(!str_eq("1.20", "1.2"));
    assert!(!str_eq("a", ""));
    assert!(!str_eq("é", "e"));
}
