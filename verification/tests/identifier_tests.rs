use ulidtools::IdError;
use ulidtools::ParsedInput;
use ulidtools::Ulid;
use ulidtools::Uuid7;
use ulidtools::generate_uuid;
use ulidtools::parse_input;
use ulidtools::ulid_to_timestamp;
use ulidtools::ulid_to_uuid;
use ulidtools::uuid_to_ulid;

const V7_BITS: u128 = 0x0185_3D39_0000_7ABC_8DEF_0123_4567_89AB;
const V4_BITS: u128 = 0x936D_A01F_9ABD_4D9D_80C7_02AF_85C8_22A8;

#[test]
fn round_trip_identity() {
    let uuid = Uuid7::from_bits(V7_BITS);
    assert_eq!(uuid.version(), 7);
    let ulid = uuid_to_ulid(uuid).unwrap();
    let back = ulid_to_uuid(ulid);
    assert_eq!(back, uuid);
    assert_eq!(back.to_bits(), V7_BITS);
}

#[test]
fn version_rejection_carries_found_version() {
    let uuid = Uuid7::from_bits(V4_BITS);
    assert_eq!(uuid.version(), 4);
    let err = uuid_to_ulid(uuid).unwrap_err();
    assert_eq!(err, IdError::VersionMismatch { found: 4 });
    assert_eq!(err.message(), "Expected UUIDv7, got UUIDv4");
}

#[test]
fn version_rejection_every_other_version() {
    for version in 0u8..16 {
        let bits = (V7_BITS & !(0xFu128 << 76)) | ((version as u128) << 76);
        let uuid = Uuid7::from_bits(bits);
        let converted = uuid_to_ulid(uuid);
        if version == 7 {
            assert_eq!(converted.unwrap().to_bits(), bits);
        } else {
            let err = converted.unwrap_err();
            assert_eq!(err, IdError::VersionMismatch { found: version });
            assert_eq!(err.message(), format!("Expected UUIDv7, got UUIDv{}", version));
        }
    }
}

#[test]
fn timestamp_extraction_reference_value() {
    let ulid = Ulid::parse("01ARZ3NDEKTSV4RRFFQ69G5FAV").unwrap();
    assert_eq!(ulid.timestamp_ms(), 1469922850259);
    assert_eq!(ulid_to_timestamp(ulid), "Jul 30, 2016 23:54:10");
}

#[test]
fn timestamp_formatting_known_millisecond() {
    let ulid = Ulid::from_bits(1_700_000_000_000u128 << 80);
    assert_eq!(ulid.timestamp_ms(), 1_700_000_000_000);
    assert_eq!(ulid_to_timestamp(ulid), "Nov 14, 2023 22:13:20");
}

#[test]
fn monotonic_generation() {
    let first = generate_uuid();
    let start = std::time::Instant::now();
    while start.elapsed().as_millis() < 2 {}
    let second = generate_uuid();
    let first_ms = uuid_to_ulid(first).unwrap().timestamp_ms();
    let second_ms = uuid_to_ulid(second).unwrap().timestamp_ms();
    assert!(first_ms <= second_ms);
}

#[test]
fn generated_identifier_is_version_7() {
    let uuid = generate_uuid();
    assert_eq!(uuid.version(), 7);
    let ulid = uuid_to_ulid(uuid).unwrap();
    assert_eq!(ulid.encode().len(), 26);
    assert_eq!(uuid.encode().len(), 36);
}

#[test]
fn parse_fallback_prefers_uuid_grammar() {
    let text = "936da01f-9abd-4d9d-80c7-02af85c822a8";
    match parse_input(text).unwrap() {
        ParsedInput::AsUuid(u) => {
            assert_eq!(u.to_bits(), V4_BITS);
            assert_eq!(
                uuid_to_ulid(u).unwrap_err(),
                IdError::VersionMismatch { found: 4 }
            );
        }
        ParsedInput::AsUlid(_) => panic!("36-character hyphenated input must parse as a UUID"),
    }
}

#[test]
fn parse_input_accepts_ulid_text() {
    match parse_input("01ARZ3NDEKTSV4RRFFQ69G5FAV").unwrap() {
        ParsedInput::AsUlid(l) => assert_eq!(l.timestamp_ms(), 1469922850259),
        ParsedInput::AsUuid(_) => panic!("26-character input must parse as a ULID"),
    }
}

#[test]
fn invalid_input_yields_invalid_format() {
    let err = parse_input("not-a-valid-id").unwrap_err();
    assert_eq!(err, IdError::InvalidFormat);
    assert_eq!(err.message(), "Invalid input format");
}

#[test]
fn unrepresentable_timestamp_message() {
    assert_eq!(
        IdError::UnrepresentableTimestamp.message(),
        "Timestamp out of range"
    );
}

#[test]
fn ulid_encoding_matches_reference_crate() {
    let samples: [u128; 4] = [
        0,
        V7_BITS,
        V4_BITS,
        u128::MAX,
    ];
    for &bits in samples.iter() {
        let ours = Ulid::from_bits(bits).encode();
        let reference = ulid::Ulid(bits).to_string();
        assert_eq!(ours, reference);
        assert_eq!(Ulid::parse(&ours).unwrap().to_bits(), bits);
    }
}

#[test]
fn uuid_encoding_matches_reference_crate() {
    let samples: [u128; 4] = [
        0,
        V7_BITS,
        V4_BITS,
        u128::MAX,
    ];
    for &bits in samples.iter() {
        let ours = Uuid7::from_bits(bits).encode();
        let reference = uuid::Uuid::from_u128(bits).to_string();
        assert_eq!(ours, reference);
        assert_eq!(Uuid7::parse(&ours).unwrap().to_bits(), bits);
    }
}

#[test]
fn ulid_parse_is_case_insensitive() {
    let upper = Ulid::parse("01ARZ3NDEKTSV4RRFFQ69G5FAV").unwrap();
    let lower = Ulid::parse("01arz3ndektsv4rrffq69g5fav").unwrap();
    assert_eq!(upper, lower);
}

#[test]
fn uuid_parse_is_case_insensitive() {
    let lower = Uuid7::parse("936da01f-9abd-4d9d-80c7-02af85c822a8").unwrap();
    let upper = Uuid7::parse("936DA01F-9ABD-4D9D-80C7-02AF85C822A8").unwrap();
    assert_eq!(lower, upper);
}

#[test]
fn ulid_decode_discards_excess_top_bits() {
    let ours = Ulid::parse("ZZZZZZZZZZZZZZZZZZZZZZZZZZ").unwrap();
    let reference = ulid::Ulid::from_string("ZZZZZZZZZZZZZZZZZZZZZZZZZZ").unwrap();
    assert_eq!(ours.to_bits(), reference.0);
    assert_eq!(ours.to_bits(), u128::MAX);
}

#[test]
fn ulid_parse_rejects_bad_input() {
    assert!(Ulid::parse("").is_none());
    assert!(Ulid::parse("01ARZ3NDEKTSV4RRFFQ69G5FA").is_none());
    assert!(Ulid::parse("01ARZ3NDEKTSV4RRFFQ69G5FAVX").is_none());
    assert!(Ulid::parse("01ARZ3NDEKTSV4RRFFQ69G5FAI").is_none());
    assert!(Ulid::parse("01ARZ3NDEKTSV4RRFFQ69G5FAL").is_none());
    assert!(Ulid::parse("01ARZ3NDEKTSV4RRFFQ69G5FAO").is_none());
    assert!(Ulid::parse("01ARZ3NDEKTSV4RRFFQ69G5FAU").is_none());
    assert!(Ulid::parse("01ARZ3NDEKTSV4RRFFQ69G5FA-").is_none());
}

#[test]
fn uuid_parse_rejects_bad_input() {
    assert!(Uuid7::parse("").is_none());
    assert!(Uuid7::parse("936da01f-9abd-4d9d-80c7-02af85c822a").is_none());
    assert!(Uuid7::parse("936da01f-9abd-4d9d-80c7-02af85c822a8a").is_none());
    assert!(Uuid7::parse("936da01f09abd-4d9d-80c7-02af85c822a8").is_none());
    assert!(Uuid7::parse("936da01f-9abd-4d9d-80c7-02ag85c822a8").is_none());
    assert!(Uuid7::parse("936da01f_9abd_4d9d_80c7_02af85c822a8").is_none());
}

#[test]
fn parse_rejects_non_ascii() {
    assert!(Ulid::parse("01ARZ3NDEKTSV4RRFFQ69G5FÄ").is_none());
    assert_eq!(parse_input("ünicode-is-not-an-identifier").unwrap_err(), IdError::InvalidFormat);
}
