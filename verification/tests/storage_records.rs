//! Versioned persistence records: encoding, decoding, and validation.

use llm_app::storage::{
    ApplicationSettings, Field, ModelRecord, StorageError, StoredScalarType, decode_model,
    decode_settings, encode_model, encode_settings, validate_non_empty,
};

fn settings() -> ApplicationSettings {
    ApplicationSettings {
        default_repository: "acme/llama".to_owned(),
        default_revision: "main".to_owned(),
        maximum_host_memory_bytes: 8 * 1024 * 1024 * 1024,
        maximum_device_memory_bytes: 0,
        drain_timeout_milliseconds: 2_000,
    }
}

fn model() -> ModelRecord {
    ModelRecord {
        name: "local-llama".to_owned(),
        repository: "acme/llama".to_owned(),
        revision: "main".to_owned(),
        scalar_type: StoredScalarType::F32,
        last_used_unix_milliseconds: 42,
    }
}

#[test]
fn settings_and_catalogue_records_survive_round_trip() -> Result<(), StorageError> {
    let settings = settings();
    let encoded = encode_settings(&settings)?;
    assert_eq!(decode_settings(&encoded)?, settings);

    let model = model();
    let encoded = encode_model(&model)?;
    assert_eq!(decode_model(&encoded)?, model);

    let bf16 = ModelRecord {
        scalar_type: StoredScalarType::Bf16,
        ..model
    };
    assert_eq!(decode_model(&encode_model(&bf16)?)?, bf16);
    Ok(())
}

#[test]
fn settings_record_layout_is_exact() -> Result<(), StorageError> {
    let settings = ApplicationSettings {
        default_repository: "r".to_owned(),
        default_revision: "v".to_owned(),
        maximum_host_memory_bytes: 1,
        maximum_device_memory_bytes: 2,
        drain_timeout_milliseconds: 3,
    };
    let mut expected = b"LAS1".to_vec();
    expected.extend_from_slice(&1_u16.to_le_bytes());
    expected.extend_from_slice(&1_u32.to_le_bytes());
    expected.push(b'r');
    expected.extend_from_slice(&1_u32.to_le_bytes());
    expected.push(b'v');
    expected.extend_from_slice(&1_u64.to_le_bytes());
    expected.extend_from_slice(&2_u64.to_le_bytes());
    expected.extend_from_slice(&3_u64.to_le_bytes());
    assert_eq!(encode_settings(&settings)?, expected);
    Ok(())
}

#[test]
fn model_record_layout_is_exact() -> Result<(), StorageError> {
    let record = ModelRecord {
        name: "n".to_owned(),
        repository: "r".to_owned(),
        revision: "v".to_owned(),
        scalar_type: StoredScalarType::F16,
        last_used_unix_milliseconds: 0x0102,
    };
    let mut expected = b"LAM1".to_vec();
    expected.extend_from_slice(&1_u16.to_le_bytes());
    for text in [b'n', b'r', b'v'] {
        expected.extend_from_slice(&1_u32.to_le_bytes());
        expected.push(text);
    }
    expected.push(1);
    expected.extend_from_slice(&0x0102_u64.to_le_bytes());
    assert_eq!(encode_model(&record)?, expected);
    Ok(())
}

#[test]
fn blank_fields_fail_validation() {
    let mut blank_repository = settings();
    blank_repository.default_repository = " \t\n".to_owned();
    assert!(matches!(
        blank_repository.validate(),
        Err(StorageError::InvalidField(Field::Repository))
    ));

    let mut blank_revision = settings();
    blank_revision.default_revision = String::new();
    assert!(matches!(
        blank_revision.validate(),
        Err(StorageError::InvalidField(Field::Revision))
    ));

    let mut no_drain = settings();
    no_drain.drain_timeout_milliseconds = 0;
    assert!(matches!(
        no_drain.validate(),
        Err(StorageError::InvalidField(Field::DrainTimeout))
    ));
    assert!(settings().validate().is_ok());

    let mut blank_name = model();
    blank_name.name = "\u{3000}".to_owned();
    assert!(matches!(
        blank_name.validate(),
        Err(StorageError::InvalidField(Field::ModelName))
    ));
    assert!(model().validate().is_ok());

    assert!(validate_non_empty(" main ", Field::Revision).is_ok());
    assert!(matches!(
        validate_non_empty("\u{85}\u{a0}", Field::Revision),
        Err(StorageError::InvalidField(Field::Revision))
    ));
}

#[test]
fn malformed_records_are_rejected() -> Result<(), StorageError> {
    let encoded = encode_settings(&settings())?;

    assert!(matches!(decode_settings(&encoded[..3]), Err(StorageError::TruncatedRecord)));
    assert!(matches!(decode_settings(&encoded[..5]), Err(StorageError::TruncatedRecord)));
    assert!(matches!(
        decode_settings(&encoded[..encoded.len() - 1]),
        Err(StorageError::TruncatedRecord)
    ));
    assert!(matches!(decode_model(&encoded), Err(StorageError::InvalidRecordKind)));

    let mut newer = encoded.clone();
    newer[4] = 2;
    assert!(matches!(decode_settings(&newer), Err(StorageError::UnsupportedVersion(2))));

    let mut trailing = encoded.clone();
    trailing.push(0);
    assert!(matches!(decode_settings(&trailing), Err(StorageError::TrailingBytes)));

    let mut invalid_text = encoded.clone();
    invalid_text[10] = 0xff;
    assert!(matches!(decode_settings(&invalid_text), Err(StorageError::InvalidUtf8(_))));

    let mut unknown_scalar = encode_model(&model())?;
    let code = unknown_scalar.len() - 9;
    unknown_scalar[code] = 7;
    assert!(matches!(decode_model(&unknown_scalar), Err(StorageError::InvalidScalarType(7))));

    let mut blank = settings();
    blank.default_revision = " ".to_owned();
    let encoded_blank = encode_settings(&blank)?;
    assert!(matches!(
        decode_settings(&encoded_blank),
        Err(StorageError::InvalidField(Field::Revision))
    ));
    Ok(())
}

#[test]
fn storage_failures_are_described_for_people() {
    assert_eq!(
        StorageError::InvalidField(Field::DrainTimeout).message(),
        "invalid storage field: DrainTimeout"
    );
    assert_eq!(
        StorageError::UnsupportedVersion(12).message(),
        "unsupported persistent record version: 12"
    );
    assert_eq!(
        StorageError::StringTooLong { length: 4_294_967_296 }.message(),
        "persistent string has 4294967296 bytes and exceeds u32"
    );
    assert_eq!(
        StorageError::InvalidScalarType(0).message(),
        "unknown persistent scalar type: 0"
    );
    assert_eq!(
        StorageError::TruncatedRecord.message(),
        "persistent record is truncated"
    );
    assert_eq!(
        StorageError::TrailingBytes.message(),
        "persistent record contains trailing bytes"
    );
    assert_eq!(
        StorageError::InvalidRecordKind.message(),
        "invalid persistent record kind"
    );
    let invalid = String::from_utf8(vec![0xff]).expect_err("invalid UTF-8");
    assert!(StorageError::InvalidUtf8(invalid)
        .message()
        .starts_with("persistent string is invalid UTF-8: "));
}

#[test]
fn decoded_records_encode_back_to_the_same_bytes() -> Result<(), StorageError> {
    let stored = encode_model(&model())?;
    assert_eq!(encode_model(&decode_model(&stored)?)?, stored);
    let stored = encode_settings(&settings())?;
    assert_eq!(encode_settings(&decode_settings(&stored)?)?, stored);
    Ok(())
}
