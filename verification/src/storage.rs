//! Versioned binary records for persisted desktop settings and the model
//! catalogue, with the validation applied before writing and after reading.
//!
//! Every record starts with a four-byte kind tag and a little-endian `u16`
//! format version; strings are a little-endian `u32` byte length followed by
//! UTF-8 bytes; integers are little-endian.

use vstd::prelude::*;
use vstd::string::StringExecFns;
use vstd::utf8::{decode_utf8, encode_utf8, valid_utf8};

use crate::bytes::{
    byte_range, copy_range, le_bytes, lemma_le_bytes_len, lemma_le_bytes_read_back,
    lemma_little_endian_encoding,
    lemma_little_endian_1, lemma_little_endian_2, lemma_little_endian_4, lemma_little_endian_8,
    little_endian, push_le,
};
use crate::text::{
    decimal, decimal_text, is_blank, lemma_trim_empty_iff_blank, starts_with_text, trim, utf8_string,
};

verus! {

/// `redb::Error`, carried opaquely in database failures.
#[verifier::external_type_specification]
#[verifier::external_body]
pub struct ExRedbError(redb::Error);

/// Format version written into every record.
pub const RECORD_VERSION: u16 = 1;

/// Persisted application-level runtime limits and default Hub selection.
#[derive(Clone, Debug, PartialEq, Eq)]
pub struct ApplicationSettings {
    /// Default Hub repository presented by the desktop application.
    pub default_repository: String,
    /// Default Hub revision.
    pub default_revision: String,
    /// Aggregate host-memory admission bound.
    pub maximum_host_memory_bytes: u64,
    /// Aggregate device-memory admission bound.
    pub maximum_device_memory_bytes: u64,
    /// Mandatory drain timeout used before forced cancellation.
    pub drain_timeout_milliseconds: u64,
}

/// Settings as text and numbers.
pub struct SettingsView {
    pub default_repository: Seq<char>,
    pub default_revision: Seq<char>,
    pub maximum_host_memory_bytes: u64,
    pub maximum_device_memory_bytes: u64,
    pub drain_timeout_milliseconds: u64,
}

impl View for ApplicationSettings {
    type V = SettingsView;

    open spec fn view(&self) -> SettingsView {
        SettingsView {
            default_repository: self.default_repository@,
            default_revision: self.default_revision@,
            maximum_host_memory_bytes: self.maximum_host_memory_bytes,
            maximum_device_memory_bytes: self.maximum_device_memory_bytes,
            drain_timeout_milliseconds: self.drain_timeout_milliseconds,
        }
    }
}

/// Scalar format selected when loading one catalogue entry.
#[derive(Clone, Copy, Debug, PartialEq, Eq, Structural)]
pub enum StoredScalarType {
    /// IEEE-754 32-bit floating point.
    F32,
    /// IEEE-754 16-bit floating point.
    F16,
    /// Brain floating point.
    Bf16,
}

/// Persisted logical model selection. Cache paths are deliberately not stored.
#[derive(Clone, Debug, PartialEq, Eq)]
pub struct ModelRecord {
    /// User-visible unique catalogue name.
    pub name: String,
    /// Hugging Face repository.
    pub repository: String,
    /// Branch, tag, reference, or commit.
    pub revision: String,
    /// Scalar format requested from the backend.
    pub scalar_type: StoredScalarType,
    /// Last successful use in Unix milliseconds, supplied by the application.
    pub last_used_unix_milliseconds: u64,
}

/// A model record as text and numbers.
pub struct ModelRecordView {
    pub name: Seq<char>,
    pub repository: Seq<char>,
    pub revision: Seq<char>,
    pub scalar_type: StoredScalarType,
    pub last_used_unix_milliseconds: u64,
}

impl View for ModelRecord {
    type V = ModelRecordView;

    open spec fn view(&self) -> ModelRecordView {
        ModelRecordView {
            name: self.name@,
            repository: self.repository@,
            revision: self.revision@,
            scalar_type: self.scalar_type,
            last_used_unix_milliseconds: self.last_used_unix_milliseconds,
        }
    }
}

/// Invalid persisted field category.
#[derive(Clone, Copy, Debug, PartialEq, Eq, Structural)]
pub enum Field {
    /// Model catalogue name.
    ModelName,
    /// Hub repository identifier.
    Repository,
    /// Hub revision identifier.
    Revision,
    /// Drain timeout.
    DrainTimeout,
}

/// Stable storage adapter failure.
#[derive(Debug)]
pub enum StorageError {
    /// redb operation failed.
    Database(redb::Error),
    /// A required semantic field was empty or invalid.
    InvalidField(Field),
    /// Record header did not match its table.
    InvalidRecordKind,
    /// Record version is newer or otherwise unsupported.
    UnsupportedVersion(u16),
    /// Record ended before all declared values were available.
    TruncatedRecord,
    /// A string length exceeded the binary record limit.
    StringTooLong {
        /// UTF-8 byte length that did not fit the persistent format.
        length: usize,
    },
    /// Persisted bytes were not valid UTF-8.
    InvalidUtf8(std::string::FromUtf8Error),
    /// Persisted scalar code is unknown.
    InvalidScalarType(u8),
    /// Bytes remained after a complete versioned record was decoded.
    TrailingBytes,
}

/// Why a record cannot be written or read back.
#[derive(Clone, Copy, Debug, PartialEq, Eq, Structural)]
pub enum RecordFailure {
    /// A required semantic field was empty or invalid.
    InvalidField(Field),
    /// Record header did not match its table.
    InvalidRecordKind,
    /// Record version is unsupported.
    UnsupportedVersion(u16),
    /// Record ended before all declared values were available.
    TruncatedRecord,
    /// A string of this many UTF-8 bytes does not fit the length prefix.
    StringTooLong(usize),
    /// Persisted bytes were not valid UTF-8.
    InvalidUtf8,
    /// Persisted scalar code is unknown.
    InvalidScalarType(u8),
    /// Bytes remained after a complete record.
    TrailingBytes,
}

/// `error` is how the storage layer reports `failure`.
pub open spec fn reports(error: StorageError, failure: RecordFailure) -> bool {
    match failure {
        RecordFailure::InvalidField(field) => error matches StorageError::InvalidField(f) && f == field,
        RecordFailure::InvalidRecordKind => error is InvalidRecordKind,
        RecordFailure::UnsupportedVersion(version) => error matches StorageError::UnsupportedVersion(
            v,
        ) && v == version,
        RecordFailure::TruncatedRecord => error is TruncatedRecord,
        RecordFailure::StringTooLong(length) => error matches StorageError::StringTooLong { length: l }
            && l == length,
        RecordFailure::InvalidUtf8 => error is InvalidUtf8,
        RecordFailure::InvalidScalarType(code) => error matches StorageError::InvalidScalarType(c)
            && c == code,
        RecordFailure::TrailingBytes => error is TrailingBytes,
    }
}

/// The first field of a settings value that may not be persisted.
pub open spec fn settings_defect(settings: SettingsView) -> Option<Field> {
    if is_blank(settings.default_repository) {
        Some(Field::Repository)
    } else if is_blank(settings.default_revision) {
        Some(Field::Revision)
    } else if settings.drain_timeout_milliseconds == 0 {
        Some(Field::DrainTimeout)
    } else {
        None
    }
}

/// The first field of a model record that may not be persisted.
pub open spec fn model_defect(record: ModelRecordView) -> Option<Field> {
    if is_blank(record.name) {
        Some(Field::ModelName)
    } else if is_blank(record.repository) {
        Some(Field::Repository)
    } else if is_blank(record.revision) {
        Some(Field::Revision)
    } else {
        None
    }
}

/// Kind tag of a settings record: `LAS1`.
pub open spec fn settings_magic() -> Seq<u8> {
    seq![0x4cu8, 0x41u8, 0x53u8, 0x31u8]
}

/// Kind tag of a model record: `LAM1`.
pub open spec fn model_magic() -> Seq<u8> {
    seq![0x4cu8, 0x41u8, 0x4du8, 0x31u8]
}

/// Code written for a scalar type.
pub open spec fn scalar_code(scalar_type: StoredScalarType) -> u8 {
    match scalar_type {
        StoredScalarType::F32 => 0,
        StoredScalarType::F16 => 1,
        StoredScalarType::Bf16 => 2,
    }
}

/// A length-prefixed string field.
pub open spec fn string_field(text: Seq<char>) -> Seq<u8> {
    le_bytes(encode_utf8(text).len(), 4) + encode_utf8(text)
}

/// Whether a string's UTF-8 encoding fits the `u32` length prefix.
pub open spec fn fits(text: Seq<char>) -> bool {
    encode_utf8(text).len() <= u32::MAX
}

/// The record written for settings.
pub open spec fn settings_record(settings: SettingsView) -> Seq<u8> {
    settings_magic() + le_bytes(RECORD_VERSION as nat, 2) + string_field(
        settings.default_repository,
    ) + string_field(settings.default_revision) + le_bytes(
        settings.maximum_host_memory_bytes as nat,
        8,
    ) + le_bytes(settings.maximum_device_memory_bytes as nat, 8) + le_bytes(
        settings.drain_timeout_milliseconds as nat,
        8,
    )
}

/// The record written for a model.
pub open spec fn model_record(record: ModelRecordView) -> Seq<u8> {
    model_magic() + le_bytes(RECORD_VERSION as nat, 2) + string_field(record.name) + string_field(
        record.repository,
    ) + string_field(record.revision) + seq![scalar_code(record.scalar_type)] + le_bytes(
        record.last_used_unix_milliseconds as nat,
        8,
    )
}

/// Writing settings: the first string too long for its prefix fails.
pub open spec fn encode_settings_result(settings: SettingsView) -> Result<Seq<u8>, RecordFailure> {
    if !fits(settings.default_repository) {
        Err(RecordFailure::StringTooLong(encode_utf8(settings.default_repository).len() as usize))
    } else if !fits(settings.default_revision) {
        Err(RecordFailure::StringTooLong(encode_utf8(settings.default_revision).len() as usize))
    } else {
        Ok(settings_record(settings))
    }
}

/// Writing a model record: the first string too long for its prefix fails.
pub open spec fn encode_model_result(record: ModelRecordView) -> Result<Seq<u8>, RecordFailure> {
    if !fits(record.name) {
        Err(RecordFailure::StringTooLong(encode_utf8(record.name).len() as usize))
    } else if !fits(record.repository) {
        Err(RecordFailure::StringTooLong(encode_utf8(record.repository).len() as usize))
    } else if !fits(record.revision) {
        Err(RecordFailure::StringTooLong(encode_utf8(record.revision).len() as usize))
    } else {
        Ok(model_record(record))
    }
}

/// Reading the kind tag and version: the offset of the first field.
pub open spec fn read_header(bytes: Seq<u8>, magic: Seq<u8>) -> Result<int, RecordFailure> {
    if bytes.len() < 4 {
        Err(RecordFailure::TruncatedRecord)
    } else if bytes.subrange(0, 4) != magic {
        Err(RecordFailure::InvalidRecordKind)
    } else if bytes.len() < 6 {
        Err(RecordFailure::TruncatedRecord)
    } else if little_endian(bytes, 4, 2) != RECORD_VERSION {
        Err(RecordFailure::UnsupportedVersion(little_endian(bytes, 4, 2) as u16))
    } else {
        Ok(6)
    }
}

/// Reading a `width`-byte little-endian integer at `offset`.
pub open spec fn read_number(bytes: Seq<u8>, offset: int, width: int) -> Result<(int, int), RecordFailure> {
    if offset + width > bytes.len() {
        Err(RecordFailure::TruncatedRecord)
    } else {
        Ok((offset + width, little_endian(bytes, offset, width)))
    }
}

/// Reading a length-prefixed UTF-8 string at `offset`.
pub open spec fn read_text(bytes: Seq<u8>, offset: int) -> Result<(int, Seq<char>), RecordFailure> {
    match read_number(bytes, offset, 4) {
        Err(failure) => Err(failure),
        Ok((start, length)) => if start + length > bytes.len() {
            Err(RecordFailure::TruncatedRecord)
        } else if !valid_utf8(bytes.subrange(start, start + length)) {
            Err(RecordFailure::InvalidUtf8)
        } else {
            Ok((start + length, decode_utf8(bytes.subrange(start, start + length))))
        },
    }
}

/// Reading a settings record back.
pub open spec fn decode_settings_result(bytes: Seq<u8>) -> Result<SettingsView, RecordFailure> {
    match read_header(bytes, settings_magic()) {
        Err(failure) => Err(failure),
        Ok(at_repository) => match read_text(bytes, at_repository) {
            Err(failure) => Err(failure),
            Ok((at_revision, repository)) => match read_text(bytes, at_revision) {
                Err(failure) => Err(failure),
                Ok((at_host, revision)) => match read_number(bytes, at_host, 8) {
                    Err(failure) => Err(failure),
                    Ok((at_device, host)) => match read_number(bytes, at_device, 8) {
                        Err(failure) => Err(failure),
                        Ok((at_drain, device)) => match read_number(bytes, at_drain, 8) {
                            Err(failure) => Err(failure),
                            Ok((end, drain)) => if end != bytes.len() {
                                Err(RecordFailure::TrailingBytes)
                            } else {
                                let settings = SettingsView {
                                    default_repository: repository,
                                    default_revision: revision,
                                    maximum_host_memory_bytes: host as u64,
                                    maximum_device_memory_bytes: device as u64,
                                    drain_timeout_milliseconds: drain as u64,
                                };
                                match settings_defect(settings) {
                                    Some(field) => Err(RecordFailure::InvalidField(field)),
                                    None => Ok(settings),
                                }
                            },
                        },
                    },
                },
            },
        },
    }
}

/// The scalar type written as `code`.
pub open spec fn scalar_of_code(code: u8) -> Option<StoredScalarType> {
    if code == 0 {
        Some(StoredScalarType::F32)
    } else if code == 1 {
        Some(StoredScalarType::F16)
    } else if code == 2 {
        Some(StoredScalarType::Bf16)
    } else {
        None
    }
}

/// Reading a model record back.
pub open spec fn decode_model_result(bytes: Seq<u8>) -> Result<ModelRecordView, RecordFailure> {
    match read_header(bytes, model_magic()) {
        Err(failure) => Err(failure),
        Ok(at_name) => match read_text(bytes, at_name) {
            Err(failure) => Err(failure),
            Ok((at_repository, name)) => match read_text(bytes, at_repository) {
                Err(failure) => Err(failure),
                Ok((at_revision, repository)) => match read_text(bytes, at_revision) {
                    Err(failure) => Err(failure),
                    Ok((at_scalar, revision)) => match read_number(bytes, at_scalar, 1) {
                        Err(failure) => Err(failure),
                        Ok((at_used, code)) => match scalar_of_code(code as u8) {
                            None => Err(RecordFailure::InvalidScalarType(code as u8)),
                            Some(scalar_type) => match read_number(bytes, at_used, 8) {
                                Err(failure) => Err(failure),
                                Ok((end, used)) => if end != bytes.len() {
                                    Err(RecordFailure::TrailingBytes)
                                } else {
                                    let record = ModelRecordView {
                                        name,
                                        repository,
                                        revision,
                                        scalar_type,
                                        last_used_unix_milliseconds: used as u64,
                                    };
                                    match model_defect(record) {
                                        Some(field) => Err(RecordFailure::InvalidField(field)),
                                        None => Ok(record),
                                    }
                                },
                            },
                        },
                    },
                },
            },
        },
    }
}

} // verus!

verus! {


/// Renders a database error with its `Display` implementation
/// (`redb::Error::to_string`); nothing is claimed about the text.
#[verifier::external_body]
fn database_error_text(error: &redb::Error) -> String {
    error.to_string()
}

/// Renders a UTF-8 decoding error with its `Display` implementation
/// (`FromUtf8Error::to_string`); nothing is claimed about the text.
#[verifier::external_body]
fn utf8_error_text(error: &std::string::FromUtf8Error) -> String {
    error.to_string()
}

/// The name of a field as it appears in messages.
pub open spec fn field_name(field: Field) -> Seq<char> {
    match field {
        Field::ModelName => "ModelName"@,
        Field::Repository => "Repository"@,
        Field::Revision => "Revision"@,
        Field::DrainTimeout => "DrainTimeout"@,
    }
}

impl Field {
    /// The field's name.
    fn name(&self) -> (name: &'static str)
        ensures
            name@ == field_name(*self),
    {
        match self {
            Field::ModelName => "ModelName",
            Field::Repository => "Repository",
            Field::Revision => "Revision",
            Field::DrainTimeout => "DrainTimeout",
        }
    }
}

impl StorageError {
    /// Describes the failure for people.
    pub fn message(&self) -> (text: String)
        ensures
            match self {
                StorageError::Database(_) => starts_with_text(text@, "database operation failed: "@),
                StorageError::InvalidField(field) => text@ == "invalid storage field: "@ + field_name(
                    *field,
                ),
                StorageError::InvalidRecordKind => text@ == "invalid persistent record kind"@,
                StorageError::UnsupportedVersion(version) => text@
                    == "unsupported persistent record version: "@ + decimal(*version as nat),
                StorageError::TruncatedRecord => text@ == "persistent record is truncated"@,
                StorageError::StringTooLong { length } => text@ == "persistent string has "@
                    + decimal(*length as nat) + " bytes and exceeds u32"@,
                StorageError::InvalidUtf8(_) => starts_with_text(
                    text@,
                    "persistent string is invalid UTF-8: "@,
                ),
                StorageError::InvalidScalarType(code) => text@ == "unknown persistent scalar type: "@
                    + decimal(*code as nat),
                StorageError::TrailingBytes => text@ == "persistent record contains trailing bytes"@,
            },
    {
        match self {
            StorageError::Database(error) => {
                let text = "database operation failed: ".to_owned().concat(
                    database_error_text(error).as_str(),
                );
                assert(text@.subrange(0, "database operation failed: "@.len() as int)
                    =~= "database operation failed: "@);
                text
            },
            StorageError::InvalidField(field) => "invalid storage field: ".to_owned().concat(
                field.name(),
            ),
            StorageError::InvalidRecordKind => "invalid persistent record kind".to_owned(),
            StorageError::UnsupportedVersion(version) => "unsupported persistent record version: ".to_owned().concat(
                decimal_text(*version as u64).as_str(),
            ),
            StorageError::TruncatedRecord => "persistent record is truncated".to_owned(),
            StorageError::StringTooLong { length } => "persistent string has ".to_owned().concat(
                decimal_text(*length as u64).as_str(),
            ).concat(" bytes and exceeds u32"),
            StorageError::InvalidUtf8(error) => {
                let text = "persistent string is invalid UTF-8: ".to_owned().concat(
                    utf8_error_text(error).as_str(),
                );
                assert(text@.subrange(0, "persistent string is invalid UTF-8: "@.len() as int)
                    =~= "persistent string is invalid UTF-8: "@);
                text
            },
            StorageError::InvalidScalarType(code) => "unknown persistent scalar type: ".to_owned().concat(
                decimal_text(*code as u64).as_str(),
            ),
            StorageError::TrailingBytes => "persistent record contains trailing bytes".to_owned(),
        }
    }
}

/// Rejects a value that is empty or consists only of white space.
pub fn validate_non_empty(value: &str, field: Field) -> (result: Result<(), StorageError>)
    ensures
        is_blank(value@) ==> (result matches Err(StorageError::InvalidField(f)) && f == field),
        !is_blank(value@) ==> result is Ok,
{
    proof {
        lemma_trim_empty_iff_blank(value@);
    }
    if trim(value).is_empty() {
        Err(StorageError::InvalidField(field))
    } else {
        Ok(())
    }
}

impl ApplicationSettings {
    /// Validates semantic fields before persistence: the repository and
    /// revision must not be blank and the drain timeout must not be zero.
    pub fn validate(&self) -> (result: Result<(), StorageError>)
        ensures
            match settings_defect(self@) {
                Some(field) => result matches Err(StorageError::InvalidField(f)) && f == field,
                None => result is Ok,
            },
    {
        validate_non_empty(self.default_repository.as_str(), Field::Repository)?;
        validate_non_empty(self.default_revision.as_str(), Field::Revision)?;
        if self.drain_timeout_milliseconds == 0 {
            return Err(StorageError::InvalidField(Field::DrainTimeout));
        }
        Ok(())
    }
}

impl ModelRecord {
    /// Validates catalogue identity and Hub selection: the name, repository,
    /// and revision must not be blank.
    pub fn validate(&self) -> (result: Result<(), StorageError>)
        ensures
            match model_defect(self@) {
                Some(field) => result matches Err(StorageError::InvalidField(f)) && f == field,
                None => result is Ok,
            },
    {
        validate_non_empty(self.name.as_str(), Field::ModelName)?;
        validate_non_empty(self.repository.as_str(), Field::Repository)?;
        validate_non_empty(self.revision.as_str(), Field::Revision)
    }
}

/// Appends `bytes` to `output`.
fn append_bytes(output: &mut Vec<u8>, bytes: &[u8])
    ensures
        final(output)@ == old(output)@ + bytes@,
{
    let mut index: usize = 0;
    while index < bytes.len()
        invariant
            index <= bytes@.len(),
            output@ == old(output)@ + bytes@.subrange(0, index as int),
        decreases bytes@.len() - index,
    {
        output.push(bytes[index]);
        index += 1;
        assert(output@ =~= old(output)@ + bytes@.subrange(0, index as int));
    }
    assert(bytes@.subrange(0, bytes@.len() as int) =~= bytes@);
}

/// Appends a length-prefixed string field.
pub fn encode_string(output: &mut Vec<u8>, value: &str) -> (result: Result<(), StorageError>)
    ensures
        fits(value@) ==> result is Ok && final(output)@ == old(output)@ + string_field(value@),
        !fits(value@) ==> (result matches Err(StorageError::StringTooLong { length })
            && length == encode_utf8(value@).len() && final(output)@ == old(output)@),
{
    let bytes = value.as_bytes();
    let length = bytes.len();
    if length > u32::MAX as usize {
        return Err(StorageError::StringTooLong { length });
    }
    push_le(output, length as u64, 4);
    append_bytes(output, bytes);
    Ok(())
}

/// Appends a record's kind tag and format version.
fn encode_header(output: &mut Vec<u8>, magic: [u8; 4])
    ensures
        final(output)@ == old(output)@ + magic@ + le_bytes(RECORD_VERSION as nat, 2),
{
    let ghost start = output@;
    output.push(magic[0]);
    output.push(magic[1]);
    output.push(magic[2]);
    output.push(magic[3]);
    assert(output@ =~= start + magic@);
    push_le(output, RECORD_VERSION as u64, 2);
}

/// Encodes settings as a versioned record.
pub fn encode_settings(settings: &ApplicationSettings) -> (result: Result<Vec<u8>, StorageError>)
    ensures
        match encode_settings_result(settings@) {
            Ok(bytes) => result matches Ok(encoded) && encoded@ == bytes,
            Err(failure) => result matches Err(error) && reports(error, failure),
        },
{
    let mut output: Vec<u8> = Vec::new();
    encode_header(&mut output, [0x4c, 0x41, 0x53, 0x31]);
    assert([0x4cu8, 0x41u8, 0x53u8, 0x31u8]@ =~= settings_magic());
    encode_string(&mut output, settings.default_repository.as_str())?;
    encode_string(&mut output, settings.default_revision.as_str())?;
    push_le(&mut output, settings.maximum_host_memory_bytes, 8);
    push_le(&mut output, settings.maximum_device_memory_bytes, 8);
    push_le(&mut output, settings.drain_timeout_milliseconds, 8);
    Ok(output)
}

/// Encodes a model record as a versioned record.
pub fn encode_model(record: &ModelRecord) -> (result: Result<Vec<u8>, StorageError>)
    ensures
        match encode_model_result(record@) {
            Ok(bytes) => result matches Ok(encoded) && encoded@ == bytes,
            Err(failure) => result matches Err(error) && reports(error, failure),
        },
{
    let mut output: Vec<u8> = Vec::new();
    encode_header(&mut output, [0x4c, 0x41, 0x4d, 0x31]);
    assert([0x4cu8, 0x41u8, 0x4du8, 0x31u8]@ =~= model_magic());
    encode_string(&mut output, record.name.as_str())?;
    encode_string(&mut output, record.repository.as_str())?;
    encode_string(&mut output, record.revision.as_str())?;
    let code: u8 = match record.scalar_type {
        StoredScalarType::F32 => 0,
        StoredScalarType::F16 => 1,
        StoredScalarType::Bf16 => 2,
    };
    output.push(code);
    push_le(&mut output, record.last_used_unix_milliseconds, 8);
    Ok(output)
}

} // verus!

verus! {

/// Reads the fields of one record in order.
struct Decoder<'record> {
    bytes: &'record [u8],
    offset: usize,
}

impl<'record> Decoder<'record> {
    /// Checks the kind tag and format version.
    fn new(bytes: &'record [u8], expected_magic: [u8; 4]) -> (result: Result<Self, StorageError>)
        ensures
            match read_header(bytes@, expected_magic@) {
                Ok(offset) => result matches Ok(decoder) && decoder.bytes@ == bytes@
                    && decoder.offset == offset,
                Err(failure) => result matches Err(error) && reports(error, failure),
            },
    {
        if bytes.len() < 4 {
            return Err(StorageError::TruncatedRecord);
        }
        if bytes[0] != expected_magic[0] || bytes[1] != expected_magic[1] || bytes[2]
            != expected_magic[2] || bytes[3] != expected_magic[3] {
            proof {
                if bytes@.subrange(0, 4) == expected_magic@ {
                    assert(bytes@.subrange(0, 4)[0] == bytes@[0]);
                    assert(bytes@.subrange(0, 4)[1] == bytes@[1]);
                    assert(bytes@.subrange(0, 4)[2] == bytes@[2]);
                    assert(bytes@.subrange(0, 4)[3] == bytes@[3]);
                }
            }
            return Err(StorageError::InvalidRecordKind);
        }
        assert(bytes@.subrange(0, 4) =~= expected_magic@);
        if bytes.len() < 6 {
            return Err(StorageError::TruncatedRecord);
        }
        proof {
            lemma_little_endian_2(bytes@, 4);
        }
        let version = bytes[4] as u16 + bytes[5] as u16 * 256;
        if version != RECORD_VERSION {
            return Err(StorageError::UnsupportedVersion(version));
        }
        Ok(Decoder { bytes, offset: 6 })
    }

    fn u8(&mut self) -> (result: Result<u8, StorageError>)
        requires
            old(self).offset <= old(self).bytes@.len(),
        ensures
            final(self).bytes@ == old(self).bytes@,
            final(self).offset <= final(self).bytes@.len(),
            match read_number(old(self).bytes@, old(self).offset as int, 1) {
                Ok((next, value)) => result == Ok::<u8, StorageError>(value as u8)
                    && final(self).offset == next && 0 <= value <= u8::MAX,
                Err(failure) => result matches Err(error) && reports(error, failure),
            },
    {
        if self.offset >= self.bytes.len() {
            return Err(StorageError::TruncatedRecord);
        }
        proof {
            lemma_little_endian_1(self.bytes@, self.offset as int);
        }
        let value = self.bytes[self.offset];
        self.offset = self.offset + 1;
        Ok(value)
    }

    fn u32(&mut self) -> (result: Result<u32, StorageError>)
        requires
            old(self).offset <= old(self).bytes@.len(),
        ensures
            final(self).bytes@ == old(self).bytes@,
            final(self).offset <= final(self).bytes@.len(),
            match read_number(old(self).bytes@, old(self).offset as int, 4) {
                Ok((next, value)) => result == Ok::<u32, StorageError>(value as u32)
                    && final(self).offset == next && 0 <= value <= u32::MAX,
                Err(failure) => result matches Err(error) && reports(error, failure),
            },
    {
        if self.bytes.len() - self.offset < 4 {
            return Err(StorageError::TruncatedRecord);
        }
        let at = self.offset;
        proof {
            lemma_little_endian_4(self.bytes@, at as int);
        }
        let value = self.bytes[at] as u32 + self.bytes[at + 1] as u32 * 256 + self.bytes[at + 2] as u32
            * 65536 + self.bytes[at + 3] as u32 * 16777216;
        self.offset = at + 4;
        Ok(value)
    }

    fn u64(&mut self) -> (result: Result<u64, StorageError>)
        requires
            old(self).offset <= old(self).bytes@.len(),
        ensures
            final(self).bytes@ == old(self).bytes@,
            final(self).offset <= final(self).bytes@.len(),
            match read_number(old(self).bytes@, old(self).offset as int, 8) {
                Ok((next, value)) => result == Ok::<u64, StorageError>(value as u64)
                    && final(self).offset == next && 0 <= value <= u64::MAX,
                Err(failure) => result matches Err(error) && reports(error, failure),
            },
    {
        if self.bytes.len() - self.offset < 8 {
            return Err(StorageError::TruncatedRecord);
        }
        let at = self.offset;
        proof {
            lemma_little_endian_8(self.bytes@, at as int);
            lemma_little_endian_4(self.bytes@, at as int);
            lemma_little_endian_4(self.bytes@, at + 4);
        }
        let low = self.bytes[at] as u64 + self.bytes[at + 1] as u64 * 256 + self.bytes[at + 2] as u64
            * 65536 + self.bytes[at + 3] as u64 * 16777216;
        let high = self.bytes[at + 4] as u64 + self.bytes[at + 5] as u64 * 256 + self.bytes[at + 6] as u64
            * 65536 + self.bytes[at + 7] as u64 * 16777216;
        self.offset = at + 8;
        Ok(low + high * 4294967296)
    }

    fn string(&mut self) -> (result: Result<String, StorageError>)
        requires
            old(self).offset <= old(self).bytes@.len(),
        ensures
            final(self).bytes@ == old(self).bytes@,
            final(self).offset <= final(self).bytes@.len(),
            match read_text(old(self).bytes@, old(self).offset as int) {
                Ok((next, text)) => result matches Ok(value) && value@ == text
                    && final(self).offset == next,
                Err(failure) => result matches Err(error) && reports(error, failure),
            },
    {
        let length = self.u32()? as usize;
        if self.bytes.len() - self.offset < length {
            return Err(StorageError::TruncatedRecord);
        }
        let start = self.offset;
        let end = start + length;
        let field = copy_range(self.bytes, start, end);
        self.offset = end;
        match utf8_string(field.as_slice()) {
            Ok(text) => Ok(text),
            Err(error) => Err(StorageError::InvalidUtf8(error)),
        }
    }

    fn finish(self) -> (result: Result<(), StorageError>)
        ensures
            self.offset == self.bytes@.len() ==> result is Ok,
            self.offset != self.bytes@.len() ==> (result matches Err(error) && error is TrailingBytes),
    {
        if self.offset == self.bytes.len() {
            Ok(())
        } else {
            Err(StorageError::TrailingBytes)
        }
    }
}

/// Decodes and validates a settings record.
pub fn decode_settings(bytes: &[u8]) -> (result: Result<ApplicationSettings, StorageError>)
    ensures
        match decode_settings_result(bytes@) {
            Ok(settings) => result matches Ok(decoded) && decoded@ == settings,
            Err(failure) => result matches Err(error) && reports(error, failure),
        },
{
    let mut decoder = Decoder::new(bytes, [0x4c, 0x41, 0x53, 0x31])?;
    assert([0x4cu8, 0x41u8, 0x53u8, 0x31u8]@ =~= settings_magic());
    let default_repository = decoder.string()?;
    let default_revision = decoder.string()?;
    let maximum_host_memory_bytes = decoder.u64()?;
    let maximum_device_memory_bytes = decoder.u64()?;
    let drain_timeout_milliseconds = decoder.u64()?;
    decoder.finish()?;
    let settings = ApplicationSettings {
        default_repository,
        default_revision,
        maximum_host_memory_bytes,
        maximum_device_memory_bytes,
        drain_timeout_milliseconds,
    };
    settings.validate()?;
    Ok(settings)
}

/// Decodes and validates a model record.
pub fn decode_model(bytes: &[u8]) -> (result: Result<ModelRecord, StorageError>)
    ensures
        match decode_model_result(bytes@) {
            Ok(record) => result matches Ok(decoded) && decoded@ == record,
            Err(failure) => result matches Err(error) && reports(error, failure),
        },
{
    let mut decoder = Decoder::new(bytes, [0x4c, 0x41, 0x4d, 0x31])?;
    assert([0x4cu8, 0x41u8, 0x4du8, 0x31u8]@ =~= model_magic());
    let name = decoder.string()?;
    let repository = decoder.string()?;
    let revision = decoder.string()?;
    let code = decoder.u8()?;
    let scalar_type = if code == 0 {
        StoredScalarType::F32
    } else if code == 1 {
        StoredScalarType::F16
    } else if code == 2 {
        StoredScalarType::Bf16
    } else {
        return Err(StorageError::InvalidScalarType(code));
    };
    let last_used_unix_milliseconds = decoder.u64()?;
    decoder.finish()?;
    let record = ModelRecord { name, repository, revision, scalar_type, last_used_unix_milliseconds };
    record.validate()?;
    Ok(record)
}

} // verus!

verus! {

proof fn lemma_middle(left: Seq<u8>, middle: Seq<u8>, right: Seq<u8>)
    ensures
        (left + middle + right).subrange(left.len() as int, (left.len() + middle.len()) as int) == middle,
{
    assert((left + middle + right).subrange(left.len() as int, (left.len() + middle.len()) as int) =~= middle);
}

/// A string field written at `offset` reads back as its text.
proof fn lemma_read_text_field(bytes: Seq<u8>, offset: int, text: Seq<char>)
    requires
        fits(text),
        0 <= offset,
        offset + string_field(text).len() <= bytes.len(),
        bytes.subrange(offset, offset + string_field(text).len()) == string_field(text),
    ensures
        read_text(bytes, offset) == Ok::<(int, Seq<char>), RecordFailure>(
            (offset + string_field(text).len(), text),
        ),
{
    let encoded = encode_utf8(text);
    lemma_le_bytes_len(encoded.len(), 4);
    reveal_with_fuel(byte_range, 5);
    lemma_middle(Seq::empty(), le_bytes(encoded.len(), 4), encoded);
    assert(bytes.subrange(offset, offset + 4) =~= string_field(text).subrange(0, 4));
    assert(string_field(text).subrange(0, 4) =~= le_bytes(encoded.len(), 4));
    lemma_le_bytes_read_back(bytes, offset, encoded.len(), 4);
    let field = string_field(text);
    assert(field.subrange(4, (4 + encoded.len()) as int) =~= encoded);
    assert(bytes.subrange(offset + 4, offset + 4 + encoded.len()) =~= bytes.subrange(
        offset,
        offset + field.len(),
    ).subrange(4, (4 + encoded.len()) as int));
    vstd::utf8::encode_utf8_valid_utf8(text);
    vstd::utf8::encode_utf8_decode_utf8(text);
}

/// A little-endian number written at `offset` reads back as its value.
proof fn lemma_read_number_field(bytes: Seq<u8>, offset: int, value: nat, width: nat)
    requires
        0 <= offset,
        offset + width <= bytes.len(),
        bytes.subrange(offset, offset + width) == le_bytes(value, width),
        value < byte_range(width),
    ensures
        read_number(bytes, offset, width as int) == Ok::<(int, int), RecordFailure>(
            (offset + width, value as int),
        ),
{
    lemma_le_bytes_read_back(bytes, offset, value, width);
}

/// Stored settings read back unchanged: decoding the record written for
/// valid settings whose strings fit the format gives the same settings.
pub proof fn lemma_settings_round_trip(settings: SettingsView)
    requires
        encode_settings_result(settings) is Ok,
        settings_defect(settings) is None,
    ensures
        decode_settings_result(settings_record(settings)) == Ok::<SettingsView, RecordFailure>(
            settings,
        ),
{
    let record = settings_record(settings);
    let magic = settings_magic();
    let version = le_bytes(RECORD_VERSION as nat, 2);
    let repository = string_field(settings.default_repository);
    let revision = string_field(settings.default_revision);
    let host = le_bytes(settings.maximum_host_memory_bytes as nat, 8);
    let device = le_bytes(settings.maximum_device_memory_bytes as nat, 8);
    let drain = le_bytes(settings.drain_timeout_milliseconds as nat, 8);
    lemma_le_bytes_len(RECORD_VERSION as nat, 2);
    lemma_le_bytes_len(settings.maximum_host_memory_bytes as nat, 8);
    lemma_le_bytes_len(settings.maximum_device_memory_bytes as nat, 8);
    lemma_le_bytes_len(settings.drain_timeout_milliseconds as nat, 8);
    lemma_le_bytes_len(encode_utf8(settings.default_repository).len(), 4);
    lemma_le_bytes_len(encode_utf8(settings.default_revision).len(), 4);
    reveal_with_fuel(byte_range, 9);
    let at_repository = 6int;
    let at_revision = at_repository + repository.len();
    let at_host = at_revision + revision.len();
    let at_device = at_host + 8;
    let at_drain = at_device + 8;
    assert(record =~= magic + version + (repository + revision + host + device + drain));
    lemma_middle(Seq::empty(), magic, version + (repository + revision + host + device + drain));
    assert(record.subrange(0, 4) =~= magic);
    assert(record =~= magic + version + (repository + revision + host + device + drain));
    lemma_middle(magic, version, repository + revision + host + device + drain);
    lemma_read_number_field(record, 4, RECORD_VERSION as nat, 2);
    assert(record =~= (magic + version) + repository + (revision + host + device + drain));
    lemma_middle(magic + version, repository, revision + host + device + drain);
    lemma_read_text_field(record, at_repository, settings.default_repository);
    assert(record =~= (magic + version + repository) + revision + (host + device + drain));
    lemma_middle(magic + version + repository, revision, host + device + drain);
    lemma_read_text_field(record, at_revision, settings.default_revision);
    assert(record =~= (magic + version + repository + revision) + host + (device + drain));
    lemma_middle(magic + version + repository + revision, host, device + drain);
    lemma_read_number_field(record, at_host, settings.maximum_host_memory_bytes as nat, 8);
    assert(record =~= (magic + version + repository + revision + host) + device + drain);
    lemma_middle(magic + version + repository + revision + host, device, drain);
    lemma_read_number_field(record, at_device, settings.maximum_device_memory_bytes as nat, 8);
    assert(record =~= (magic + version + repository + revision + host + device) + drain + Seq::<u8>::empty());
    lemma_middle(magic + version + repository + revision + host + device, drain, Seq::empty());
    lemma_read_number_field(record, at_drain, settings.drain_timeout_milliseconds as nat, 8);
}

/// Stored catalogue entries read back unchanged: decoding the record written
/// for a valid model record whose strings fit the format gives the same record.
#[verifier::rlimit(60)]
pub proof fn lemma_model_round_trip(record: ModelRecordView)
    requires
        encode_model_result(record) is Ok,
        model_defect(record) is None,
    ensures
        decode_model_result(model_record(record)) == Ok::<ModelRecordView, RecordFailure>(record),
{
    let bytes = model_record(record);
    let magic = model_magic();
    let version = le_bytes(RECORD_VERSION as nat, 2);
    let name = string_field(record.name);
    let repository = string_field(record.repository);
    let revision = string_field(record.revision);
    let code = seq![scalar_code(record.scalar_type)];
    let used = le_bytes(record.last_used_unix_milliseconds as nat, 8);
    lemma_le_bytes_len(RECORD_VERSION as nat, 2);
    lemma_le_bytes_len(record.last_used_unix_milliseconds as nat, 8);
    lemma_le_bytes_len(encode_utf8(record.name).len(), 4);
    lemma_le_bytes_len(encode_utf8(record.repository).len(), 4);
    lemma_le_bytes_len(encode_utf8(record.revision).len(), 4);
    reveal_with_fuel(byte_range, 9);
    reveal_with_fuel(le_bytes, 2);
    assert(code =~= le_bytes(scalar_code(record.scalar_type) as nat, 1));
    let at_name = 6int;
    let at_repository = at_name + name.len();
    let at_revision = at_repository + repository.len();
    let at_code = at_revision + revision.len();
    let at_used = at_code + 1;
    assert(bytes =~= Seq::<u8>::empty() + magic + (version + name + repository + revision + code
        + used));
    lemma_middle(Seq::empty(), magic, version + name + repository + revision + code + used);
    assert(bytes.subrange(0, 4) =~= magic);
    assert(bytes =~= magic + version + (name + repository + revision + code + used));
    lemma_middle(magic, version, name + repository + revision + code + used);
    lemma_read_number_field(bytes, 4, RECORD_VERSION as nat, 2);
    assert(bytes =~= (magic + version) + name + (repository + revision + code + used));
    lemma_middle(magic + version, name, repository + revision + code + used);
    lemma_read_text_field(bytes, at_name, record.name);
    assert(bytes =~= (magic + version + name) + repository + (revision + code + used));
    lemma_middle(magic + version + name, repository, revision + code + used);
    lemma_read_text_field(bytes, at_repository, record.repository);
    assert(bytes =~= (magic + version + name + repository) + revision + (code + used));
    lemma_middle(magic + version + name + repository, revision, code + used);
    lemma_read_text_field(bytes, at_revision, record.revision);
    assert(bytes =~= (magic + version + name + repository + revision) + code + used);
    lemma_middle(magic + version + name + repository + revision, code, used);
    lemma_read_number_field(bytes, at_code, scalar_code(record.scalar_type) as nat, 1);
    assert(bytes =~= (magic + version + name + repository + revision + code) + used
        + Seq::<u8>::empty());
    lemma_middle(magic + version + name + repository + revision + code, used, Seq::empty());
    lemma_read_number_field(bytes, at_used, record.last_used_unix_milliseconds as nat, 8);
}


/// A string field that reads successfully is the encoding of its text.
proof fn lemma_text_field_encoding(bytes: Seq<u8>, offset: int)
    requires
        0 <= offset,
        read_text(bytes, offset) is Ok,
    ensures
        read_text(bytes, offset) matches Ok((next, text)) && fits(text) && next == offset
            + string_field(text).len() && next <= bytes.len() && bytes.subrange(offset, next)
            == string_field(text),
{
    lemma_little_endian_encoding(bytes, offset, 4);
    reveal_with_fuel(byte_range, 5);
    let length = little_endian(bytes, offset, 4);
    let content = bytes.subrange(offset + 4, offset + 4 + length);
    vstd::utf8::decode_utf8_encode_utf8(content);
    lemma_le_bytes_len(length as nat, 4);
    assert(bytes.subrange(offset, offset + 4 + length) =~= bytes.subrange(offset, offset + 4)
        + content);
}

/// A number that reads successfully is the encoding of its value.
proof fn lemma_number_field_encoding(bytes: Seq<u8>, offset: int, width: nat)
    requires
        0 <= offset,
        read_number(bytes, offset, width as int) is Ok,
    ensures
        read_number(bytes, offset, width as int) matches Ok((next, value)) && next == offset + width
            && 0 <= value < byte_range(width) && bytes.subrange(offset, next) == le_bytes(
            value as nat,
            width,
        ),
{
    lemma_little_endian_encoding(bytes, offset, width);
}

/// The settings decoder accepts only what the encoder writes: bytes that
/// decode to settings are exactly the record written for those settings.
pub proof fn lemma_settings_records_are_canonical(bytes: Seq<u8>)
    requires
        decode_settings_result(bytes) is Ok,
    ensures
        decode_settings_result(bytes) matches Ok(settings) && encode_settings_result(settings)
            == Ok::<Seq<u8>, RecordFailure>(bytes),
{
    reveal_with_fuel(byte_range, 9);
    lemma_number_field_encoding(bytes, 4, 2);
    lemma_text_field_encoding(bytes, 6);
    let (at_revision, repository) = read_text(bytes, 6)->Ok_0;
    lemma_text_field_encoding(bytes, at_revision);
    let (at_host, revision) = read_text(bytes, at_revision)->Ok_0;
    lemma_number_field_encoding(bytes, at_host, 8);
    lemma_number_field_encoding(bytes, at_host + 8, 8);
    lemma_number_field_encoding(bytes, at_host + 16, 8);
    let settings = decode_settings_result(bytes)->Ok_0;
    assert(bytes.subrange(0, 4) =~= settings_magic());
    assert(bytes =~= bytes.subrange(0, 4) + bytes.subrange(4, 6) + bytes.subrange(6, at_revision)
        + bytes.subrange(at_revision, at_host) + bytes.subrange(at_host, at_host + 8)
        + bytes.subrange(at_host + 8, at_host + 16) + bytes.subrange(at_host + 16, at_host + 24));
    assert(bytes =~= settings_record(settings));
}

/// The model decoder accepts only what the encoder writes: bytes that decode
/// to a model record are exactly the record written for it.
#[verifier::rlimit(60)]
pub proof fn lemma_model_records_are_canonical(bytes: Seq<u8>)
    requires
        decode_model_result(bytes) is Ok,
    ensures
        decode_model_result(bytes) matches Ok(record) && encode_model_result(record)
            == Ok::<Seq<u8>, RecordFailure>(bytes),
{
    reveal_with_fuel(byte_range, 9);
    reveal_with_fuel(le_bytes, 2);
    lemma_number_field_encoding(bytes, 4, 2);
    lemma_text_field_encoding(bytes, 6);
    let (at_repository, name) = read_text(bytes, 6)->Ok_0;
    lemma_text_field_encoding(bytes, at_repository);
    let (at_revision, repository) = read_text(bytes, at_repository)->Ok_0;
    lemma_text_field_encoding(bytes, at_revision);
    let (at_code, revision) = read_text(bytes, at_revision)->Ok_0;
    lemma_number_field_encoding(bytes, at_code, 1);
    lemma_number_field_encoding(bytes, at_code + 1, 8);
    let record = decode_model_result(bytes)->Ok_0;
    assert(bytes.subrange(0, 4) =~= model_magic());
    assert(bytes.subrange(at_code, at_code + 1) =~= seq![scalar_code(record.scalar_type)]);
    assert(bytes =~= bytes.subrange(0, 4) + bytes.subrange(4, 6) + bytes.subrange(6, at_repository)
        + bytes.subrange(at_repository, at_revision) + bytes.subrange(at_revision, at_code)
        + bytes.subrange(at_code, at_code + 1) + bytes.subrange(at_code + 1, at_code + 9));
    assert(bytes =~= model_record(record));
}


/// A model record may be persisted exactly when its name, repository and
/// revision are all non-blank; otherwise the first blank one, in that order,
/// is reported.
pub proof fn lemma_model_records_need_every_identity_field(record: ModelRecordView)
    ensures
        model_defect(record) is None <==> (!is_blank(record.name) && !is_blank(record.repository)
            && !is_blank(record.revision)),
        is_blank(record.name) ==> model_defect(record) == Some(Field::ModelName),
        !is_blank(record.name) && is_blank(record.repository) ==> model_defect(record) == Some(
            Field::Repository,
        ),
        !is_blank(record.name) && !is_blank(record.repository) && is_blank(record.revision)
            ==> model_defect(record) == Some(Field::Revision),
{
}

/// Settings may be persisted exactly when the repository and revision are
/// non-blank and the drain timeout is positive; otherwise the first defect,
/// in that order, is reported.
pub proof fn lemma_settings_need_a_selection_and_a_drain_timeout(settings: SettingsView)
    ensures
        settings_defect(settings) is None <==> (!is_blank(settings.default_repository) && !is_blank(
            settings.default_revision,
        ) && settings.drain_timeout_milliseconds > 0),
        is_blank(settings.default_repository) ==> settings_defect(settings) == Some(
            Field::Repository,
        ),
        !is_blank(settings.default_repository) && is_blank(settings.default_revision)
            ==> settings_defect(settings) == Some(Field::Revision),
        !is_blank(settings.default_repository) && !is_blank(settings.default_revision)
            && settings.drain_timeout_milliseconds == 0 ==> settings_defect(settings) == Some(
            Field::DrainTimeout,
        ),
{
}

/// A record with a blank field never survives storage: a blank model record
/// is refused when written and, should its bytes be stored, when read back.
pub proof fn lemma_blank_model_records_are_refused(record: ModelRecordView, bytes: Seq<u8>)
    requires
        is_blank(record.name) || is_blank(record.repository) || is_blank(record.revision),
    ensures
        model_defect(record) is Some,
        decode_model_result(bytes) matches Ok(decoded) ==> decoded != record,
{
}

} // verus!
