//! Bounded inspection of GGUF metadata held in memory.

use vstd::prelude::*;
use vstd::string::StringExecFns;
use vstd::utf8::valid_utf8;

use crate::bytes::{
    bytes_equal, copy_range, lemma_little_endian_1, lemma_little_endian_2, lemma_little_endian_4,
    lemma_little_endian_8,
};
use crate::text::{starts_with_text, utf8_string};
use super::format::{
    CollectedView, DimensionField, FULL_STOP, GGUF_VERSION_2, GGUF_VERSION_3, GgufInspectionLimits,
    GgufMetadataView, MetadataFailure, ModelArchitecture, QuantizationFormat, ScalarType, TYPE_ARRAY,
    TYPE_BOOL, TYPE_FLOAT32, TYPE_FLOAT64, TYPE_INT16, TYPE_INT32, TYPE_INT64, TYPE_INT8,
    TYPE_STRING, TYPE_UINT16, TYPE_UINT32, TYPE_UINT64, TYPE_UINT8, architecture_prefix_of,
    classify, dimension_of, dimension_value, empty_collected, finish_collected, fixed_width_of,
    fnv1a, inspect_header_bytes, read_entries,
    read_entry, read_entry_value, read_integer_value, read_string_bytes, read_token_array_bytes,
    read_unsigned, required_dimension, scalar_and_quantization_of, shortage, skip_string_bytes, skip_strings, skip_value_bytes, take_bytes, window, with_dimension,
};

verus! {

/// `std::io::Error`, carried opaquely in read and open failures.
#[verifier::external_type_specification]
#[verifier::external_body]
pub struct ExIoError(std::io::Error);

/// Failure while reading a bounded GGUF metadata header.
#[derive(Debug)]
pub enum MetadataError {
    /// The model file could not be opened.
    Open(std::io::Error),
    /// The file ended early or an I/O operation failed.
    Read(std::io::Error),
    /// The magic, version, value type, or required metadata is invalid.
    InvalidFormat,
    /// A configured metadata limit was exceeded.
    LimitExceeded,
    /// A required numeric value is zero or internally inconsistent.
    InvalidValue,
    /// A conversion or size calculation overflowed.
    NumericOverflow,
    /// A required string is not valid UTF-8.
    InvalidUtf8,
}

/// `error` is how inspection reports `failure`.
pub open spec fn reports(error: MetadataError, failure: MetadataFailure) -> bool {
    match failure {
        MetadataFailure::Truncated => error is Read,
        MetadataFailure::InvalidFormat => error is InvalidFormat,
        MetadataFailure::LimitExceeded => error is LimitExceeded,
        MetadataFailure::InvalidValue => error is InvalidValue,
        MetadataFailure::NumericOverflow => error is NumericOverflow,
        MetadataFailure::InvalidUtf8 => error is InvalidUtf8,
    }
}


/// Renders an I/O error with its `Display` implementation
/// (`std::io::Error::to_string`); nothing is claimed about the text.
#[verifier::external_body]
fn io_error_text(error: &std::io::Error) -> String {
    error.to_string()
}

impl MetadataError {
    /// Describes the failure for people.
    pub fn message(&self) -> (text: String)
        ensures
            match self {
                MetadataError::Open(_) => starts_with_text(text@, "failed to open GGUF file: "@),
                MetadataError::Read(_) => starts_with_text(
                    text@,
                    "failed to read GGUF metadata: "@,
                ),
                MetadataError::InvalidFormat => text@ == "GGUF metadata format is invalid"@,
                MetadataError::LimitExceeded => text@ == "GGUF metadata inspection limit exceeded"@,
                MetadataError::InvalidValue => text@ == "GGUF metadata value is invalid"@,
                MetadataError::NumericOverflow => text@ == "GGUF metadata numeric value overflowed"@,
                MetadataError::InvalidUtf8 => text@ == "GGUF metadata string is not valid UTF-8"@,
            },
    {
        match self {
            MetadataError::Open(error) => {
                let text = "failed to open GGUF file: ".to_owned().concat(io_error_text(error).as_str());
                assert(text@.subrange(0, "failed to open GGUF file: "@.len() as int)
                    =~= "failed to open GGUF file: "@);
                text
            },
            MetadataError::Read(error) => {
                let text = "failed to read GGUF metadata: ".to_owned().concat(
                    io_error_text(error).as_str(),
                );
                assert(text@.subrange(0, "failed to read GGUF metadata: "@.len() as int)
                    =~= "failed to read GGUF metadata: "@);
                text
            },
            MetadataError::InvalidFormat => "GGUF metadata format is invalid".to_owned(),
            MetadataError::LimitExceeded => "GGUF metadata inspection limit exceeded".to_owned(),
            MetadataError::InvalidValue => "GGUF metadata value is invalid".to_owned(),
            MetadataError::NumericOverflow => "GGUF metadata numeric value overflowed".to_owned(),
            MetadataError::InvalidUtf8 => "GGUF metadata string is not valid UTF-8".to_owned(),
        }
    }
}

/// Builds the read failure for a header that ends early.
///
/// Trusted: constructs `std::io::Error` from `ErrorKind::UnexpectedEof`;
/// nothing is claimed about the value.
#[verifier::external_body]
fn header_ended_early() -> std::io::Error {
    std::io::Error::from(std::io::ErrorKind::UnexpectedEof)
}

/// Position within header bytes, bounded by the inspection limits.
struct HeaderCursor<'a> {
    bytes: &'a [u8],
    position: usize,
    limits: GgufInspectionLimits,
}

/// The cursor has not passed the readable window.
spec fn cursor_valid(cursor: HeaderCursor) -> bool {
    cursor.position <= window(cursor.bytes@, cursor.limits.maximum_header_bytes)
}

/// Both cursors read the same bytes under the same limits.
spec fn same_input(a: HeaderCursor, b: HeaderCursor) -> bool {
    a.bytes@ == b.bytes@ && a.limits == b.limits
}

impl<'a> HeaderCursor<'a> {
    /// Starts reading at the first header byte.
    fn new(bytes: &'a [u8], limits: GgufInspectionLimits) -> (cursor: Self)
        ensures
            cursor.bytes@ == bytes@,
            cursor.limits == limits,
            cursor.position == 0,
            cursor_valid(cursor),
    {
        HeaderCursor { bytes, position: 0, limits }
    }

    /// Failure for a read past the readable window.
    fn shortage_error(&self) -> (error: MetadataError)
        ensures
            reports(error, shortage(self.bytes@, self.limits.maximum_header_bytes)),
    {
        if self.bytes.len() as u64 >= self.limits.maximum_header_bytes {
            MetadataError::LimitExceeded
        } else {
            MetadataError::Read(header_ended_early())
        }
    }

    /// Consumes `count` bytes, returning the position of the first one.
    fn read_exact(&mut self, count: u64) -> (result: Result<usize, MetadataError>)
        requires
            cursor_valid(*old(self)),
        ensures
            same_input(*final(self), *old(self)),
            cursor_valid(*final(self)),
            match take_bytes(
                old(self).bytes@,
                old(self).limits.maximum_header_bytes,
                old(self).position as int,
                count as int,
            ) {
                Ok(next) => result == Ok::<usize, MetadataError>(old(self).position)
                    && final(self).position == next,
                Err(failure) => result matches Err(error) && reports(error, failure),
            },
    {
        let length = self.bytes.len() as u64;
        let window = if length < self.limits.maximum_header_bytes {
            length
        } else {
            self.limits.maximum_header_bytes
        };
        let position = self.position as u64;
        if count > window - position {
            return Err(self.shortage_error());
        }
        let start = self.position;
        self.position = (position + count) as usize;
        Ok(start)
    }

    fn read_u8(&mut self) -> (result: Result<u8, MetadataError>)
        requires
            cursor_valid(*old(self)),
        ensures
            same_input(*final(self), *old(self)),
            cursor_valid(*final(self)),
            match read_unsigned(old(self).bytes@, old(self).limits, old(self).position as int, 1) {
                Ok((next, value)) => result == Ok::<u8, MetadataError>(value as u8)
                    && final(self).position == next && 0 <= value <= u8::MAX,
                Err(failure) => result matches Err(error) && reports(error, failure),
            },
    {
        let start = self.read_exact(1)?;
        proof {
            lemma_little_endian_1(self.bytes@, start as int);
        }
        Ok(self.bytes[start])
    }

    fn read_u16(&mut self) -> (result: Result<u16, MetadataError>)
        requires
            cursor_valid(*old(self)),
        ensures
            same_input(*final(self), *old(self)),
            cursor_valid(*final(self)),
            match read_unsigned(old(self).bytes@, old(self).limits, old(self).position as int, 2) {
                Ok((next, value)) => result == Ok::<u16, MetadataError>(value as u16)
                    && final(self).position == next && 0 <= value <= u16::MAX,
                Err(failure) => result matches Err(error) && reports(error, failure),
            },
    {
        let start = self.read_exact(2)?;
        proof {
            lemma_little_endian_2(self.bytes@, start as int);
        }
        let low = self.bytes[start] as u16;
        let high = self.bytes[start + 1] as u16;
        Ok(low + high * 256)
    }

    fn read_u32(&mut self) -> (result: Result<u32, MetadataError>)
        requires
            cursor_valid(*old(self)),
        ensures
            same_input(*final(self), *old(self)),
            cursor_valid(*final(self)),
            match read_unsigned(old(self).bytes@, old(self).limits, old(self).position as int, 4) {
                Ok((next, value)) => result == Ok::<u32, MetadataError>(value as u32)
                    && final(self).position == next && 0 <= value <= u32::MAX,
                Err(failure) => result matches Err(error) && reports(error, failure),
            },
    {
        let start = self.read_exact(4)?;
        proof {
            lemma_little_endian_4(self.bytes@, start as int);
        }
        let b0 = self.bytes[start] as u32;
        let b1 = self.bytes[start + 1] as u32;
        let b2 = self.bytes[start + 2] as u32;
        let b3 = self.bytes[start + 3] as u32;
        Ok(b0 + b1 * 256 + b2 * 65536 + b3 * 16777216)
    }

    fn read_u64(&mut self) -> (result: Result<u64, MetadataError>)
        requires
            cursor_valid(*old(self)),
        ensures
            same_input(*final(self), *old(self)),
            cursor_valid(*final(self)),
            match read_unsigned(old(self).bytes@, old(self).limits, old(self).position as int, 8) {
                Ok((next, value)) => result == Ok::<u64, MetadataError>(value as u64)
                    && final(self).position == next && 0 <= value <= u64::MAX,
                Err(failure) => result matches Err(error) && reports(error, failure),
            },
    {
        let start = self.read_exact(8)?;
        proof {
            lemma_little_endian_8(self.bytes@, start as int);
            lemma_little_endian_4(self.bytes@, start as int);
            lemma_little_endian_4(self.bytes@, start + 4);
        }
        let b0 = self.bytes[start] as u64;
        let b1 = self.bytes[start + 1] as u64;
        let b2 = self.bytes[start + 2] as u64;
        let b3 = self.bytes[start + 3] as u64;
        let b4 = self.bytes[start + 4] as u64;
        let b5 = self.bytes[start + 5] as u64;
        let b6 = self.bytes[start + 6] as u64;
        let b7 = self.bytes[start + 7] as u64;
        let low = b0 + b1 * 256 + b2 * 65536 + b3 * 16777216;
        let high = b4 + b5 * 256 + b6 * 65536 + b7 * 16777216;
        Ok(low + high * 4294967296)
    }
}

} // verus!

verus! {

impl<'a> HeaderCursor<'a> {
    /// Reads a non-negative integer of one of the eight integer value types.
    fn read_integer(&mut self, value_type: u32) -> (result: Result<u64, MetadataError>)
        requires
            cursor_valid(*old(self)),
        ensures
            same_input(*final(self), *old(self)),
            cursor_valid(*final(self)),
            match read_integer_value(
                old(self).bytes@,
                old(self).limits,
                old(self).position as int,
                value_type,
            ) {
                Ok((next, value)) => result == Ok::<u64, MetadataError>(value)
                    && final(self).position == next,
                Err(failure) => result matches Err(error) && reports(error, failure),
            },
    {
        if value_type == TYPE_UINT8 {
            Ok(self.read_u8()? as u64)
        } else if value_type == TYPE_UINT16 {
            Ok(self.read_u16()? as u64)
        } else if value_type == TYPE_UINT32 {
            Ok(self.read_u32()? as u64)
        } else if value_type == TYPE_UINT64 {
            self.read_u64()
        } else if value_type == TYPE_INT8 {
            let value = self.read_u8()?;
            signed_to_u64(value as u64, 0x80)
        } else if value_type == TYPE_INT16 {
            let value = self.read_u16()?;
            signed_to_u64(value as u64, 0x8000)
        } else if value_type == TYPE_INT32 {
            let value = self.read_u32()?;
            signed_to_u64(value as u64, 0x8000_0000)
        } else if value_type == TYPE_INT64 {
            let value = self.read_u64()?;
            signed_to_u64(value, 0x8000_0000_0000_0000)
        } else {
            Err(MetadataError::InvalidFormat)
        }
    }

    /// Reads a length-prefixed UTF-8 string of at most `maximum` bytes.
    fn read_string(&mut self, maximum: u64) -> (result: Result<Vec<u8>, MetadataError>)
        requires
            cursor_valid(*old(self)),
        ensures
            same_input(*final(self), *old(self)),
            cursor_valid(*final(self)),
            match read_string_bytes(old(self).bytes@, old(self).limits, old(self).position as int, maximum) {
                Ok((next, text)) => result matches Ok(value) && value@ == text
                    && final(self).position == next,
                Err(failure) => result matches Err(error) && reports(error, failure),
            },
    {
        let length = self.read_u64()?;
        if length > maximum {
            return Err(MetadataError::LimitExceeded);
        }
        if length > usize::MAX as u64 {
            return Err(MetadataError::NumericOverflow);
        }
        let start = self.read_exact(length)?;
        let end = self.position;
        let text = copy_range(self.bytes, start, end);
        match utf8_string(text.as_slice()) {
            Ok(_) => Ok(text),
            Err(_) => Err(MetadataError::InvalidUtf8),
        }
    }

    /// Passes over a length-prefixed string of at most `maximum` bytes.
    fn skip_string(&mut self, maximum: u64) -> (result: Result<(), MetadataError>)
        requires
            cursor_valid(*old(self)),
        ensures
            same_input(*final(self), *old(self)),
            cursor_valid(*final(self)),
            match skip_string_bytes(old(self).bytes@, old(self).limits, old(self).position as int, maximum) {
                Ok(next) => result is Ok && final(self).position == next,
                Err(failure) => result matches Err(error) && reports(error, failure),
            },
    {
        let length = self.read_u64()?;
        if length > maximum {
            return Err(MetadataError::LimitExceeded);
        }
        self.skip_bytes(length)
    }

    /// Passes over `remaining` bytes.
    fn skip_bytes(&mut self, remaining: u64) -> (result: Result<(), MetadataError>)
        requires
            cursor_valid(*old(self)),
        ensures
            same_input(*final(self), *old(self)),
            cursor_valid(*final(self)),
            match take_bytes(
                old(self).bytes@,
                old(self).limits.maximum_header_bytes,
                old(self).position as int,
                remaining as int,
            ) {
                Ok(next) => result is Ok && final(self).position == next,
                Err(failure) => result matches Err(error) && reports(error, failure),
            },
    {
        self.read_exact(remaining)?;
        Ok(())
    }

    /// Passes over `count` consecutive strings.
    fn skip_strings(&mut self, count: u64) -> (result: Result<(), MetadataError>)
        requires
            cursor_valid(*old(self)),
        ensures
            same_input(*final(self), *old(self)),
            cursor_valid(*final(self)),
            match skip_strings(old(self).bytes@, old(self).limits, old(self).position as int, count as nat) {
                Ok(next) => result is Ok && final(self).position == next,
                Err(failure) => result matches Err(error) && reports(error, failure),
            },
    {
        let ghost bytes = self.bytes@;
        let ghost limits = self.limits;
        let ghost goal = skip_strings(bytes, limits, self.position as int, count as nat);
        let mut done: u64 = 0;
        while done < count
            invariant
                same_input(*self, *old(self)),
                bytes == self.bytes@,
                limits == self.limits,
                cursor_valid(*self),
                done <= count,
                goal == skip_strings(bytes, limits, self.position as int, (count - done) as nat),
                goal == skip_strings(
                    old(self).bytes@,
                    old(self).limits,
                    old(self).position as int,
                    count as nat,
                ),
            decreases count - done,
        {
            let maximum = self.limits.maximum_string_bytes;
            let ghost before = self.position as int;
            assert(skip_strings(bytes, limits, before, (count - done) as nat) == match skip_string_bytes(
                bytes,
                limits,
                before,
                limits.maximum_string_bytes,
            ) {
                Err(failure) => Err(failure),
                Ok(next) => skip_strings(bytes, limits, next, (count - done - 1) as nat),
            });
            self.skip_string(maximum)?;
            done += 1;
        }
        Ok(())
    }

    /// Passes over one value of `value_type`, including flat arrays.
    fn skip_value(&mut self, value_type: u32) -> (result: Result<(), MetadataError>)
        requires
            cursor_valid(*old(self)),
        ensures
            same_input(*final(self), *old(self)),
            cursor_valid(*final(self)),
            match skip_value_bytes(old(self).bytes@, old(self).limits, old(self).position as int, value_type) {
                Ok(next) => result is Ok && final(self).position == next,
                Err(failure) => result matches Err(error) && reports(error, failure),
            },
    {
        match fixed_width(value_type) {
            Some(width) => self.skip_bytes(width),
            None => if value_type == TYPE_STRING {
                let maximum = self.limits.maximum_string_bytes;
                self.skip_string(maximum)
            } else if value_type == TYPE_ARRAY {
                let element_type = self.read_u32()?;
                if element_type == TYPE_ARRAY {
                    return Err(MetadataError::InvalidFormat);
                }
                let count = self.read_u64()?;
                validate_array_count(count, self.limits)?;
                match fixed_width(element_type) {
                    Some(width) => {
                        let bytes = match count.checked_mul(width) {
                            Some(bytes) => bytes,
                            None => {
                                return Err(MetadataError::NumericOverflow);
                            },
                        };
                        self.skip_bytes(bytes)
                    },
                    None => if element_type == TYPE_STRING {
                        self.skip_strings(count)
                    } else {
                        Err(MetadataError::InvalidFormat)
                    },
                }
            } else {
                Err(MetadataError::InvalidFormat)
            },
        }
    }
}

/// Rejects a negative two's-complement value whose unsigned encoding is `value`.
fn signed_to_u64(value: u64, threshold: u64) -> (result: Result<u64, MetadataError>)
    ensures
        value >= threshold ==> (result matches Err(error) && error is InvalidValue),
        value < threshold ==> result == Ok::<u64, MetadataError>(value),
{
    if value >= threshold {
        Err(MetadataError::InvalidValue)
    } else {
        Ok(value)
    }
}

/// Encoded width of a fixed-size value type.
fn fixed_width(value_type: u32) -> (width: Option<u64>)
    ensures
        width == fixed_width_of(value_type),
{
    if value_type == TYPE_UINT8 || value_type == TYPE_INT8 || value_type == TYPE_BOOL {
        Some(1)
    } else if value_type == TYPE_UINT16 || value_type == TYPE_INT16 {
        Some(2)
    } else if value_type == TYPE_UINT32 || value_type == TYPE_INT32 || value_type == TYPE_FLOAT32 {
        Some(4)
    } else if value_type == TYPE_UINT64 || value_type == TYPE_INT64 || value_type == TYPE_FLOAT64 {
        Some(8)
    } else {
        None
    }
}

/// Rejects arrays with more elements than the configured bound.
fn validate_array_count(count: u64, limits: GgufInspectionLimits) -> (result: Result<(), MetadataError>)
    ensures
        count > limits.maximum_array_elements ==> (result matches Err(error) && error is LimitExceeded),
        count <= limits.maximum_array_elements ==> result is Ok,
{
    if count > limits.maximum_array_elements {
        return Err(MetadataError::LimitExceeded);
    }
    Ok(())
}

} // verus!

verus! {

/// A dimension read from an `<architecture>.<field>` key, with the
/// architecture namespace it was found under.
struct ArchitectureValue {
    architecture: Vec<u8>,
    value: u32,
}

/// Metadata gathered while reading header entries.
struct CollectedMetadata {
    architecture: Option<Vec<u8>>,
    context_length: Option<ArchitectureValue>,
    block_count: Option<ArchitectureValue>,
    embedding_length: Option<ArchitectureValue>,
    attention_head_count: Option<ArchitectureValue>,
    attention_head_count_kv: Option<ArchitectureValue>,
    vocabulary_size: Option<u32>,
    file_type: Option<u16>,
}

spec fn dimension_view(value: Option<ArchitectureValue>) -> Option<(Seq<u8>, u32)> {
    match value {
        Some(found) => Some((found.architecture@, found.value)),
        None => None,
    }
}

spec fn collected_view(collected: CollectedMetadata) -> CollectedView {
    CollectedView {
        architecture: match collected.architecture {
            Some(name) => Some(name@),
            None => None,
        },
        context_length: dimension_view(collected.context_length),
        block_count: dimension_view(collected.block_count),
        embedding_length: dimension_view(collected.embedding_length),
        attention_head_count: dimension_view(collected.attention_head_count),
        attention_head_count_kv: dimension_view(collected.attention_head_count_kv),
        vocabulary_size: collected.vocabulary_size,
        file_type: collected.file_type,
    }
}

/// A gathered architecture name is valid UTF-8.
spec fn name_valid(collected: CollectedView) -> bool {
    collected.architecture matches Some(name) ==> valid_utf8(name)
}

impl CollectedMetadata {
    fn new() -> (collected: Self)
        ensures
            collected_view(collected) == empty_collected(),
    {
        CollectedMetadata {
            architecture: None,
            context_length: None,
            block_count: None,
            embedding_length: None,
            attention_head_count: None,
            attention_head_count_kv: None,
            vocabulary_size: None,
            file_type: None,
        }
    }

    fn has_dimension(&self, field: DimensionField) -> (present: bool)
        ensures
            present == dimension_value(collected_view(*self), field) is Some,
    {
        match field {
            DimensionField::ContextLength => self.context_length.is_some(),
            DimensionField::BlockCount => self.block_count.is_some(),
            DimensionField::EmbeddingLength => self.embedding_length.is_some(),
            DimensionField::HeadCountKv => self.attention_head_count_kv.is_some(),
            DimensionField::HeadCount => self.attention_head_count.is_some(),
        }
    }

    /// Records one dimension unless it was already recorded or does not fit in 32 bits.
    fn store_architecture_value(&mut self, field: DimensionField, architecture: Vec<u8>, value: u64) -> (result: Result<(), MetadataError>)
        ensures
            dimension_value(collected_view(*old(self)), field) is Some ==> (result matches Err(error)
                && error is InvalidFormat),
            dimension_value(collected_view(*old(self)), field) is None && value > u32::MAX ==> (
            result matches Err(error) && error is NumericOverflow),
            dimension_value(collected_view(*old(self)), field) is None && value <= u32::MAX ==> (
            result is Ok && collected_view(*final(self)) == with_dimension(
                collected_view(*old(self)),
                field,
                (architecture@, value as u32),
            )),
    {
        if self.has_dimension(field) {
            return Err(MetadataError::InvalidFormat);
        }
        if value > u32::MAX as u64 {
            return Err(MetadataError::NumericOverflow);
        }
        let found = Some(ArchitectureValue { architecture, value: value as u32 });
        match field {
            DimensionField::ContextLength => self.context_length = found,
            DimensionField::BlockCount => self.block_count = found,
            DimensionField::EmbeddingLength => self.embedding_length = found,
            DimensionField::HeadCountKv => self.attention_head_count_kv = found,
            DimensionField::HeadCount => self.attention_head_count = found,
        }
        Ok(())
    }
}

/// Length of the architecture namespace of `key` when it ends in `suffix`.
fn architecture_prefix(key: &[u8], suffix: &[u8]) -> (length: Option<usize>)
    ensures
        match architecture_prefix_of(key@, suffix@) {
            Some(prefix) => length matches Some(n) && n == prefix.len(),
            None => length is None,
        },
{
    if suffix.len() > key.len() {
        return None;
    }
    let split = key.len() - suffix.len();
    let mut index: usize = 0;
    while index < suffix.len()
        invariant
            split + suffix@.len() == key@.len(),
            key@.len() <= usize::MAX,
            index <= suffix@.len(),
            forall|j: int| 0 <= j < index ==> key@[split + j] == suffix@[j],
        decreases suffix@.len() - index,
    {
        if key[split + index] != suffix[index] {
            assert(key@.subrange(split as int, key@.len() as int)[index as int] != suffix@[index as int]);
            return None;
        }
        index += 1;
    }
    assert(key@.subrange(split as int, key@.len() as int) =~= suffix@);
    if split == 0 {
        return None;
    }
    let mut position: usize = 0;
    while position < split
        invariant
            split <= key@.len(),
            split + suffix@.len() == key@.len(),
            key@.subrange(split as int, key@.len() as int) == suffix@,
            position <= split,
            forall|j: int| 0 <= j < position ==> key@[j] != FULL_STOP,
        decreases split - position,
    {
        if key[position] == FULL_STOP {
            assert(key@.subrange(0, split as int)[position as int] == FULL_STOP);
            assert(key@.subrange(0, split as int).contains(FULL_STOP));
            return None;
        }
        position += 1;
    }
    assert(!key@.subrange(0, split as int).contains(FULL_STOP));
    Some(split)
}

/// The namespace found for a dimension key is the start of the key.
proof fn lemma_dimension_prefix(key: Seq<u8>)
    ensures
        dimension_of(key) matches Some((field, prefix)) ==> prefix.len() <= key.len() && prefix
            == key.subrange(0, prefix.len() as int),
{
}

/// The dimension a key carries and the length of its architecture namespace.
fn dimension_key(key: &[u8]) -> (found: Option<(DimensionField, usize)>)
    ensures
        match dimension_of(key@) {
            Some((field, prefix)) => found matches Some((f, n)) && f == field && n == prefix.len(),
            None => found is None,
        },
{
    if let Some(length) = architecture_prefix(key, ".context_length".as_bytes()) {
        Some((DimensionField::ContextLength, length))
    } else if let Some(length) = architecture_prefix(key, ".block_count".as_bytes()) {
        Some((DimensionField::BlockCount, length))
    } else if let Some(length) = architecture_prefix(key, ".embedding_length".as_bytes()) {
        Some((DimensionField::EmbeddingLength, length))
    } else if let Some(length) = architecture_prefix(key, ".attention.head_count_kv".as_bytes()) {
        Some((DimensionField::HeadCountKv, length))
    } else if let Some(length) = architecture_prefix(key, ".attention.head_count".as_bytes()) {
        Some((DimensionField::HeadCount, length))
    } else {
        None
    }
}

} // verus!

verus! {

impl<'a> HeaderCursor<'a> {
    /// Reads the token array whose element count is the vocabulary size.
    fn read_token_array(&mut self, value_type: u32, collected: &mut CollectedMetadata) -> (result: Result<(), MetadataError>)
        requires
            cursor_valid(*old(self)),
        ensures
            same_input(*final(self), *old(self)),
            cursor_valid(*final(self)),
            match read_token_array_bytes(
                old(self).bytes@,
                old(self).limits,
                old(self).position as int,
                value_type,
                collected_view(*old(collected)),
            ) {
                Ok((next, updated)) => result is Ok && final(self).position == next
                    && collected_view(*final(collected)) == updated,
                Err(failure) => result matches Err(error) && reports(error, failure),
            },
    {
        if value_type != TYPE_ARRAY {
            return Err(MetadataError::InvalidFormat);
        }
        let element_type = self.read_u32()?;
        let count = self.read_u64()?;
        validate_array_count(count, self.limits)?;
        if element_type != TYPE_STRING {
            return Err(MetadataError::InvalidFormat);
        }
        if collected.vocabulary_size.is_some() {
            return Err(MetadataError::InvalidFormat);
        }
        if count > u32::MAX as u64 {
            return Err(MetadataError::NumericOverflow);
        }
        collected.vocabulary_size = Some(count as u32);
        self.skip_strings(count)
    }

    /// Reads the value of one entry, recording the metadata the backend needs
    /// and passing over everything else.
    fn read_metadata_value(
        &mut self,
        key: &[u8],
        value_type: u32,
        collected: &mut CollectedMetadata,
    ) -> (result: Result<(), MetadataError>)
        requires
            cursor_valid(*old(self)),
        ensures
            same_input(*final(self), *old(self)),
            cursor_valid(*final(self)),
            match read_entry_value(
                old(self).bytes@,
                old(self).limits,
                old(self).position as int,
                key@,
                value_type,
                collected_view(*old(collected)),
            ) {
                Ok((next, updated)) => result is Ok && final(self).position == next
                    && collected_view(*final(collected)) == updated,
                Err(failure) => result matches Err(error) && reports(error, failure),
            },
            result is Ok && name_valid(collected_view(*old(collected))) ==> name_valid(
                collected_view(*final(collected)),
            ),
    {
        if bytes_equal(key, "general.architecture".as_bytes()) {
            if value_type != TYPE_STRING || collected.architecture.is_some() {
                return Err(MetadataError::InvalidFormat);
            }
            let maximum = self.limits.maximum_string_bytes;
            let name = self.read_string(maximum)?;
            collected.architecture = Some(name);
            return Ok(());
        }
        if bytes_equal(key, "general.file_type".as_bytes()) {
            if collected.file_type.is_some() {
                return Err(MetadataError::InvalidFormat);
            }
            let value = self.read_integer(value_type)?;
            if value > u16::MAX as u64 {
                return Err(MetadataError::NumericOverflow);
            }
            collected.file_type = Some(value as u16);
            return Ok(());
        }
        if bytes_equal(key, "tokenizer.ggml.tokens".as_bytes()) {
            return self.read_token_array(value_type, collected);
        }
        match dimension_key(key) {
            Some((field, length)) => {
                let value = self.read_integer(value_type)?;
                let architecture = copy_range(key, 0, length);
                proof {
                    lemma_dimension_prefix(key@);
                }
                collected.store_architecture_value(field, architecture, value)
            },
            None => {
                self.skip_value(value_type)
            },
        }
    }
}

} // verus!

verus! {

/// Stable metadata required for backend admission and context planning.
#[derive(Clone, Debug, PartialEq, Eq)]
pub struct GgufMetadata {
    architecture_name: String,
    architecture: ModelArchitecture,
    scalar_type: ScalarType,
    quantization: QuantizationFormat,
    vocabulary_size: u32,
    context_length: u32,
    block_count: u32,
    embedding_length: u32,
    attention_head_count: u32,
    attention_head_count_kv: u32,
    file_type: u16,
}

impl View for GgufMetadata {
    type V = GgufMetadataView;

    closed spec fn view(&self) -> GgufMetadataView {
        GgufMetadataView {
            architecture_name: self.architecture_name@,
            architecture: self.architecture,
            scalar_type: self.scalar_type,
            quantization: self.quantization,
            vocabulary_size: self.vocabulary_size,
            context_length: self.context_length,
            block_count: self.block_count,
            embedding_length: self.embedding_length,
            attention_head_count: self.attention_head_count,
            attention_head_count_kv: self.attention_head_count_kv,
            file_type: self.file_type,
        }
    }
}

/// A required dimension: present, from the model's own namespace, and non-zero.
fn required_architecture_value(value: &Option<ArchitectureValue>, architecture: &[u8]) -> (result: Result<u32, MetadataError>)
    ensures
        match required_dimension(dimension_view(*value), architecture@) {
            Ok(number) => result == Ok::<u32, MetadataError>(number),
            Err(failure) => result matches Err(error) && reports(error, failure),
        },
{
    match value {
        None => Err(MetadataError::InvalidFormat),
        Some(found) => {
            if !bytes_equal(found.architecture.as_slice(), architecture) || found.value == 0 {
                return Err(MetadataError::InvalidValue);
            }
            Ok(found.value)
        },
    }
}

/// A required count that must be present and non-zero.
fn required_non_zero(value: Option<u32>) -> (result: Result<u32, MetadataError>)
    ensures
        match value {
            Some(number) => number != 0 ==> result == Ok::<u32, MetadataError>(number),
            None => true,
        },
        (value is None || value == Some(0u32)) ==> (result matches Err(error)
            && error is InvalidValue),
{
    match value {
        Some(number) => if number != 0 {
            Ok(number)
        } else {
            Err(MetadataError::InvalidValue)
        },
        None => Err(MetadataError::InvalidValue),
    }
}

/// 32-bit FNV-1a hash of `bytes`.
fn fnv1a_32(bytes: &[u8]) -> (hash: u32)
    ensures
        hash == fnv1a(bytes@),
{
    let mut hash: u32 = 2_166_136_261;
    let mut index: usize = 0;
    while index < bytes.len()
        invariant
            index <= bytes@.len(),
            hash == fnv1a(bytes@.subrange(0, index as int)),
        decreases bytes@.len() - index,
    {
        proof {
            let next = bytes@.subrange(0, index + 1);
            assert(next.drop_last() =~= bytes@.subrange(0, index as int));
        }
        hash ^= bytes[index] as u32;
        hash = hash.wrapping_mul(16_777_619);
        index += 1;
    }
    assert(bytes@.subrange(0, bytes@.len() as int) =~= bytes@);
    hash
}

/// Architecture family named by a GGUF architecture string.
fn classify_architecture(name: &[u8]) -> (architecture: ModelArchitecture)
    ensures
        architecture == classify(name@),
{
    if bytes_equal(name, "llama".as_bytes()) {
        ModelArchitecture::Llama
    } else if bytes_equal(name, "mistral".as_bytes()) || bytes_equal(name, "mixtral".as_bytes()) {
        ModelArchitecture::Mistral
    } else if bytes_equal(name, "gemma".as_bytes()) || bytes_equal(name, "gemma2".as_bytes())
        || bytes_equal(name, "gemma3".as_bytes()) {
        ModelArchitecture::Gemma
    } else if bytes_equal(name, "qwen".as_bytes()) || bytes_equal(name, "qwen2".as_bytes())
        || bytes_equal(name, "qwen3".as_bytes()) {
        ModelArchitecture::Qwen
    } else {
        ModelArchitecture::Other(fnv1a_32(name))
    }
}

/// Scalar type and quantization named by a `general.file_type` code.
fn scalar_and_quantization(file_type: u16) -> (described: (ScalarType, QuantizationFormat))
    ensures
        described == scalar_and_quantization_of(file_type),
{
    if file_type == 0 {
        (ScalarType::F32, QuantizationFormat::Unquantized)
    } else if file_type == 1 {
        (ScalarType::F16, QuantizationFormat::Unquantized)
    } else {
        (ScalarType::Other(file_type), QuantizationFormat::Gguf(file_type))
    }
}

impl CollectedMetadata {
    /// Checks gathered metadata for completeness and consistency.
    fn finish(self) -> (result: Result<GgufMetadata, MetadataError>)
        requires
            name_valid(collected_view(self)),
        ensures
            match finish_collected(collected_view(self)) {
                Ok(view) => result matches Ok(metadata) && metadata@ == view,
                Err(failure) => result matches Err(error) && reports(error, failure),
            },
    {
        let name = match self.architecture {
            Some(name) => name,
            None => {
                return Err(MetadataError::InvalidFormat);
            },
        };
        let context_length = required_architecture_value(&self.context_length, name.as_slice())?;
        let block_count = required_architecture_value(&self.block_count, name.as_slice())?;
        let embedding_length = required_architecture_value(&self.embedding_length, name.as_slice())?;
        let attention_head_count = required_architecture_value(
            &self.attention_head_count,
            name.as_slice(),
        )?;
        let attention_head_count_kv = match &self.attention_head_count_kv {
            Some(_) => required_architecture_value(&self.attention_head_count_kv, name.as_slice())?,
            None => attention_head_count,
        };
        if attention_head_count_kv > attention_head_count || attention_head_count
            % attention_head_count_kv != 0 {
            return Err(MetadataError::InvalidValue);
        }
        let vocabulary_size = required_non_zero(self.vocabulary_size)?;
        let file_type = match self.file_type {
            Some(file_type) => file_type,
            None => {
                return Err(MetadataError::InvalidFormat);
            },
        };
        let (scalar_type, quantization) = scalar_and_quantization(file_type);
        let architecture = classify_architecture(name.as_slice());
        let architecture_name = match utf8_string(name.as_slice()) {
            Ok(text) => text,
            Err(_) => {
                return Err(MetadataError::InvalidUtf8);
            },
        };
        Ok(
            GgufMetadata {
                architecture_name,
                architecture,
                scalar_type,
                quantization,
                vocabulary_size,
                context_length,
                block_count,
                embedding_length,
                attention_head_count,
                attention_head_count_kv,
                file_type,
            },
        )
    }
}

} // verus!

verus! {

impl<'a> HeaderCursor<'a> {
    /// Reads one key/value entry.
    fn read_entry(&mut self, collected: &mut CollectedMetadata) -> (result: Result<(), MetadataError>)
        requires
            cursor_valid(*old(self)),
        ensures
            same_input(*final(self), *old(self)),
            cursor_valid(*final(self)),
            match read_entry(
                old(self).bytes@,
                old(self).limits,
                old(self).position as int,
                collected_view(*old(collected)),
            ) {
                Ok((next, updated)) => result is Ok && final(self).position == next
                    && collected_view(*final(collected)) == updated,
                Err(failure) => result matches Err(error) && reports(error, failure),
            },
            result is Ok && name_valid(collected_view(*old(collected))) ==> name_valid(
                collected_view(*final(collected)),
            ),
    {
        proof {
            reveal(read_entry);
        }
        let maximum = self.limits.maximum_string_bytes;
        let key = self.read_string(maximum)?;
        let value_type = self.read_u32()?;
        self.read_metadata_value(key.as_slice(), value_type, collected)
    }
}

/// Inspects GGUF metadata held in `bytes` without touching tensor data.
///
/// `bytes` is the start of the model file: the whole file, or its first
/// `limits.maximum_header_bytes` bytes when it is longer. A header that
/// needs more than that many bytes fails with `LimitExceeded`; one that
/// runs past the end of a shorter file fails with `Read`.
pub fn inspect_header(bytes: &[u8], limits: GgufInspectionLimits) -> (result: Result<
    GgufMetadata,
    MetadataError,
>)
    ensures
        match inspect_header_bytes(bytes@, limits) {
            Ok(view) => result matches Ok(metadata) && metadata@ == view,
            Err(failure) => result matches Err(error) && reports(error, failure),
        },
{
    let mut cursor = HeaderCursor::new(bytes, limits);
    cursor.read_exact(4)?;
    let magic = copy_range(bytes, 0, 4);
    if !bytes_equal(magic.as_slice(), "GGUF".as_bytes()) {
        return Err(MetadataError::InvalidFormat);
    }
    let version = cursor.read_u32()?;
    if version != GGUF_VERSION_2 && version != GGUF_VERSION_3 {
        return Err(MetadataError::InvalidFormat);
    }
    let _tensor_count = cursor.read_u64()?;
    let metadata_count = cursor.read_u64()?;
    if metadata_count > limits.maximum_metadata_entries {
        return Err(MetadataError::LimitExceeded);
    }
    let mut collected = CollectedMetadata::new();
    let ghost goal = read_entries(
        bytes@,
        limits,
        cursor.position as int,
        metadata_count as nat,
        empty_collected(),
    );
    let mut done: u64 = 0;
    while done < metadata_count
        invariant
            cursor.bytes@ == bytes@,
            cursor.limits == limits,
            cursor_valid(cursor),
            done <= metadata_count,
            name_valid(collected_view(collected)),
            inspect_header_bytes(bytes@, limits) == match goal {
                Err(failure) => Err(failure),
                Ok((_, gathered)) => finish_collected(gathered),
            },
            goal == read_entries(
                bytes@,
                limits,
                cursor.position as int,
                (metadata_count - done) as nat,
                collected_view(collected),
            ),
        decreases metadata_count - done,
    {
        let ghost before = cursor.position as int;
        let ghost gathered = collected_view(collected);
        assert(read_entries(bytes@, limits, before, (metadata_count - done) as nat, gathered)
            == match read_entry(bytes@, limits, before, gathered) {
            Err(failure) => Err(failure),
            Ok((next, updated)) => read_entries(
                bytes@,
                limits,
                next,
                (metadata_count - done - 1) as nat,
                updated,
            ),
        });
        if let Err(error) = cursor.read_entry(&mut collected) {
            return Err(error);
        }
        done += 1;
    }
    collected.finish()
}

impl GgufMetadata {
    /// Returns the GGUF architecture name as the file states it.
    pub fn architecture_name(&self) -> (name: &str)
        ensures
            name@ == self@.architecture_name,
    {
        self.architecture_name.as_str()
    }

    /// Returns the portable architecture classification.
    pub fn architecture(&self) -> (architecture: ModelArchitecture)
        ensures
            architecture == self@.architecture,
    {
        self.architecture
    }

    /// Returns the portable scalar representation.
    pub fn scalar_type(&self) -> (scalar_type: ScalarType)
        ensures
            scalar_type == self@.scalar_type,
    {
        self.scalar_type
    }

    /// Returns the GGUF quantization description.
    pub fn quantization(&self) -> (quantization: QuantizationFormat)
        ensures
            quantization == self@.quantization,
    {
        self.quantization
    }

    /// Returns the tokenizer vocabulary size.
    pub fn vocabulary_size(&self) -> (size: u32)
        ensures
            size == self@.vocabulary_size,
    {
        self.vocabulary_size
    }

    /// Returns the native model context length.
    pub fn context_length(&self) -> (length: u32)
        ensures
            length == self@.context_length,
    {
        self.context_length
    }

    /// Returns the transformer block count.
    pub fn block_count(&self) -> (count: u32)
        ensures
            count == self@.block_count,
    {
        self.block_count
    }

    /// Returns the embedding width.
    pub fn embedding_length(&self) -> (length: u32)
        ensures
            length == self@.embedding_length,
    {
        self.embedding_length
    }

    /// Returns the attention head count.
    pub fn attention_head_count(&self) -> (count: u32)
        ensures
            count == self@.attention_head_count,
    {
        self.attention_head_count
    }

    /// Returns the key/value attention head count.
    pub fn attention_head_count_kv(&self) -> (count: u32)
        ensures
            count == self@.attention_head_count_kv,
    {
        self.attention_head_count_kv
    }

    /// Returns `general.file_type` as a stable GGUF code.
    pub fn file_type(&self) -> (file_type: u16)
        ensures
            file_type == self@.file_type,
    {
        self.file_type
    }

    /// Bytes of native key/value cache needed per context token: both K and V
    /// are cached as F16 for every block.
    pub fn cache_bytes_per_token(&self) -> (result: Result<u64, MetadataError>)
        ensures
            match cache_bytes_per_token_of(self@) {
                Ok(bytes) => result == Ok::<u64, MetadataError>(bytes),
                Err(failure) => result matches Err(error) && reports(error, failure),
            },
    {
        if self.attention_head_count == 0 || self.embedding_length % self.attention_head_count != 0 {
            return Err(MetadataError::InvalidValue);
        }
        let head_width = (self.embedding_length / self.attention_head_count) as u64;
        let kv_heads = self.attention_head_count_kv as u64;
        assert(head_width * kv_heads <= u64::MAX) by (nonlinear_arith)
            requires
                head_width <= u32::MAX,
                kv_heads <= u32::MAX,
        ;
        let key_value_width = match head_width.checked_mul(kv_heads) {
            Some(width) => width,
            None => {
                return Err(MetadataError::NumericOverflow);
            },
        };
        let elements = match (self.block_count as u64).checked_mul(key_value_width) {
            Some(elements) => elements,
            None => {
                return Err(MetadataError::NumericOverflow);
            },
        };
        let both = match elements.checked_mul(2) {
            Some(both) => both,
            None => {
                return Err(MetadataError::NumericOverflow);
            },
        };
        match both.checked_mul(2) {
            Some(bytes) => Ok(bytes),
            None => Err(MetadataError::NumericOverflow),
        }
    }
}

/// Native key/value cache bytes per token: `block_count` blocks, each caching
/// K and V of `head_count_kv` heads of width `embedding_length / head_count`
/// at two bytes per element.
pub open spec fn cache_bytes_per_token_of(metadata: GgufMetadataView) -> Result<u64, MetadataFailure> {
    if metadata.attention_head_count == 0 || metadata.embedding_length
        % metadata.attention_head_count != 0 {
        Err(MetadataFailure::InvalidValue)
    } else {
        let bytes = metadata.block_count * ((metadata.embedding_length
            / metadata.attention_head_count) * metadata.attention_head_count_kv) * 4;
        if bytes > u64::MAX {
            Err(MetadataFailure::NumericOverflow)
        } else {
            Ok(bytes as u64)
        }
    }
}

} // verus!
