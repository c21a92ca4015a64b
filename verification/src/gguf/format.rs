//! The GGUF header format as a specification over bytes.

use vstd::prelude::*;
use vstd::string::StringSliceAdditionalSpecFns;
use vstd::utf8::{decode_utf8, valid_utf8};

use crate::bytes::little_endian;

verus! {

/// GGUF metadata value type codes.
pub const TYPE_UINT8: u32 = 0;
pub const TYPE_INT8: u32 = 1;
pub const TYPE_UINT16: u32 = 2;
pub const TYPE_INT16: u32 = 3;
pub const TYPE_UINT32: u32 = 4;
pub const TYPE_INT32: u32 = 5;
pub const TYPE_FLOAT32: u32 = 6;
pub const TYPE_BOOL: u32 = 7;
pub const TYPE_STRING: u32 = 8;
pub const TYPE_ARRAY: u32 = 9;
pub const TYPE_UINT64: u32 = 10;
pub const TYPE_INT64: u32 = 11;
pub const TYPE_FLOAT64: u32 = 12;

/// Supported GGUF container versions.
pub const GGUF_VERSION_2: u32 = 2;
pub const GGUF_VERSION_3: u32 = 3;

/// ASCII full stop, the separator between a key's namespace and field.
pub const FULL_STOP: u8 = 0x2e;

/// Bounds applied while inspecting a GGUF header.
#[derive(Clone, Copy, Debug, PartialEq, Eq, Structural)]
pub struct GgufInspectionLimits {
    /// Maximum number of header bytes read before inspection fails.
    pub maximum_header_bytes: u64,
    /// Maximum number of metadata key/value entries.
    pub maximum_metadata_entries: u64,
    /// Maximum byte length of one metadata string.
    pub maximum_string_bytes: u64,
    /// Maximum element count of one metadata array.
    pub maximum_array_elements: u64,
}

impl Default for GgufInspectionLimits {
    fn default() -> (limits: Self)
        ensures
            limits == (GgufInspectionLimits {
                maximum_header_bytes: 67_108_864,
                maximum_metadata_entries: 65_536,
                maximum_string_bytes: 1_048_576,
                maximum_array_elements: 4_194_304,
            }),
    {
        GgufInspectionLimits {
            maximum_header_bytes: 67_108_864,
            maximum_metadata_entries: 65_536,
            maximum_string_bytes: 1_048_576,
            maximum_array_elements: 4_194_304,
        }
    }
}

/// Why a header cannot be inspected.
#[derive(Clone, Copy, Debug, PartialEq, Eq, Structural)]
pub enum MetadataFailure {
    /// The bytes end before the header does.
    Truncated,
    /// The magic, version, value type, or required metadata is invalid.
    InvalidFormat,
    /// A configured metadata limit was exceeded.
    LimitExceeded,
    /// A required numeric value is zero or internally inconsistent.
    InvalidValue,
    /// A conversion or size calculation overflowed.
    NumericOverflow,
    /// A required string is not valid UTF-8.
    InvalidUtf8,
}

/// Portable architecture classification of a model.
#[derive(Clone, Copy, Debug, PartialEq, Eq, Structural)]
pub enum ModelArchitecture {
    /// Llama family.
    Llama,
    /// Mistral and Mixtral family.
    Mistral,
    /// Gemma family.
    Gemma,
    /// Qwen family.
    Qwen,
    /// Any other architecture, identified by the FNV-1a hash of its name.
    Other(u32),
}

/// Portable scalar representation of model weights.
#[derive(Clone, Copy, Debug, PartialEq, Eq, Structural)]
pub enum ScalarType {
    /// IEEE-754 32-bit floating point.
    F32,
    /// IEEE-754 16-bit floating point.
    F16,
    /// Format identified by its GGUF file-type code.
    Other(u16),
}

/// Weight quantization scheme.
#[derive(Clone, Copy, Debug, PartialEq, Eq, Structural)]
pub enum QuantizationFormat {
    /// Weights are stored unquantized.
    Unquantized,
    /// GGUF quantization identified by its file-type code.
    Gguf(u16),
}

/// Which transformer dimension a metadata key carries.
#[derive(Clone, Copy, Debug, PartialEq, Eq, Structural)]
pub enum DimensionField {
    /// `<architecture>.context_length`.
    ContextLength,
    /// `<architecture>.block_count`.
    BlockCount,
    /// `<architecture>.embedding_length`.
    EmbeddingLength,
    /// `<architecture>.attention.head_count_kv`.
    HeadCountKv,
    /// `<architecture>.attention.head_count`.
    HeadCount,
}

/// Metadata gathered while reading entries: each dimension keeps the
/// architecture namespace of the key it came from.
pub struct CollectedView {
    pub architecture: Option<Seq<u8>>,
    pub context_length: Option<(Seq<u8>, u32)>,
    pub block_count: Option<(Seq<u8>, u32)>,
    pub embedding_length: Option<(Seq<u8>, u32)>,
    pub attention_head_count: Option<(Seq<u8>, u32)>,
    pub attention_head_count_kv: Option<(Seq<u8>, u32)>,
    pub vocabulary_size: Option<u32>,
    pub file_type: Option<u16>,
}

/// Nothing gathered yet.
pub open spec fn empty_collected() -> CollectedView {
    CollectedView {
        architecture: None,
        context_length: None,
        block_count: None,
        embedding_length: None,
        attention_head_count: None,
        attention_head_count_kv: None,
        vocabulary_size: None,
        file_type: None,
    }
}

/// Inspection outcome: the facts a backend needs from the header.
pub struct GgufMetadataView {
    pub architecture_name: Seq<char>,
    pub architecture: ModelArchitecture,
    pub scalar_type: ScalarType,
    pub quantization: QuantizationFormat,
    pub vocabulary_size: u32,
    pub context_length: u32,
    pub block_count: u32,
    pub embedding_length: u32,
    pub attention_head_count: u32,
    pub attention_head_count_kv: u32,
    pub file_type: u16,
}

/// Bytes readable under the header bound.
pub open spec fn window(bytes: Seq<u8>, maximum_header_bytes: u64) -> int {
    if bytes.len() < maximum_header_bytes {
        bytes.len() as int
    } else {
        maximum_header_bytes as int
    }
}

/// Failure reported when a read would pass the readable window: the header
/// bound when the bytes reach it, the end of the bytes otherwise.
pub open spec fn shortage(bytes: Seq<u8>, maximum_header_bytes: u64) -> MetadataFailure {
    if bytes.len() >= maximum_header_bytes {
        MetadataFailure::LimitExceeded
    } else {
        MetadataFailure::Truncated
    }
}

/// Consuming `count` bytes at `position`: the position after them.
pub open spec fn take_bytes(bytes: Seq<u8>, maximum_header_bytes: u64, position: int, count: int) -> Result<
    int,
    MetadataFailure,
> {
    if position + count <= window(bytes, maximum_header_bytes) {
        Ok(position + count)
    } else {
        Err(shortage(bytes, maximum_header_bytes))
    }
}

/// An unsigned little-endian integer of `width` bytes.
pub open spec fn read_unsigned(bytes: Seq<u8>, limits: GgufInspectionLimits, position: int, width: int) -> Result<
    (int, int),
    MetadataFailure,
> {
    match take_bytes(bytes, limits.maximum_header_bytes, position, width) {
        Ok(next) => Ok((next, little_endian(bytes, position, width))),
        Err(failure) => Err(failure),
    }
}

/// Width in bytes and signedness of an integer value type.
pub open spec fn integer_layout(value_type: u32) -> Option<(int, bool)> {
    if value_type == TYPE_UINT8 {
        Some((1, false))
    } else if value_type == TYPE_UINT16 {
        Some((2, false))
    } else if value_type == TYPE_UINT32 {
        Some((4, false))
    } else if value_type == TYPE_UINT64 {
        Some((8, false))
    } else if value_type == TYPE_INT8 {
        Some((1, true))
    } else if value_type == TYPE_INT16 {
        Some((2, true))
    } else if value_type == TYPE_INT32 {
        Some((4, true))
    } else if value_type == TYPE_INT64 {
        Some((8, true))
    } else {
        None
    }
}

/// Smallest unsigned encoding of a negative two's-complement value.
pub open spec fn sign_threshold(width: int) -> int {
    if width == 1 {
        0x80
    } else if width == 2 {
        0x8000
    } else if width == 4 {
        0x8000_0000
    } else {
        0x8000_0000_0000_0000
    }
}

/// A non-negative integer value of the given type.
pub open spec fn read_integer_value(
    bytes: Seq<u8>,
    limits: GgufInspectionLimits,
    position: int,
    value_type: u32,
) -> Result<(int, u64), MetadataFailure> {
    match integer_layout(value_type) {
        None => Err(MetadataFailure::InvalidFormat),
        Some((width, signed)) => match read_unsigned(bytes, limits, position, width) {
            Err(failure) => Err(failure),
            Ok((next, value)) => if signed && value >= sign_threshold(width) {
                Err(MetadataFailure::InvalidValue)
            } else {
                Ok((next, value as u64))
            },
        },
    }
}

/// A length-prefixed string of at most `maximum` bytes that is valid UTF-8.
pub open spec fn read_string_bytes(
    bytes: Seq<u8>,
    limits: GgufInspectionLimits,
    position: int,
    maximum: u64,
) -> Result<(int, Seq<u8>), MetadataFailure> {
    match read_unsigned(bytes, limits, position, 8) {
        Err(failure) => Err(failure),
        Ok((start, length)) => if length > maximum {
            Err(MetadataFailure::LimitExceeded)
        } else if length > usize::MAX {
            Err(MetadataFailure::NumericOverflow)
        } else {
            match take_bytes(bytes, limits.maximum_header_bytes, start, length) {
                Err(failure) => Err(failure),
                Ok(end) => if valid_utf8(bytes.subrange(start, end)) {
                    Ok((end, bytes.subrange(start, end)))
                } else {
                    Err(MetadataFailure::InvalidUtf8)
                },
            }
        },
    }
}

/// Passing over a length-prefixed string of at most `maximum` bytes.
pub open spec fn skip_string_bytes(
    bytes: Seq<u8>,
    limits: GgufInspectionLimits,
    position: int,
    maximum: u64,
) -> Result<int, MetadataFailure> {
    match read_unsigned(bytes, limits, position, 8) {
        Err(failure) => Err(failure),
        Ok((start, length)) => if length > maximum {
            Err(MetadataFailure::LimitExceeded)
        } else {
            take_bytes(bytes, limits.maximum_header_bytes, start, length)
        },
    }
}

/// Passing over `count` consecutive strings.
pub open spec fn skip_strings(
    bytes: Seq<u8>,
    limits: GgufInspectionLimits,
    position: int,
    count: nat,
) -> Result<int, MetadataFailure>
    decreases count,
{
    if count == 0 {
        Ok(position)
    } else {
        match skip_string_bytes(bytes, limits, position, limits.maximum_string_bytes) {
            Err(failure) => Err(failure),
            Ok(next) => skip_strings(bytes, limits, next, (count - 1) as nat),
        }
    }
}

/// Encoded width of a fixed-size value type.
pub open spec fn fixed_width_of(value_type: u32) -> Option<u64> {
    if value_type == TYPE_UINT8 || value_type == TYPE_INT8 || value_type == TYPE_BOOL {
        Some(1)
    } else if value_type == TYPE_UINT16 || value_type == TYPE_INT16 {
        Some(2)
    } else if value_type == TYPE_UINT32 || value_type == TYPE_INT32 || value_type == TYPE_FLOAT32 {
        Some(4)
    } else if value_type == TYPE_UINT64 || value_type == TYPE_INT64 || value_type == TYPE_FLOAT64 {
        Some(8)
    } else {
        None
    }
}

/// Passing over one value of `value_type`, including flat arrays.
pub open spec fn skip_value_bytes(
    bytes: Seq<u8>,
    limits: GgufInspectionLimits,
    position: int,
    value_type: u32,
) -> Result<int, MetadataFailure> {
    match fixed_width_of(value_type) {
        Some(width) => take_bytes(bytes, limits.maximum_header_bytes, position, width as int),
        None => if value_type == TYPE_STRING {
            skip_string_bytes(bytes, limits, position, limits.maximum_string_bytes)
        } else if value_type == TYPE_ARRAY {
            match read_unsigned(bytes, limits, position, 4) {
                Err(failure) => Err(failure),
                Ok((after_type, element_type)) => if element_type == TYPE_ARRAY {
                    Err(MetadataFailure::InvalidFormat)
                } else {
                    match read_unsigned(bytes, limits, after_type, 8) {
                        Err(failure) => Err(failure),
                        Ok((after_count, count)) => if count > limits.maximum_array_elements {
                            Err(MetadataFailure::LimitExceeded)
                        } else {
                            match fixed_width_of(element_type as u32) {
                                Some(width) => if count * width > u64::MAX {
                                    Err(MetadataFailure::NumericOverflow)
                                } else {
                                    take_bytes(
                                        bytes,
                                        limits.maximum_header_bytes,
                                        after_count,
                                        count * width,
                                    )
                                },
                                None => if element_type == TYPE_STRING {
                                    skip_strings(bytes, limits, after_count, count as nat)
                                } else {
                                    Err(MetadataFailure::InvalidFormat)
                                },
                            }
                        },
                    }
                },
            }
        } else {
            Err(MetadataFailure::InvalidFormat)
        },
    }
}

/// The architecture namespace of `key` when it ends in `suffix`: the rest
/// of the key, which must be non-empty and contain no full stop.
pub open spec fn architecture_prefix_of(key: Seq<u8>, suffix: Seq<u8>) -> Option<Seq<u8>> {
    if suffix.len() <= key.len() && key.subrange(key.len() - suffix.len(), key.len() as int)
        == suffix {
        let prefix = key.subrange(0, key.len() - suffix.len());
        if prefix.len() > 0 && !prefix.contains(FULL_STOP) {
            Some(prefix)
        } else {
            None
        }
    } else {
        None
    }
}

/// The dimension carried by `key` and the key's architecture namespace,
/// trying the field suffixes in a fixed order.
pub open spec fn dimension_of(key: Seq<u8>) -> Option<(DimensionField, Seq<u8>)> {
    if let Some(prefix) = architecture_prefix_of(key, ".context_length".spec_bytes()) {
        Some((DimensionField::ContextLength, prefix))
    } else if let Some(prefix) = architecture_prefix_of(key, ".block_count".spec_bytes()) {
        Some((DimensionField::BlockCount, prefix))
    } else if let Some(prefix) = architecture_prefix_of(key, ".embedding_length".spec_bytes()) {
        Some((DimensionField::EmbeddingLength, prefix))
    } else if let Some(prefix) = architecture_prefix_of(key, ".attention.head_count_kv".spec_bytes()) {
        Some((DimensionField::HeadCountKv, prefix))
    } else if let Some(prefix) = architecture_prefix_of(key, ".attention.head_count".spec_bytes()) {
        Some((DimensionField::HeadCount, prefix))
    } else {
        None
    }
}

/// The gathered value of one dimension.
pub open spec fn dimension_value(collected: CollectedView, field: DimensionField) -> Option<(Seq<u8>, u32)> {
    match field {
        DimensionField::ContextLength => collected.context_length,
        DimensionField::BlockCount => collected.block_count,
        DimensionField::EmbeddingLength => collected.embedding_length,
        DimensionField::HeadCountKv => collected.attention_head_count_kv,
        DimensionField::HeadCount => collected.attention_head_count,
    }
}

/// `collected` with one dimension recorded.
pub open spec fn with_dimension(
    collected: CollectedView,
    field: DimensionField,
    value: (Seq<u8>, u32),
) -> CollectedView {
    match field {
        DimensionField::ContextLength => CollectedView { context_length: Some(value), ..collected },
        DimensionField::BlockCount => CollectedView { block_count: Some(value), ..collected },
        DimensionField::EmbeddingLength => CollectedView { embedding_length: Some(value), ..collected },
        DimensionField::HeadCountKv => CollectedView { attention_head_count_kv: Some(value), ..collected },
        DimensionField::HeadCount => CollectedView { attention_head_count: Some(value), ..collected },
    }
}

/// Reading the token array that determines the vocabulary size.
pub open spec fn read_token_array_bytes(
    bytes: Seq<u8>,
    limits: GgufInspectionLimits,
    position: int,
    value_type: u32,
    collected: CollectedView,
) -> Result<(int, CollectedView), MetadataFailure> {
    if value_type != TYPE_ARRAY {
        Err(MetadataFailure::InvalidFormat)
    } else {
        match read_unsigned(bytes, limits, position, 4) {
            Err(failure) => Err(failure),
            Ok((after_type, element_type)) => match read_unsigned(bytes, limits, after_type, 8) {
                Err(failure) => Err(failure),
                Ok((after_count, count)) => if count > limits.maximum_array_elements {
                    Err(MetadataFailure::LimitExceeded)
                } else if element_type != TYPE_STRING {
                    Err(MetadataFailure::InvalidFormat)
                } else if collected.vocabulary_size is Some {
                    Err(MetadataFailure::InvalidFormat)
                } else if count > u32::MAX {
                    Err(MetadataFailure::NumericOverflow)
                } else {
                    match skip_strings(bytes, limits, after_count, count as nat) {
                        Err(failure) => Err(failure),
                        Ok(end) => Ok(
                            (end, CollectedView { vocabulary_size: Some(count as u32), ..collected }),
                        ),
                    }
                },
            },
        }
    }
}

/// Reading the value of one entry whose key and type are known.
pub open spec fn read_entry_value(
    bytes: Seq<u8>,
    limits: GgufInspectionLimits,
    position: int,
    key: Seq<u8>,
    value_type: u32,
    collected: CollectedView,
) -> Result<(int, CollectedView), MetadataFailure> {
    if key == "general.architecture".spec_bytes() {
        if value_type != TYPE_STRING || collected.architecture is Some {
            Err(MetadataFailure::InvalidFormat)
        } else {
            match read_string_bytes(bytes, limits, position, limits.maximum_string_bytes) {
                Err(failure) => Err(failure),
                Ok((end, name)) => Ok((end, CollectedView { architecture: Some(name), ..collected })),
            }
        }
    } else if key == "general.file_type".spec_bytes() {
        if collected.file_type is Some {
            Err(MetadataFailure::InvalidFormat)
        } else {
            match read_integer_value(bytes, limits, position, value_type) {
                Err(failure) => Err(failure),
                Ok((end, value)) => if value > u16::MAX {
                    Err(MetadataFailure::NumericOverflow)
                } else {
                    Ok((end, CollectedView { file_type: Some(value as u16), ..collected }))
                },
            }
        }
    } else if key == "tokenizer.ggml.tokens".spec_bytes() {
        read_token_array_bytes(bytes, limits, position, value_type, collected)
    } else {
        match dimension_of(key) {
            Some((field, architecture)) => match read_integer_value(bytes, limits, position, value_type) {
                Err(failure) => Err(failure),
                Ok((end, value)) => if dimension_value(collected, field) is Some {
                    Err(MetadataFailure::InvalidFormat)
                } else if value > u32::MAX {
                    Err(MetadataFailure::NumericOverflow)
                } else {
                    Ok((end, with_dimension(collected, field, (architecture, value as u32))))
                },
            },
            None => match skip_value_bytes(bytes, limits, position, value_type) {
                Err(failure) => Err(failure),
                Ok(end) => Ok((end, collected)),
            },
        }
    }
}

/// Reading one key/value entry.
#[verifier::opaque]
pub open spec fn read_entry(
    bytes: Seq<u8>,
    limits: GgufInspectionLimits,
    position: int,
    collected: CollectedView,
) -> Result<(int, CollectedView), MetadataFailure> {
    match read_string_bytes(bytes, limits, position, limits.maximum_string_bytes) {
        Err(failure) => Err(failure),
        Ok((after_key, key)) => match read_unsigned(bytes, limits, after_key, 4) {
            Err(failure) => Err(failure),
            Ok((after_type, value_type)) => read_entry_value(
                bytes,
                limits,
                after_type,
                key,
                value_type as u32,
                collected,
            ),
        },
    }
}

/// Reading `remaining` consecutive entries.
pub open spec fn read_entries(
    bytes: Seq<u8>,
    limits: GgufInspectionLimits,
    position: int,
    remaining: nat,
    collected: CollectedView,
) -> Result<(int, CollectedView), MetadataFailure>
    decreases remaining,
{
    if remaining == 0 {
        Ok((position, collected))
    } else {
        match read_entry(bytes, limits, position, collected) {
            Err(failure) => Err(failure),
            Ok((next, updated)) => read_entries(bytes, limits, next, (remaining - 1) as nat, updated),
        }
    }
}

/// A required dimension: present, from the model's own architecture namespace, and non-zero.
pub open spec fn required_dimension(value: Option<(Seq<u8>, u32)>, architecture: Seq<u8>) -> Result<
    u32,
    MetadataFailure,
> {
    match value {
        None => Err(MetadataFailure::InvalidFormat),
        Some((namespace, number)) => if namespace != architecture || number == 0 {
            Err(MetadataFailure::InvalidValue)
        } else {
            Ok(number)
        },
    }
}

/// One FNV-1a step.
pub open spec fn fnv1a_step(hash: u32, byte: u8) -> u32 {
    (((hash ^ (byte as u32)) as nat * 16_777_619nat) % 0x1_0000_0000nat) as u32
}

/// 32-bit FNV-1a hash.
pub open spec fn fnv1a(bytes: Seq<u8>) -> u32
    decreases bytes.len(),
{
    if bytes.len() == 0 {
        2_166_136_261
    } else {
        fnv1a_step(fnv1a(bytes.drop_last()), bytes.last())
    }
}

/// Architecture family named by a GGUF architecture string.
pub open spec fn classify(name: Seq<u8>) -> ModelArchitecture {
    if name == "llama".spec_bytes() {
        ModelArchitecture::Llama
    } else if name == "mistral".spec_bytes() || name == "mixtral".spec_bytes() {
        ModelArchitecture::Mistral
    } else if name == "gemma".spec_bytes() || name == "gemma2".spec_bytes() || name
        == "gemma3".spec_bytes() {
        ModelArchitecture::Gemma
    } else if name == "qwen".spec_bytes() || name == "qwen2".spec_bytes() || name
        == "qwen3".spec_bytes() {
        ModelArchitecture::Qwen
    } else {
        ModelArchitecture::Other(fnv1a(name))
    }
}

/// Scalar type and quantization named by a `general.file_type` code.
pub open spec fn scalar_and_quantization_of(file_type: u16) -> (ScalarType, QuantizationFormat) {
    if file_type == 0 {
        (ScalarType::F32, QuantizationFormat::Unquantized)
    } else if file_type == 1 {
        (ScalarType::F16, QuantizationFormat::Unquantized)
    } else {
        (ScalarType::Other(file_type), QuantizationFormat::Gguf(file_type))
    }
}

/// Checking gathered metadata for completeness and consistency.
pub open spec fn finish_collected(collected: CollectedView) -> Result<GgufMetadataView, MetadataFailure> {
    match collected.architecture {
        None => Err(MetadataFailure::InvalidFormat),
        Some(name) => match required_dimension(collected.context_length, name) {
            Err(failure) => Err(failure),
            Ok(context_length) => match required_dimension(collected.block_count, name) {
                Err(failure) => Err(failure),
                Ok(block_count) => match required_dimension(collected.embedding_length, name) {
                    Err(failure) => Err(failure),
                    Ok(embedding_length) => match required_dimension(
                        collected.attention_head_count,
                        name,
                    ) {
                        Err(failure) => Err(failure),
                        Ok(head_count) => match (match collected.attention_head_count_kv {
                            Some(value) => required_dimension(Some(value), name),
                            None => Ok(head_count),
                        }) {
                            Err(failure) => Err(failure),
                            Ok(head_count_kv) => if head_count_kv > head_count || head_count
                                % head_count_kv != 0 {
                                Err(MetadataFailure::InvalidValue)
                            } else {
                                match collected.vocabulary_size {
                                    None => Err(MetadataFailure::InvalidValue),
                                    Some(vocabulary_size) => if vocabulary_size == 0 {
                                        Err(MetadataFailure::InvalidValue)
                                    } else {
                                        match collected.file_type {
                                            None => Err(MetadataFailure::InvalidFormat),
                                            Some(file_type) => Ok(
                                                GgufMetadataView {
                                                    architecture_name: decode_utf8(name),
                                                    architecture: classify(name),
                                                    scalar_type: scalar_and_quantization_of(
                                                        file_type,
                                                    ).0,
                                                    quantization: scalar_and_quantization_of(
                                                        file_type,
                                                    ).1,
                                                    vocabulary_size,
                                                    context_length,
                                                    block_count,
                                                    embedding_length,
                                                    attention_head_count: head_count,
                                                    attention_head_count_kv: head_count_kv,
                                                    file_type,
                                                },
                                            ),
                                        }
                                    },
                                }
                            },
                        },
                    },
                },
            },
        },
    }
}

/// Inspecting a GGUF header held in `bytes` (the whole file or a prefix of
/// it that reaches the header bound).
pub open spec fn inspect_header_bytes(bytes: Seq<u8>, limits: GgufInspectionLimits) -> Result<
    GgufMetadataView,
    MetadataFailure,
> {
    match take_bytes(bytes, limits.maximum_header_bytes, 0, 4) {
        Err(failure) => Err(failure),
        Ok(after_magic) => if bytes.subrange(0, 4) != "GGUF".spec_bytes() {
            Err(MetadataFailure::InvalidFormat)
        } else {
            match read_unsigned(bytes, limits, after_magic, 4) {
                Err(failure) => Err(failure),
                Ok((after_version, version)) => if version != GGUF_VERSION_2 && version
                    != GGUF_VERSION_3 {
                    Err(MetadataFailure::InvalidFormat)
                } else {
                    match read_unsigned(bytes, limits, after_version, 8) {
                        Err(failure) => Err(failure),
                        Ok((after_tensors, _tensor_count)) => match read_unsigned(
                            bytes,
                            limits,
                            after_tensors,
                            8,
                        ) {
                            Err(failure) => Err(failure),
                            Ok((after_count, entry_count)) => if entry_count
                                > limits.maximum_metadata_entries {
                                Err(MetadataFailure::LimitExceeded)
                            } else {
                                match read_entries(
                                    bytes,
                                    limits,
                                    after_count,
                                    entry_count as nat,
                                    empty_collected(),
                                ) {
                                    Err(failure) => Err(failure),
                                    Ok((_, collected)) => finish_collected(collected),
                                }
                            },
                        },
                    }
                },
            }
        },
    }
}

} // verus!
