//! GGUF metadata inspection over in-memory header bytes.

use llm_app::gguf::format::{
    GgufInspectionLimits, ModelArchitecture, QuantizationFormat, ScalarType,
};
use llm_app::gguf::metadata::{GgufMetadata, MetadataError, inspect_header};

fn write_key(output: &mut Vec<u8>, key: &str) {
    output.extend_from_slice(&(key.len() as u64).to_le_bytes());
    output.extend_from_slice(key.as_bytes());
}

fn write_string_value(output: &mut Vec<u8>, key: &str, value: &str) {
    write_key(output, key);
    output.extend_from_slice(&8_u32.to_le_bytes());
    output.extend_from_slice(&(value.len() as u64).to_le_bytes());
    output.extend_from_slice(value.as_bytes());
}

fn write_u32_value(output: &mut Vec<u8>, key: &str, value: u32) {
    write_key(output, key);
    output.extend_from_slice(&4_u32.to_le_bytes());
    output.extend_from_slice(&value.to_le_bytes());
}

fn write_token_array(output: &mut Vec<u8>, vocabulary_size: u64) {
    write_key(output, "tokenizer.ggml.tokens");
    output.extend_from_slice(&9_u32.to_le_bytes());
    output.extend_from_slice(&8_u32.to_le_bytes());
    output.extend_from_slice(&vocabulary_size.to_le_bytes());
    for index in 0..vocabulary_size {
        let token = format!("token-{index}");
        output.extend_from_slice(&(token.len() as u64).to_le_bytes());
        output.extend_from_slice(token.as_bytes());
    }
}

fn header(entries: u64) -> Vec<u8> {
    let mut bytes = Vec::new();
    bytes.extend_from_slice(b"GGUF");
    bytes.extend_from_slice(&3_u32.to_le_bytes());
    bytes.extend_from_slice(&0_u64.to_le_bytes());
    bytes.extend_from_slice(&entries.to_le_bytes());
    bytes
}

fn fixture_with_context_key(vocabulary_size: u64, context_key: &str) -> Vec<u8> {
    let mut bytes = header(9);
    write_string_value(&mut bytes, "general.architecture", "llama");
    write_u32_value(&mut bytes, "general.file_type", 7);
    write_u32_value(&mut bytes, context_key, 4_096);
    // Ends in `context_length` without being the model's primary context field.
    write_u32_value(
        &mut bytes,
        "llama.rope.scaling.original_context_length",
        16_384,
    );
    write_u32_value(&mut bytes, "llama.block_count", 2);
    write_u32_value(&mut bytes, "llama.embedding_length", 16);
    write_u32_value(&mut bytes, "llama.attention.head_count", 4);
    write_u32_value(&mut bytes, "llama.attention.head_count_kv", 2);
    write_token_array(&mut bytes, vocabulary_size);
    bytes
}

fn fixture(vocabulary_size: u64) -> Vec<u8> {
    fixture_with_context_key(vocabulary_size, "llama.context_length")
}

/// A minimal complete header for architecture `name` with the given file type.
fn minimal(name: &str, file_type: u32, head_count_kv: u32) -> Vec<u8> {
    let mut bytes = header(8);
    write_string_value(&mut bytes, "general.architecture", name);
    write_u32_value(&mut bytes, "general.file_type", file_type);
    write_u32_value(&mut bytes, &format!("{name}.context_length"), 512);
    write_u32_value(&mut bytes, &format!("{name}.block_count"), 1);
    write_u32_value(&mut bytes, &format!("{name}.embedding_length"), 8);
    write_u32_value(&mut bytes, &format!("{name}.attention.head_count"), 4);
    write_u32_value(&mut bytes, &format!("{name}.attention.head_count_kv"), head_count_kv);
    write_token_array(&mut bytes, 1);
    bytes
}

fn inspect(bytes: &[u8]) -> Result<GgufMetadata, MetadataError> {
    inspect_header(bytes, GgufInspectionLimits::default())
}

#[test]
fn inspects_required_transformer_metadata() -> Result<(), MetadataError> {
    let bytes = fixture(3);
    let metadata = inspect_header(&bytes, GgufInspectionLimits::default())?;

    assert_eq!(metadata.architecture_name(), "llama");
    assert_eq!(metadata.architecture(), ModelArchitecture::Llama);
    assert_eq!(metadata.scalar_type(), ScalarType::Other(7));
    assert_eq!(metadata.quantization(), QuantizationFormat::Gguf(7));
    assert_eq!(metadata.vocabulary_size(), 3);
    assert_eq!(metadata.context_length(), 4_096);
    assert_eq!(metadata.block_count(), 2);
    assert_eq!(metadata.embedding_length(), 16);
    assert_eq!(metadata.attention_head_count(), 4);
    assert_eq!(metadata.attention_head_count_kv(), 2);
    Ok(())
}

#[test]
fn rejects_dimensions_from_a_different_architecture_namespace() {
    let bytes = fixture_with_context_key(3, "mistral.context_length");
    let result = inspect_header(&bytes, GgufInspectionLimits::default());
    assert!(matches!(
        result,
        Err(MetadataError::InvalidValue | MetadataError::InvalidFormat)
    ));
}

#[test]
fn rejects_metadata_arrays_above_the_configured_bound() {
    let bytes = fixture(3);
    let result = inspect_header(
        &bytes,
        GgufInspectionLimits {
            maximum_header_bytes: 1_048_576,
            maximum_metadata_entries: 64,
            maximum_string_bytes: 1_024,
            maximum_array_elements: 2,
        },
    );
    assert!(matches!(result, Err(MetadataError::LimitExceeded)));
}

#[test]
fn rejects_headers_above_the_configured_byte_bound() {
    let bytes = fixture(3);
    let result = inspect_header(
        &bytes,
        GgufInspectionLimits {
            maximum_header_bytes: 16,
            ..GgufInspectionLimits::default()
        },
    );
    assert!(matches!(result, Err(MetadataError::LimitExceeded)));
}

#[test]
fn default_limits_are_the_documented_bounds() {
    let limits = GgufInspectionLimits::default();
    assert_eq!(limits.maximum_header_bytes, 67_108_864);
    assert_eq!(limits.maximum_metadata_entries, 65_536);
    assert_eq!(limits.maximum_string_bytes, 1_048_576);
    assert_eq!(limits.maximum_array_elements, 4_194_304);
}

#[test]
fn file_type_codes_select_scalar_and_quantization() -> Result<(), MetadataError> {
    let full = inspect(&minimal("llama", 0, 4))?;
    assert_eq!(full.scalar_type(), ScalarType::F32);
    assert_eq!(full.quantization(), QuantizationFormat::Unquantized);
    assert_eq!(full.file_type(), 0);
    let half = inspect(&minimal("llama", 1, 4))?;
    assert_eq!(half.scalar_type(), ScalarType::F16);
    assert_eq!(half.quantization(), QuantizationFormat::Unquantized);
    Ok(())
}

#[test]
fn architecture_families_are_classified_by_name() -> Result<(), MetadataError> {
    assert_eq!(inspect(&minimal("mixtral", 1, 4))?.architecture(), ModelArchitecture::Mistral);
    assert_eq!(inspect(&minimal("gemma2", 1, 4))?.architecture(), ModelArchitecture::Gemma);
    assert_eq!(inspect(&minimal("qwen3", 1, 4))?.architecture(), ModelArchitecture::Qwen);
    // FNV-1a of "a" is 0xe40c292c.
    let other = inspect(&minimal("a", 1, 4))?;
    assert_eq!(other.architecture(), ModelArchitecture::Other(0xe40c_292c));
    assert_eq!(other.architecture_name(), "a");
    Ok(())
}

#[test]
fn cache_bytes_cover_key_and_value_heads_of_every_block() -> Result<(), MetadataError> {
    // Two blocks, head width 16 / 4 = 4, two KV heads: 2 * 4 * 2 elements, K and V, two bytes each.
    let metadata = inspect(&fixture(3))?;
    assert_eq!(metadata.cache_bytes_per_token()?, 64);
    Ok(())
}

#[test]
fn head_counts_must_divide_evenly() {
    assert!(matches!(
        inspect(&minimal("llama", 1, 3)),
        Err(MetadataError::InvalidValue)
    ));
}

#[test]
fn missing_key_value_heads_default_to_the_head_count() -> Result<(), MetadataError> {
    let mut bytes = header(7);
    write_string_value(&mut bytes, "general.architecture", "llama");
    write_u32_value(&mut bytes, "general.file_type", 1);
    write_u32_value(&mut bytes, "llama.context_length", 512);
    write_u32_value(&mut bytes, "llama.block_count", 1);
    write_u32_value(&mut bytes, "llama.embedding_length", 8);
    write_u32_value(&mut bytes, "llama.attention.head_count", 4);
    write_token_array(&mut bytes, 1);
    assert_eq!(inspect(&bytes)?.attention_head_count_kv(), 4);
    Ok(())
}

#[test]
fn malformed_headers_are_rejected() {
    let mut bad_magic = fixture(3);
    bad_magic[0] = b'X';
    assert!(matches!(inspect(&bad_magic), Err(MetadataError::InvalidFormat)));

    let mut bad_version = fixture(3);
    bad_version[4] = 1;
    assert!(matches!(inspect(&bad_version), Err(MetadataError::InvalidFormat)));

    let complete = fixture(3);
    assert!(matches!(
        inspect(&complete[..complete.len() - 1]),
        Err(MetadataError::Read(_))
    ));

    let mut duplicate = header(2);
    write_string_value(&mut duplicate, "general.architecture", "llama");
    write_string_value(&mut duplicate, "general.architecture", "llama");
    assert!(matches!(inspect(&duplicate), Err(MetadataError::InvalidFormat)));

    let mut missing_file_type = header(1);
    write_string_value(&mut missing_file_type, "general.architecture", "llama");
    assert!(matches!(inspect(&missing_file_type), Err(MetadataError::InvalidFormat)));
}

#[test]
fn out_of_range_values_are_rejected() {
    let mut negative = header(1);
    write_key(&mut negative, "llama.block_count");
    negative.extend_from_slice(&1_u32.to_le_bytes());
    negative.push(0xff);
    assert!(matches!(inspect(&negative), Err(MetadataError::InvalidValue)));

    let mut wide_file_type = header(1);
    write_u32_value(&mut wide_file_type, "general.file_type", 70_000);
    assert!(matches!(inspect(&wide_file_type), Err(MetadataError::NumericOverflow)));

    let mut invalid_name = header(1);
    write_key(&mut invalid_name, "general.architecture");
    invalid_name.extend_from_slice(&8_u32.to_le_bytes());
    invalid_name.extend_from_slice(&1_u64.to_le_bytes());
    invalid_name.push(0xff);
    assert!(matches!(inspect(&invalid_name), Err(MetadataError::InvalidUtf8)));

    let mut no_tokens = header(7);
    write_string_value(&mut no_tokens, "general.architecture", "llama");
    write_u32_value(&mut no_tokens, "general.file_type", 1);
    write_u32_value(&mut no_tokens, "llama.context_length", 512);
    write_u32_value(&mut no_tokens, "llama.block_count", 1);
    write_u32_value(&mut no_tokens, "llama.embedding_length", 8);
    write_u32_value(&mut no_tokens, "llama.attention.head_count", 4);
    write_u32_value(&mut no_tokens, "unrelated.key", 4);
    assert!(matches!(inspect(&no_tokens), Err(MetadataError::InvalidValue)));
}

#[test]
fn unknown_values_are_skipped_and_bad_types_rejected() -> Result<(), MetadataError> {
    let mut bytes = header(10);
    write_string_value(&mut bytes, "general.name", "skipped");
    write_key(&mut bytes, "general.tags");
    bytes.extend_from_slice(&9_u32.to_le_bytes());
    bytes.extend_from_slice(&4_u32.to_le_bytes());
    bytes.extend_from_slice(&2_u64.to_le_bytes());
    bytes.extend_from_slice(&[0; 8]);
    write_string_value(&mut bytes, "general.architecture", "llama");
    write_u32_value(&mut bytes, "general.file_type", 2);
    write_u32_value(&mut bytes, "llama.context_length", 512);
    write_u32_value(&mut bytes, "llama.block_count", 1);
    write_u32_value(&mut bytes, "llama.embedding_length", 8);
    write_u32_value(&mut bytes, "llama.attention.head_count", 2);
    write_u32_value(&mut bytes, "llama.attention.head_count_kv", 1);
    write_token_array(&mut bytes, 2);
    let metadata = inspect(&bytes)?;
    assert_eq!(metadata.quantization(), QuantizationFormat::Gguf(2));
    assert_eq!(metadata.vocabulary_size(), 2);

    let mut nested = header(1);
    write_key(&mut nested, "general.nested");
    nested.extend_from_slice(&9_u32.to_le_bytes());
    nested.extend_from_slice(&9_u32.to_le_bytes());
    nested.extend_from_slice(&0_u64.to_le_bytes());
    assert!(matches!(inspect(&nested), Err(MetadataError::InvalidFormat)));

    let mut unknown_type = header(1);
    write_key(&mut unknown_type, "general.odd");
    unknown_type.extend_from_slice(&13_u32.to_le_bytes());
    assert!(matches!(inspect(&unknown_type), Err(MetadataError::InvalidFormat)));
    Ok(())
}

#[test]
fn entry_and_string_bounds_are_enforced() {
    let bytes = fixture(3);
    let few_entries = GgufInspectionLimits {
        maximum_metadata_entries: 8,
        ..GgufInspectionLimits::default()
    };
    assert!(matches!(
        inspect_header(&bytes, few_entries),
        Err(MetadataError::LimitExceeded)
    ));
    let short_strings = GgufInspectionLimits {
        maximum_string_bytes: 4,
        ..GgufInspectionLimits::default()
    };
    assert!(matches!(
        inspect_header(&bytes, short_strings),
        Err(MetadataError::LimitExceeded)
    ));
}

#[test]
fn metadata_failures_are_described_for_people() {
    assert_eq!(
        MetadataError::InvalidFormat.message(),
        "GGUF metadata format is invalid"
    );
    assert_eq!(
        MetadataError::LimitExceeded.message(),
        "GGUF metadata inspection limit exceeded"
    );
    assert_eq!(
        MetadataError::InvalidValue.message(),
        "GGUF metadata value is invalid"
    );
    assert_eq!(
        MetadataError::NumericOverflow.message(),
        "GGUF metadata numeric value overflowed"
    );
    assert_eq!(
        MetadataError::InvalidUtf8.message(),
        "GGUF metadata string is not valid UTF-8"
    );
    let complete = fixture(3);
    let truncated = inspect(&complete[..complete.len() - 1]).expect_err("truncated header");
    assert!(truncated
        .message()
        .starts_with("failed to read GGUF metadata: "));
}

#[test]
fn bytes_past_the_header_bound_do_not_matter() -> Result<(), MetadataError> {
    let header_only = fixture(3);
    let limits = GgufInspectionLimits {
        maximum_header_bytes: header_only.len() as u64,
        ..GgufInspectionLimits::default()
    };
    let mut with_tensors = header_only.clone();
    with_tensors.extend_from_slice(&[0xaa; 100]);
    assert_eq!(
        inspect_header(&with_tensors, limits)?,
        inspect_header(&header_only, limits)?
    );
    Ok(())
}
