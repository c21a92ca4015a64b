//! Facts about the GGUF header format as a whole.

use vstd::prelude::*;
use vstd::string::StringSliceAdditionalSpecFns;
use vstd::utf8::{decode_utf8_encode_utf8, encode_utf8, valid_utf8};

use crate::bytes::little_endian;
use super::format::{
    CollectedView, MetadataFailure, ModelArchitecture, classify, fnv1a, dimension_of, finish_collected, GgufMetadataView, GgufInspectionLimits, inspect_header_bytes,
    read_entries, read_entry, read_entry_value, read_integer_value, read_string_bytes,
    read_token_array_bytes, read_unsigned, shortage, take_bytes, skip_string_bytes, skip_strings,
    skip_value_bytes, window,
};

verus! {

/// Two byte sequences that inspection cannot tell apart: the same readable
/// window, the same failure past it, and the same bytes within it.
spec fn same_window(a: Seq<u8>, b: Seq<u8>, maximum_header_bytes: u64) -> bool {
    &&& window(a, maximum_header_bytes) == window(b, maximum_header_bytes)
    &&& shortage(a, maximum_header_bytes) == shortage(b, maximum_header_bytes)
    &&& forall|i: int| 0 <= i < window(a, maximum_header_bytes) ==> a[i] == b[i]
}

proof fn lemma_little_endian_window(a: Seq<u8>, b: Seq<u8>, maximum: u64, p: int, width: int)
    requires
        same_window(a, b, maximum),
        0 <= p,
        p + width <= window(a, maximum),
    ensures
        little_endian(a, p, width) == little_endian(b, p, width),
        little_endian(a, p, width) >= 0,
    decreases width,
{
    if width > 0 {
        lemma_little_endian_window(a, b, maximum, p + 1, width - 1);
    }
}

proof fn lemma_read_unsigned_window(a: Seq<u8>, b: Seq<u8>, limits: GgufInspectionLimits, p: int, width: int)
    requires
        same_window(a, b, limits.maximum_header_bytes),
        0 <= p,
        0 <= width,
    ensures
        read_unsigned(a, limits, p, width) == read_unsigned(b, limits, p, width),
        read_unsigned(a, limits, p, width) matches Ok((next, value)) ==> next >= p && value >= 0,
{
    if p + width <= window(a, limits.maximum_header_bytes) {
        lemma_little_endian_window(a, b, limits.maximum_header_bytes, p, width);
    }
}

proof fn lemma_read_string_window(a: Seq<u8>, b: Seq<u8>, limits: GgufInspectionLimits, p: int, maximum: u64)
    requires
        same_window(a, b, limits.maximum_header_bytes),
        0 <= p,
    ensures
        read_string_bytes(a, limits, p, maximum) == read_string_bytes(b, limits, p, maximum),
        read_string_bytes(a, limits, p, maximum) matches Ok((next, _)) ==> next >= p,
{
    lemma_read_unsigned_window(a, b, limits, p, 8);
    if let Ok((start, length)) = read_unsigned(a, limits, p, 8) {
        if start + length <= window(a, limits.maximum_header_bytes) {
            assert(a.subrange(start, start + length) =~= b.subrange(start, start + length));
        }
    }
}

proof fn lemma_skip_string_window(a: Seq<u8>, b: Seq<u8>, limits: GgufInspectionLimits, p: int, maximum: u64)
    requires
        same_window(a, b, limits.maximum_header_bytes),
        0 <= p,
    ensures
        skip_string_bytes(a, limits, p, maximum) == skip_string_bytes(b, limits, p, maximum),
        skip_string_bytes(a, limits, p, maximum) matches Ok(next) ==> next >= p,
{
    lemma_read_unsigned_window(a, b, limits, p, 8);
}

proof fn lemma_skip_strings_window(a: Seq<u8>, b: Seq<u8>, limits: GgufInspectionLimits, p: int, count: nat)
    requires
        same_window(a, b, limits.maximum_header_bytes),
        0 <= p,
    ensures
        skip_strings(a, limits, p, count) == skip_strings(b, limits, p, count),
        skip_strings(a, limits, p, count) matches Ok(next) ==> next >= p,
    decreases count,
{
    if count > 0 {
        lemma_skip_string_window(a, b, limits, p, limits.maximum_string_bytes);
        if let Ok(next) = skip_string_bytes(a, limits, p, limits.maximum_string_bytes) {
            lemma_skip_strings_window(a, b, limits, next, (count - 1) as nat);
        }
    }
}

proof fn lemma_skip_value_window(a: Seq<u8>, b: Seq<u8>, limits: GgufInspectionLimits, p: int, value_type: u32)
    requires
        same_window(a, b, limits.maximum_header_bytes),
        0 <= p,
    ensures
        skip_value_bytes(a, limits, p, value_type) == skip_value_bytes(b, limits, p, value_type),
        skip_value_bytes(a, limits, p, value_type) matches Ok(next) ==> next >= p,
{
    lemma_skip_string_window(a, b, limits, p, limits.maximum_string_bytes);
    lemma_read_unsigned_window(a, b, limits, p, 4);
    if let Ok((after_type, _)) = read_unsigned(a, limits, p, 4) {
        lemma_read_unsigned_window(a, b, limits, after_type, 8);
        if let Ok((after_count, count)) = read_unsigned(a, limits, after_type, 8) {
            lemma_skip_strings_window(a, b, limits, after_count, count as nat);
        }
    }
}

proof fn lemma_read_integer_window(a: Seq<u8>, b: Seq<u8>, limits: GgufInspectionLimits, p: int, value_type: u32)
    requires
        same_window(a, b, limits.maximum_header_bytes),
        0 <= p,
    ensures
        read_integer_value(a, limits, p, value_type) == read_integer_value(b, limits, p, value_type),
        read_integer_value(a, limits, p, value_type) matches Ok((next, _)) ==> next >= p,
{
    lemma_read_unsigned_window(a, b, limits, p, 1);
    lemma_read_unsigned_window(a, b, limits, p, 2);
    lemma_read_unsigned_window(a, b, limits, p, 4);
    lemma_read_unsigned_window(a, b, limits, p, 8);
}

proof fn lemma_read_token_array_window(
    a: Seq<u8>,
    b: Seq<u8>,
    limits: GgufInspectionLimits,
    p: int,
    value_type: u32,
    collected: CollectedView,
)
    requires
        same_window(a, b, limits.maximum_header_bytes),
        0 <= p,
    ensures
        read_token_array_bytes(a, limits, p, value_type, collected) == read_token_array_bytes(
            b,
            limits,
            p,
            value_type,
            collected,
        ),
        read_token_array_bytes(a, limits, p, value_type, collected) matches Ok((next, _)) ==> next
            >= p,
{
    lemma_read_unsigned_window(a, b, limits, p, 4);
    if let Ok((after_type, _)) = read_unsigned(a, limits, p, 4) {
        lemma_read_unsigned_window(a, b, limits, after_type, 8);
        if let Ok((after_count, count)) = read_unsigned(a, limits, after_type, 8) {
            lemma_skip_strings_window(a, b, limits, after_count, count as nat);
        }
    }
}

proof fn lemma_read_entry_window(
    a: Seq<u8>,
    b: Seq<u8>,
    limits: GgufInspectionLimits,
    p: int,
    collected: CollectedView,
)
    requires
        same_window(a, b, limits.maximum_header_bytes),
        0 <= p,
    ensures
        read_entry(a, limits, p, collected) == read_entry(b, limits, p, collected),
        read_entry(a, limits, p, collected) matches Ok((next, _)) ==> next >= p,
{
    reveal(read_entry);
    lemma_read_string_window(a, b, limits, p, limits.maximum_string_bytes);
    if let Ok((after_key, key)) = read_string_bytes(a, limits, p, limits.maximum_string_bytes) {
        lemma_read_unsigned_window(a, b, limits, after_key, 4);
        if let Ok((after_type, value_type)) = read_unsigned(a, limits, after_key, 4) {
            let t = value_type as u32;
            lemma_read_string_window(a, b, limits, after_type, limits.maximum_string_bytes);
            lemma_read_integer_window(a, b, limits, after_type, t);
            lemma_read_token_array_window(a, b, limits, after_type, t, collected);
            lemma_skip_value_window(a, b, limits, after_type, t);
            assert(read_entry_value(a, limits, after_type, key, t, collected) == read_entry_value(
                b,
                limits,
                after_type,
                key,
                t,
                collected,
            ));
        }
    }
}

proof fn lemma_read_entries_window(
    a: Seq<u8>,
    b: Seq<u8>,
    limits: GgufInspectionLimits,
    p: int,
    remaining: nat,
    collected: CollectedView,
)
    requires
        same_window(a, b, limits.maximum_header_bytes),
        0 <= p,
    ensures
        read_entries(a, limits, p, remaining, collected) == read_entries(
            b,
            limits,
            p,
            remaining,
            collected,
        ),
    decreases remaining,
{
    if remaining > 0 {
        lemma_read_entry_window(a, b, limits, p, collected);
        if let Ok((next, updated)) = read_entry(a, limits, p, collected) {
            lemma_read_entries_window(a, b, limits, next, (remaining - 1) as nat, updated);
        }
    }
}

/// Inspection reads nothing past the header bound: bytes that reach
/// `maximum_header_bytes` are inspected exactly as their first
/// `maximum_header_bytes` bytes are, so tensor data beyond the bound never
/// affects the outcome.
pub proof fn lemma_inspection_reads_only_the_bounded_header(
    bytes: Seq<u8>,
    limits: GgufInspectionLimits,
)
    requires
        bytes.len() >= limits.maximum_header_bytes,
    ensures
        inspect_header_bytes(bytes, limits) == inspect_header_bytes(
            bytes.subrange(0, limits.maximum_header_bytes as int),
            limits,
        ),
{
    let prefix = bytes.subrange(0, limits.maximum_header_bytes as int);
    assert(same_window(bytes, prefix, limits.maximum_header_bytes));
    if 4 <= window(bytes, limits.maximum_header_bytes) {
        assert(bytes.subrange(0, 4) =~= prefix.subrange(0, 4));
    }
    lemma_read_unsigned_window(bytes, prefix, limits, 4, 4);
    lemma_read_unsigned_window(bytes, prefix, limits, 8, 8);
    lemma_read_unsigned_window(bytes, prefix, limits, 16, 8);
    if let Ok((after_count, count)) = read_unsigned(bytes, limits, 16, 8) {
        lemma_read_entries_window(bytes, prefix, limits, after_count, count as nat, super::format::empty_collected());
    }
}


/// Every dimension of metadata that inspection accepts is positive, the
/// key/value head count divides the attention head count without exceeding
/// it, and the vocabulary is non-empty.
pub open spec fn consistent(metadata: GgufMetadataView) -> bool {
    &&& metadata.context_length > 0
    &&& metadata.block_count > 0
    &&& metadata.embedding_length > 0
    &&& metadata.attention_head_count > 0
    &&& 0 < metadata.attention_head_count_kv <= metadata.attention_head_count
    &&& metadata.attention_head_count % metadata.attention_head_count_kv == 0
    &&& metadata.vocabulary_size > 0
}

proof fn lemma_finished_metadata_is_consistent(collected: CollectedView)
    requires
        finish_collected(collected) is Ok,
    ensures
        consistent(finish_collected(collected)->Ok_0),
{
}

/// Metadata that inspection accepts is internally consistent.
pub proof fn lemma_accepted_metadata_is_consistent(bytes: Seq<u8>, limits: GgufInspectionLimits)
    requires
        inspect_header_bytes(bytes, limits) is Ok,
    ensures
        consistent(inspect_header_bytes(bytes, limits)->Ok_0),
{
    let (after_count, count) = read_unsigned(bytes, limits, 16, 8)->Ok_0;
    let (_, collected) = read_entries(
        bytes,
        limits,
        after_count,
        count as nat,
        super::format::empty_collected(),
    )->Ok_0;
    lemma_finished_metadata_is_consistent(collected);
}


/// A gathered architecture name is valid UTF-8.
spec fn name_is_text(collected: CollectedView) -> bool {
    collected.architecture matches Some(name) ==> valid_utf8(name)
}

proof fn lemma_entry_keeps_names_text(
    bytes: Seq<u8>,
    limits: GgufInspectionLimits,
    p: int,
    collected: CollectedView,
)
    requires
        name_is_text(collected),
    ensures
        read_entry(bytes, limits, p, collected) matches Ok((_, updated)) ==> name_is_text(updated),
{
    reveal(read_entry);
}

proof fn lemma_entries_keep_names_text(
    bytes: Seq<u8>,
    limits: GgufInspectionLimits,
    p: int,
    remaining: nat,
    collected: CollectedView,
)
    requires
        name_is_text(collected),
    ensures
        read_entries(bytes, limits, p, remaining, collected) matches Ok((_, updated))
            ==> name_is_text(updated),
    decreases remaining,
{
    if remaining > 0 {
        lemma_entry_keeps_names_text(bytes, limits, p, collected);
        if let Ok((next, updated)) = read_entry(bytes, limits, p, collected) {
            lemma_entries_keep_names_text(bytes, limits, next, (remaining - 1) as nat, updated);
        }
    }
}

/// The portable classification of accepted metadata is the classification
/// of its architecture name: the name is text whose UTF-8 encoding is the
/// string the file holds.
pub proof fn lemma_accepted_architecture_matches_its_name(bytes: Seq<u8>, limits: GgufInspectionLimits)
    requires
        inspect_header_bytes(bytes, limits) is Ok,
    ensures
        ({
            let metadata = inspect_header_bytes(bytes, limits)->Ok_0;
            metadata.architecture == classify(encode_utf8(metadata.architecture_name))
        }),
{
    let (after_count, count) = read_unsigned(bytes, limits, 16, 8)->Ok_0;
    lemma_entries_keep_names_text(
        bytes,
        limits,
        after_count,
        count as nat,
        super::format::empty_collected(),
    );
    let (_, collected) = read_entries(
        bytes,
        limits,
        after_count,
        count as nat,
        super::format::empty_collected(),
    )->Ok_0;
    let name = collected.architecture->Some_0;
    decode_utf8_encode_utf8(name);
}


/// Values of every fixed-size type are passed over by their encoded width:
/// one byte for `u8`, `i8` and `bool`; two for `u16` and `i16`; four for
/// `u32`, `i32` and `f32`; eight for `u64`, `i64` and `f64`.
pub proof fn lemma_fixed_size_values_are_skipped_by_width(
    bytes: Seq<u8>,
    limits: GgufInspectionLimits,
    position: int,
)
    ensures
        skip_value_bytes(bytes, limits, position, 0) == take_bytes(bytes, limits.maximum_header_bytes, position, 1),
        skip_value_bytes(bytes, limits, position, 1) == take_bytes(bytes, limits.maximum_header_bytes, position, 1),
        skip_value_bytes(bytes, limits, position, 7) == take_bytes(bytes, limits.maximum_header_bytes, position, 1),
        skip_value_bytes(bytes, limits, position, 2) == take_bytes(bytes, limits.maximum_header_bytes, position, 2),
        skip_value_bytes(bytes, limits, position, 3) == take_bytes(bytes, limits.maximum_header_bytes, position, 2),
        skip_value_bytes(bytes, limits, position, 4) == take_bytes(bytes, limits.maximum_header_bytes, position, 4),
        skip_value_bytes(bytes, limits, position, 5) == take_bytes(bytes, limits.maximum_header_bytes, position, 4),
        skip_value_bytes(bytes, limits, position, 6) == take_bytes(bytes, limits.maximum_header_bytes, position, 4),
        skip_value_bytes(bytes, limits, position, 10) == take_bytes(bytes, limits.maximum_header_bytes, position, 8),
        skip_value_bytes(bytes, limits, position, 11) == take_bytes(bytes, limits.maximum_header_bytes, position, 8),
        skip_value_bytes(bytes, limits, position, 12) == take_bytes(bytes, limits.maximum_header_bytes, position, 8),
{
}


/// An entry whose key names nothing the inspection gathers and whose value
/// is a 32-bit float is passed over as four bytes and changes nothing that
/// was gathered.
pub proof fn lemma_unrelated_float_entries_are_ignored(
    bytes: Seq<u8>,
    limits: GgufInspectionLimits,
    position: int,
    key: Seq<u8>,
    collected: CollectedView,
)
    requires
        key != "general.architecture".spec_bytes(),
        key != "general.file_type".spec_bytes(),
        key != "tokenizer.ggml.tokens".spec_bytes(),
        dimension_of(key) is None,
    ensures
        read_entry_value(bytes, limits, position, key, 6, collected) == match take_bytes(
            bytes,
            limits.maximum_header_bytes,
            position,
            4,
        ) {
            Ok(next) => Ok::<(int, CollectedView), MetadataFailure>((next, collected)),
            Err(failure) => Err(failure),
        },
{
}


/// The architecture families named by GGUF architecture strings: `llama`;
/// `mistral` and `mixtral`; `gemma`, `gemma2` and `gemma3`; `qwen`, `qwen2`
/// and `qwen3`. Any other name is identified by its 32-bit FNV-1a hash.
pub proof fn lemma_architecture_families(name: Seq<u8>)
    ensures
        name == "llama".spec_bytes() ==> classify(name) == ModelArchitecture::Llama,
        name == "mistral".spec_bytes() ==> classify(name) == ModelArchitecture::Mistral,
        name == "mixtral".spec_bytes() ==> classify(name) == ModelArchitecture::Mistral,
        name == "gemma".spec_bytes() ==> classify(name) == ModelArchitecture::Gemma,
        name == "gemma2".spec_bytes() ==> classify(name) == ModelArchitecture::Gemma,
        name == "gemma3".spec_bytes() ==> classify(name) == ModelArchitecture::Gemma,
        name == "qwen".spec_bytes() ==> classify(name) == ModelArchitecture::Qwen,
        name == "qwen2".spec_bytes() ==> classify(name) == ModelArchitecture::Qwen,
        name == "qwen3".spec_bytes() ==> classify(name) == ModelArchitecture::Qwen,
        (classify(name) is Other) ==> classify(name) == ModelArchitecture::Other(fnv1a(name)),
{
    reveal_strlit("llama");
    vstd::utf8::encode_utf8_decode_utf8("llama"@);
    reveal_strlit("mistral");
    vstd::utf8::encode_utf8_decode_utf8("mistral"@);
    reveal_strlit("mixtral");
    vstd::utf8::encode_utf8_decode_utf8("mixtral"@);
    reveal_strlit("gemma");
    vstd::utf8::encode_utf8_decode_utf8("gemma"@);
    reveal_strlit("gemma2");
    vstd::utf8::encode_utf8_decode_utf8("gemma2"@);
    reveal_strlit("gemma3");
    vstd::utf8::encode_utf8_decode_utf8("gemma3"@);
    reveal_strlit("qwen");
    vstd::utf8::encode_utf8_decode_utf8("qwen"@);
    reveal_strlit("qwen2");
    vstd::utf8::encode_utf8_decode_utf8("qwen2"@);
    reveal_strlit("qwen3");
    vstd::utf8::encode_utf8_decode_utf8("qwen3"@);
    assert("mistral"@ != "llama"@);
    assert("mixtral"@ != "llama"@);
    assert("gemma"@ != "llama"@);
    assert("gemma"@ != "mistral"@);
    assert("gemma"@ != "mixtral"@);
    assert("gemma2"@ != "llama"@);
    assert("gemma2"@ != "mistral"@);
    assert("gemma2"@ != "mixtral"@);
    assert("gemma3"@ != "llama"@);
    assert("gemma3"@ != "mistral"@);
    assert("gemma3"@ != "mixtral"@);
    assert("qwen"@ != "llama"@);
    assert("qwen"@ != "mistral"@);
    assert("qwen"@ != "mixtral"@);
    assert("qwen"@ != "gemma"@);
    assert("qwen"@ != "gemma2"@);
    assert("qwen"@ != "gemma3"@);
    assert("qwen2"@ != "llama"@);
    assert("qwen2"@ != "mistral"@);
    assert("qwen2"@ != "mixtral"@);
    assert("qwen2"@ != "gemma"@);
    assert("qwen2"@ != "gemma2"@);
    assert("qwen2"@ != "gemma3"@);
    assert("qwen3"@ != "llama"@);
    assert("qwen3"@ != "mistral"@);
    assert("qwen3"@ != "mixtral"@);
    assert("qwen3"@ != "gemma"@);
    assert("qwen3"@ != "gemma2"@);
    assert("qwen3"@ != "gemma3"@);
}


/// An integer value of `width` bytes read as `value_type`: unsigned types
/// give the little-endian value; signed types give it when the sign bit is
/// clear and reject negative values.
pub open spec fn integer_reading(
    bytes: Seq<u8>,
    limits: GgufInspectionLimits,
    position: int,
    width: int,
    signed: bool,
) -> Result<(int, u64), MetadataFailure> {
    match read_unsigned(bytes, limits, position, width) {
        Err(failure) => Err(failure),
        Ok((next, value)) => if signed && value >= pow2_bits(8 * width - 1) {
            Err(MetadataFailure::InvalidValue)
        } else {
            Ok((next, value as u64))
        },
    }
}

/// Two to the power `bits`.
pub open spec fn pow2_bits(bits: int) -> int
    decreases bits,
{
    if bits <= 0 {
        1
    } else {
        2 * pow2_bits(bits - 1)
    }
}

/// Integer values are read by their declared width and signedness: codes
/// 0, 2, 4, 10 are unsigned of 1, 2, 4, 8 bytes; codes 1, 3, 5, 11 are
/// signed of 1, 2, 4, 8 bytes and must not be negative; any other type is
/// not an integer.
pub proof fn lemma_integer_values_by_width_and_sign(
    bytes: Seq<u8>,
    limits: GgufInspectionLimits,
    position: int,
    value_type: u32,
)
    ensures
        read_integer_value(bytes, limits, position, 0) == integer_reading(bytes, limits, position, 1, false),
        read_integer_value(bytes, limits, position, 2) == integer_reading(bytes, limits, position, 2, false),
        read_integer_value(bytes, limits, position, 4) == integer_reading(bytes, limits, position, 4, false),
        read_integer_value(bytes, limits, position, 10) == integer_reading(bytes, limits, position, 8, false),
        read_integer_value(bytes, limits, position, 1) == integer_reading(bytes, limits, position, 1, true),
        read_integer_value(bytes, limits, position, 3) == integer_reading(bytes, limits, position, 2, true),
        read_integer_value(bytes, limits, position, 5) == integer_reading(bytes, limits, position, 4, true),
        read_integer_value(bytes, limits, position, 11) == integer_reading(bytes, limits, position, 8, true),
        !(value_type == 0 || value_type == 1 || value_type == 2 || value_type == 3 || value_type == 4
            || value_type == 5 || value_type == 10 || value_type == 11) ==> read_integer_value(
            bytes,
            limits,
            position,
            value_type,
        ) == Err::<(int, u64), MetadataFailure>(MetadataFailure::InvalidFormat),
{
    reveal_with_fuel(pow2_bits, 64);
    assert(pow2_bits(7) == 0x80);
    assert(pow2_bits(15) == 0x8000);
    assert(pow2_bits(31) == 0x8000_0000);
    assert(pow2_bits(63) == 0x8000_0000_0000_0000);
}

} // verus!
