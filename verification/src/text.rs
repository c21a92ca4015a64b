//! UTF-8 text over the standard library.

use vstd::prelude::*;
use vstd::utf8::{decode_utf8, valid_utf8};

verus! {

/// `std::string::FromUtf8Error`, carried opaquely in decoding failures.
#[verifier::external_type_specification]
#[verifier::external_body]
pub struct ExFromUtf8Error(std::string::FromUtf8Error);

/// Decodes owned UTF-8 text with `String::from_utf8`.
///
/// Trusted: the result is `Ok` exactly when the bytes are valid UTF-8, and
/// the decoded text is the UTF-8 decoding of the bytes; nothing is claimed
/// about the error value.
#[verifier::external_body]
pub(crate) fn utf8_string(bytes: &[u8]) -> (result: Result<String, std::string::FromUtf8Error>)
    ensures
        result is Ok <==> valid_utf8(bytes@),
        result matches Ok(text) ==> text@ == decode_utf8(bytes@),
{
    String::from_utf8(bytes.to_vec())
}


/// `text` begins with `prefix`.
pub open spec fn starts_with_text(text: Seq<char>, prefix: Seq<char>) -> bool {
    prefix.len() <= text.len() && text.subrange(0, prefix.len() as int) == prefix
}

/// The decimal digit character for `digit`.
pub open spec fn digit_char(digit: nat) -> char {
    (('0' as u32) + digit) as char
}

/// Decimal notation of `value`, without leading zeros.
pub open spec fn decimal(value: nat) -> Seq<char>
    decreases value,
{
    if value < 10 {
        seq![digit_char(value)]
    } else {
        decimal(value / 10).push(digit_char(value % 10))
    }
}

/// Renders an integer with its `Display` implementation (`u64::to_string`).
///
/// Trusted: unsigned integers display as decimal digits without sign or
/// leading zeros.
#[verifier::external_body]
pub(crate) fn decimal_text(value: u64) -> (text: String)
    ensures
        text@ == decimal(value as nat),
{
    value.to_string()
}

/// Whether `c` has the Unicode `White_Space` property.
pub open spec fn is_white_space(c: char) -> bool {
    let v = c as u32;
    ||| 0x09 <= v <= 0x0d
    ||| v == 0x20
    ||| v == 0x85
    ||| v == 0xa0
    ||| v == 0x1680
    ||| 0x2000 <= v <= 0x200a
    ||| v == 0x2028
    ||| v == 0x2029
    ||| v == 0x202f
    ||| v == 0x205f
    ||| v == 0x3000
}

/// `text` without its leading white space.
pub open spec fn trim_start_chars(text: Seq<char>) -> Seq<char>
    decreases text.len(),
{
    if text.len() > 0 && is_white_space(text[0]) {
        trim_start_chars(text.drop_first())
    } else {
        text
    }
}

/// `text` without its trailing white space.
pub open spec fn trim_end_chars(text: Seq<char>) -> Seq<char>
    decreases text.len(),
{
    if text.len() > 0 && is_white_space(text.last()) {
        trim_end_chars(text.drop_last())
    } else {
        text
    }
}

/// `text` without leading and trailing white space.
pub open spec fn trim_chars(text: Seq<char>) -> Seq<char> {
    trim_end_chars(trim_start_chars(text))
}

/// Every character of `text` is white space (the empty text included).
pub open spec fn is_blank(text: Seq<char>) -> bool {
    forall|i: int| 0 <= i < text.len() ==> is_white_space(#[trigger] text[i])
}

/// Removes leading and trailing white space with `str::trim`.
///
/// Trusted: `str::trim` removes exactly the leading and trailing characters
/// that have the Unicode `White_Space` property.
#[verifier::external_body]
pub(crate) fn trim(text: &str) -> (trimmed: &str)
    ensures
        trimmed@ == trim_chars(text@),
{
    text.trim()
}

proof fn lemma_trim_start(text: Seq<char>)
    ensures
        trim_start_chars(text).len() == 0 <==> is_blank(text),
        trim_start_chars(text).len() > 0 ==> !is_white_space(trim_start_chars(text)[0]),
    decreases text.len(),
{
    if text.len() > 0 && is_white_space(text[0]) {
        let rest = text.drop_first();
        lemma_trim_start(rest);
        if is_blank(rest) {
            assert forall|i: int| 0 <= i < text.len() implies is_white_space(#[trigger] text[i]) by {
                if i > 0 {
                    assert(text[i] == rest[i - 1]);
                }
            }
        } else {
            let i = choose|i: int| 0 <= i < rest.len() && !is_white_space(#[trigger] rest[i]);
            assert(text[i + 1] == rest[i]);
        }
    } else if text.len() > 0 {
        assert(!is_white_space(text[0]));
    }
}

proof fn lemma_trim_end_keeps_first(text: Seq<char>)
    requires
        text.len() > 0,
        !is_white_space(text[0]),
    ensures
        trim_end_chars(text).len() > 0,
    decreases text.len(),
{
    if is_white_space(text.last()) {
        let rest = text.drop_last();
        if rest.len() > 0 {
            assert(rest[0] == text[0]);
            lemma_trim_end_keeps_first(rest);
        }
    }
}

/// Trimming leaves nothing exactly when the text is blank.
pub proof fn lemma_trim_empty_iff_blank(text: Seq<char>)
    ensures
        trim_chars(text).len() == 0 <==> is_blank(text),
{
    lemma_trim_start(text);
    let start = trim_start_chars(text);
    if start.len() > 0 {
        lemma_trim_end_keeps_first(start);
    }
}

} // verus!
