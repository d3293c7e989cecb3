//! The calls into outside crates and the standard library that the logic makes.
//! The contracts of the calls are not proved: each says what the called function's own
//! source or documentation says.
use crate::text;
use vstd::prelude::*;
use vstd::string::*;

verus! {

/// `String::push` appends one scalar value to the end of the string.
pub assume_specification[ String::push ](s: &mut String, ch: char)
    ensures
        final(s)@ == old(s)@.push(ch),
;

/// `serde_json::Error`, which a caller passes on.
#[verifier::external_type_specification]
#[verifier::external_body]
pub struct ExJsonError(serde_json::Error);

/// How one character stands in a JSON string literal that `serde_json` writes.
pub open spec fn json_char(c: char) -> Seq<char> {
    if c == '"' || c == '\\' {
        seq!['\\', c]
    } else if c == '\u{8}' {
        seq!['\\', 'b']
    } else if c == '\u{c}' {
        seq!['\\', 'f']
    } else if c == '\n' {
        seq!['\\', 'n']
    } else if c == '\r' {
        seq!['\\', 'r']
    } else if c == '\t' {
        seq!['\\', 't']
    } else if (c as nat) < 32 {
        seq!['\\', 'u', '0', '0'] + text::hex_digits(c as nat, 2)
    } else {
        seq![c]
    }
}

/// A text inside a JSON string literal.
pub open spec fn json_body(s: Seq<char>) -> Seq<char>
    decreases s.len(),
{
    if s.len() == 0 {
        Seq::empty()
    } else {
        json_body(s.drop_last()) + json_char(s.last())
    }
}

/// A text as a JSON string literal.
pub open spec fn json_literal(s: Seq<char>) -> Seq<char> {
    seq!['"'] + json_body(s) + seq!['"']
}

/// `serde_json::to_string` of a string: the string as a JSON string literal, in
/// which quotes, backslashes and every control character below U+0020 are escaped,
/// and nothing else. Writing to memory does not fail.
#[verifier::external_body]
pub(crate) fn json_string(text: &str) -> (r: Result<String, serde_json::Error>)
    ensures
        r is Ok,
        r->Ok_0@ == json_literal(text@),
{
    serde_json::to_string(text)
}

/// The digest of `blake3::hash`, in hexadecimal.
pub uninterp spec fn blake3_digest(bytes: Seq<u8>) -> Seq<char>;

/// `blake3::hash`, written by `to_hex`: 64 lower-case hexadecimal digits.
#[verifier::external_body]
pub(crate) fn blake3_hex(bytes: &[u8]) -> (r: String)
    ensures
        r@ == blake3_digest(bytes@),
        r@.len() == 64,
        forall|i: int|
            0 <= i < 64 ==> ('0' <= #[trigger] r@[i] <= '9' || 'a' <= r@[i] <= 'f'),
{
    blake3::hash(bytes).to_hex().to_string()
}

/// The lower-case equivalent of a text, by the Unicode property Lowercase.
pub uninterp spec fn unicode_lowercase(text: Seq<char>) -> Seq<char>;

/// `str::to_lowercase`: the lower-case equivalent of the text.
#[verifier::external_body]
pub(crate) fn to_lowercase(text: &str) -> (r: String)
    ensures
        r@ == unicode_lowercase(text@),
{
    text.to_lowercase()
}

/// An identifier in its hyphenated form: its 32 hexadecimal digits, in groups of 8,
/// 4, 4, 4 and 12.
pub open spec fn uuid_display(id: u128) -> Seq<char> {
    let digits = text::hex_digits(id as nat, 32);
    digits.take(8) + seq!['-'] + digits.subrange(8, 12) + seq!['-'] + digits.subrange(12, 16)
        + seq!['-'] + digits.subrange(16, 20) + seq!['-'] + digits.skip(20)
}

/// `uuid::Uuid::from_u128`, displayed: the identifier in its hyphenated form, in
/// lower case.
#[verifier::external_body]
pub(crate) fn uuid_text(id: u128) -> (r: String)
    ensures
        r@ == uuid_display(id),
{
    uuid::Uuid::from_u128(id).to_string()
}

/// The hyphenated form of an identifier has 36 characters, the ninth of them a
/// hyphen, and is that of no other.
pub proof fn uuid_display_is_one_to_one(a: u128, b: u128)
    ensures
        uuid_display(a).len() == 36,
        uuid_display(a)[8] == '-',
        uuid_display(a) == uuid_display(b) ==> a == b,
{
    let x = text::hex_digits(a as nat, 32);
    let y = text::hex_digits(b as nat, 32);
    text::lemma_hex_len(a as nat, 32);
    text::lemma_hex_len(b as nat, 32);
    let p = uuid_display(a);
    let q = uuid_display(b);
    if p == q {
        assert(x =~= p.take(8) + p.subrange(9, 13) + p.subrange(14, 18) + p.subrange(19, 23)
            + p.skip(24));
        assert(y =~= q.take(8) + q.subrange(9, 13) + q.subrange(14, 18) + q.subrange(19, 23)
            + q.skip(24));
        text::lemma_hex_is_one_to_one(a, b);
    }
}

/// The identifier that `uuid::Uuid::parse_str` reads from a text, or the words
/// with which it refuses the text.
pub uninterp spec fn uuid_parsed(text: Seq<char>) -> Result<u128, Seq<char>>;

/// `uuid::Uuid::parse_str`: the identifier that the text stands for, or the
/// words of the error.
#[verifier::external_body]
pub(crate) fn parse_uuid(text: &str) -> (r: Result<u128, String>)
    ensures
        match r {
            Ok(id) => uuid_parsed(text@) == Ok::<u128, Seq<char>>(id),
            Err(error) => uuid_parsed(text@) == Err::<u128, Seq<char>>(error@),
        },
{
    uuid::Uuid::parse_str(text).map(|id| id.as_u128()).map_err(|error| error.to_string())
}

/// The text of bytes that may not be UTF-8, as `String::from_utf8_lossy` reads
/// them.
pub uninterp spec fn utf8_lossy(bytes: Seq<u8>) -> Seq<char>;

/// `String::from_utf8_lossy`: the text of the bytes, with a replacement
/// character for what is not UTF-8.
#[verifier::external_body]
pub(crate) fn lossy_text(bytes: &[u8]) -> (r: String)
    ensures
        r@ == utf8_lossy(bytes@),
{
    String::from_utf8_lossy(bytes).into_owned()
}

} // verus!
