//! The calls this library makes into other crates, each behind a contract
//! that is taken on trust.

use crate::text::opt_view;
use vstd::prelude::*;
use vstd::utf8::encode_utf8;

verus! {

/// A byte that percent-encoding leaves as it is: an ASCII letter or digit,
/// or one of `-`, `.`, `_`, `~`.
pub open spec fn is_unreserved(b: u8) -> bool {
    (0x30 <= b <= 0x39) || (0x41 <= b <= 0x5A) || (0x61 <= b <= 0x7A) || b == 0x2D || b == 0x2E
        || b == 0x5F || b == 0x7E
}

/// The upper-case hexadecimal digit for `d`, for `d` below sixteen.
pub open spec fn hex_digit(d: u8) -> char {
    if d < 10 {
        (48 + d) as char
    } else {
        (55 + d) as char
    }
}

/// The percent-encoding of one byte.
pub open spec fn percent_byte(b: u8) -> Seq<char> {
    if is_unreserved(b) {
        seq![b as char]
    } else {
        seq!['%', hex_digit(b / 16), hex_digit(b % 16)]
    }
}

/// The percent-encoding of a run of bytes.
pub open spec fn percent_bytes(bytes: Seq<u8>) -> Seq<char>
    decreases bytes.len(),
{
    if bytes.len() == 0 {
        Seq::empty()
    } else {
        percent_bytes(bytes.drop_last()) + percent_byte(bytes.last())
    }
}

/// The percent-encoding of a string: that of its UTF-8 bytes.
pub open spec fn percent_encoded(s: Seq<char>) -> Seq<char> {
    percent_bytes(encode_utf8(s))
}

/// `urlencoding::encode`. Trusted: the result is the percent-encoding of
/// the string's UTF-8 bytes, where every byte but ASCII letters, digits and
/// `-`, `.`, `_`, `~` becomes `%` and two upper-case hexadecimal digits.
#[verifier::external_body]
pub(crate) fn url_encode(s: &str) -> (r: String)
    ensures
        r@ == percent_encoded(s@),
{
    urlencoding::encode(s).into_owned()
}

/// `std::time::SystemTime::now`, read as a `chrono::DateTime` and written
/// with `DateTime::timestamp_millis`: the milliseconds since the Unix
/// epoch on the system clock, negative for a clock that reads a time
/// before 1970. Nothing is claimed of the value. The call panics where the
/// clock reads a year that `chrono` cannot hold, some 262,000 years from
/// now.
#[verifier::external_body]
pub(crate) fn now_millis() -> i64 {
    chrono::DateTime::<chrono::Utc>::from(std::time::SystemTime::now()).timestamp_millis()
}

/// A lower-case hexadecimal digit.
pub open spec fn is_lower_hex(c: char) -> bool {
    ('0' <= c <= '9') || ('a' <= c <= 'f')
}

/// The text of a version-4 UUID in its hyphenated form: 36 characters,
/// hyphens at the places 8, 13, 18 and 23 and lower-case hexadecimal digits
/// elsewhere, of which the one at place 14 is `4`, for the version, and the
/// one at place 19 is `8`, `9`, `a` or `b`, for the variant.
pub open spec fn is_uuid_text(s: Seq<char>) -> bool {
    &&& s.len() == 36
    &&& forall|i: int|
        0 <= i < 36 ==> if i == 8 || i == 13 || i == 18 || i == 23 {
            #[trigger] s[i] == '-'
        } else {
            is_lower_hex(s[i])
        }
    &&& s[14] == '4'
    &&& s[19] == '8' || s[19] == '9' || s[19] == 'a' || s[19] == 'b'
}

/// `uuid::Uuid::new_v4`, written with `to_string`: a random identifier.
/// Trusted: the text has the form of a version-4 UUID. Nothing is claimed
/// of which identifier it is, not even that two calls differ.
#[verifier::external_body]
pub(crate) fn mint_uuid() -> (r: String)
    ensures
        is_uuid_text(r@),
{
    uuid::Uuid::new_v4().to_string()
}

/// The lower-case form of a string, as Unicode defines it.
pub uninterp spec fn lowercased(s: Seq<char>) -> Seq<char>;

/// `str::to_lowercase`. Trusted: the result depends on the string alone.
#[verifier::external_body]
pub(crate) fn to_lowercase(s: &str) -> (r: String)
    ensures
        r@ == lowercased(s@),
{
    s.to_lowercase()
}

#[verifier::external_type_specification]
#[verifier::external_body]
pub struct ExJsonValue(serde_json::Value);

/// The document that a text parses to as JSON, if it is JSON.
pub uninterp spec fn json_document(text: Seq<char>) -> Option<serde_json::Value>;

/// The strings of a document, each under the JSON pointer that leads to it.
pub uninterp spec fn json_strings(doc: serde_json::Value) -> Map<Seq<char>, Seq<char>>;

/// The numbers of a document that are unsigned 64-bit integers, by pointer.
pub uninterp spec fn json_integers(doc: serde_json::Value) -> Map<Seq<char>, u64>;

/// The booleans of a document, by pointer.
pub uninterp spec fn json_flags(doc: serde_json::Value) -> Map<Seq<char>, bool>;

/// The arrays of a document, by pointer: of each item the string it is, or
/// `None` where it is no string.
pub uninterp spec fn json_lists(doc: serde_json::Value) -> Map<Seq<char>, Seq<Option<Seq<char>>>>;

/// `serde_json::from_str` for a `Value`. Trusted: the result depends on the
/// text alone; `None` stands for any parse error.
#[verifier::external_body]
pub(crate) fn parse_json(text: &str) -> (r: Option<serde_json::Value>)
    ensures
        r == json_document(text@),
{
    serde_json::from_str(text).ok()
}

/// What a map holds under a key, if it holds anything there.
pub open spec fn lookup<V>(m: Map<Seq<char>, V>, key: Seq<char>) -> Option<V> {
    if m.contains_key(key) {
        Some(m[key])
    } else {
        None
    }
}

/// `Value::pointer` followed by `Value::as_str`: the string at a pointer,
/// `None` where the pointer leads nowhere or to something else.
#[verifier::external_body]
pub(crate) fn json_string_at(doc: &serde_json::Value, pointer: &str) -> (r: Option<String>)
    ensures
        opt_view(r) == lookup(json_strings(*doc), pointer@),
{
    doc.pointer(pointer).and_then(|v| v.as_str()).map(|s| s.to_string())
}

/// `Value::pointer` followed by `Value::as_u64`.
#[verifier::external_body]
pub(crate) fn json_integer_at(doc: &serde_json::Value, pointer: &str) -> (r: Option<u64>)
    ensures
        r == lookup(json_integers(*doc), pointer@),
{
    doc.pointer(pointer).and_then(|v| v.as_u64())
}

/// `Value::pointer` followed by `Value::as_bool`.
#[verifier::external_body]
pub(crate) fn json_flag_at(doc: &serde_json::Value, pointer: &str) -> (r: Option<bool>)
    ensures
        r == lookup(json_flags(*doc), pointer@),
{
    doc.pointer(pointer).and_then(|v| v.as_bool())
}

/// The items of a list, each as the string it is or as `None`.
pub open spec fn items_view(items: Seq<Option<String>>) -> Seq<Option<Seq<char>>> {
    Seq::new(items.len(), |i: int| opt_view(items[i]))
}

pub open spec fn opt_items_view(items: Option<Vec<Option<String>>>) -> Option<Seq<Option<Seq<char>>>> {
    match items {
        Some(v) => Some(items_view(v@)),
        None => None,
    }
}

/// `Value::pointer` followed by `Value::as_array`, each item read with
/// `Value::as_str`.
#[verifier::external_body]
pub(crate) fn json_list_at(doc: &serde_json::Value, pointer: &str) -> (r: Option<Vec<Option<String>>>)
    ensures
        opt_items_view(r) == lookup(json_lists(*doc), pointer@),
{
    doc.pointer(pointer).and_then(|v| v.as_array()).map(
        |a| a.iter().map(|x| x.as_str().map(|s| s.to_string())).collect(),
    )
}

/// The lower-case hexadecimal digit for `d`, for `d` below sixteen.
pub open spec fn lower_hex_digit(d: nat) -> char {
    if d < 10 {
        (48 + d) as char
    } else {
        (87 + d) as char
    }
}

/// How a character stands in the JSON text of a string: the double quote
/// and the backslash behind a backslash, the control characters below
/// U+0020 as `\b`, `\t`, `\n`, `\f`, `\r` or `\u00` and two
/// hexadecimal digits, every other character as it is.
pub open spec fn json_escaped(c: char) -> Seq<char> {
    if c == '"' {
        seq!['\\', '"']
    } else if c == '\\' {
        seq!['\\', '\\']
    } else if c == '\u{8}' {
        seq!['\\', 'b']
    } else if c == '\t' {
        seq!['\\', 't']
    } else if c == '\n' {
        seq!['\\', 'n']
    } else if c == '\u{c}' {
        seq!['\\', 'f']
    } else if c == '\r' {
        seq!['\\', 'r']
    } else if (c as u32) < 0x20 {
        seq![
            '\\',
            'u',
            '0',
            '0',
            lower_hex_digit((c as u32 / 16) as nat),
            lower_hex_digit((c as u32 % 16) as nat),
        ]
    } else {
        seq![c]
    }
}

/// The characters of a string, each as it stands in JSON text.
pub open spec fn json_escaped_text(s: Seq<char>) -> Seq<char>
    decreases s.len(),
{
    if s.len() == 0 {
        Seq::empty()
    } else {
        json_escaped_text(s.drop_last()) + json_escaped(s.last())
    }
}

/// The JSON text of a string: its characters, escaped, between double quotes.
pub open spec fn json_quoted(s: Seq<char>) -> Seq<char> {
    seq!['"'] + json_escaped_text(s) + seq!['"']
}

/// `serde_json::to_string` for a string. Trusted: the result is the
/// string between double quotes, with the double quote, the backslash and
/// the control characters below U+0020 escaped and nothing else changed.
/// Serialising a string does not fail.
#[verifier::external_body]
pub(crate) fn json_quote(s: &str) -> (r: String)
    ensures
        r@ == json_quoted(s@),
{
    serde_json::to_string(s).unwrap_or_default()
}

#[verifier::external_type_specification]
#[verifier::external_body]
pub struct ExUrl(url::Url);

#[verifier::external_type_specification]
#[verifier::external_body]
pub struct ExUrlParseError(url::ParseError);

/// Whether a text parses as an absolute URL.
pub uninterp spec fn is_absolute_url(text: Seq<char>) -> bool;

/// `url::Url::parse`. Trusted: whether the text parses depends on the
/// text alone. Nothing is claimed of the URL it parses to.
#[verifier::external_body]
pub(crate) fn parse_url(text: &str) -> (r: Result<url::Url, url::ParseError>)
    ensures
        r is Ok <==> is_absolute_url(text@),
{
    url::Url::parse(text)
}

/// `hostname::get`, read as text. Nothing is claimed of the name; `None`
/// stands for any error.
#[verifier::external_body]
pub(crate) fn host_name() -> Option<String> {
    hostname::get().ok().map(|h| h.to_string_lossy().into_owned())
}

} // verus!
