//! The calls this library makes into std functions that vstd does not
//! specify and into outside crates. Each function here is trusted: Verus
//! believes its contract without reading its body.
use vstd::prelude::*;
use base64::Engine;
use crate::text::ascii_lower_seq;

verus! {

/// What `str::to_lowercase` returns for a string: its lower case mapping as
/// the Unicode `Lowercase` property defines it.
pub uninterp spec fn lowercase(s: Seq<char>) -> Seq<char>;

/// Whether every character of a text is ASCII.
pub open spec fn all_ascii(s: Seq<char>) -> bool {
    forall|i: int| 0 <= i < s.len() ==> (#[trigger] s[i] as u32) < 128
}

/// Calls `str::to_lowercase`. Claimed: the result is `lowercase` of the
/// argument's characters, and on ASCII text that mapping turns `A`-`Z`
/// into `a`-`z` and keeps every other character (as the documentation of
/// `to_lowercase` and of `char::to_lowercase` says); of other text nothing
/// more is said.
#[verifier::external_body]
pub(crate) fn lowercase_chars(s: &[char]) -> (r: Vec<char>)
    ensures
        r@ == lowercase(s@),
        all_ascii(s@) ==> r@ == ascii_lower_seq(s@),
{
    let text: String = s.iter().collect();
    text.to_lowercase().chars().collect()
}

/// The text of `Uuid::new_v5(&Uuid::NAMESPACE_URL, name.as_bytes())`, as its
/// `Display` writes it.
pub uninterp spec fn uuid_v5_url(name: Seq<char>) -> Seq<char>;

/// Whether a character may stand in the hyphenated lower case text of a
/// UUID.
pub open spec fn is_uuid_text_char(c: char) -> bool {
    ('0' <= c <= '9') || ('a' <= c <= 'f') || c == '-'
}

/// Calls `uuid::Uuid::new_v5` in the URL namespace on the UTF-8 bytes of
/// `name`, then `to_string`. Claimed: the result is `uuid_v5_url(name)`, a
/// text of 36 characters, each a digit, a lower case hex letter or `-`
/// (the crate's `Display` writes the hyphenated lower case form).
#[verifier::external_body]
pub(crate) fn uuid_v5_url_text(name: &[char]) -> (r: Vec<char>)
    ensures
        r@ == uuid_v5_url(name@),
        r@.len() == 36,
        forall|i: int| 0 <= i < r@.len() ==> is_uuid_text_char(#[trigger] r@[i]),
{
    let text: String = name.iter().collect();
    uuid::Uuid::new_v5(&uuid::Uuid::NAMESPACE_URL, text.as_bytes()).to_string().chars().collect()
}

/// What parsing a URL gives for its last path segment: `Err` with the
/// parser's error message when `url::Url::parse` fails, `Ok(None)` for a URL
/// that cannot be a base, else `Ok(Some(..))` with the last piece of its
/// path after the leading `/`, split at `/` (still percent-encoded).
pub uninterp spec fn url_last_segment(raw: Seq<char>) -> Result<Option<Seq<char>>, Seq<char>>;

/// Calls `url::Url::parse`, then `path_segments().next_back()`, and on
/// failure the error's `to_string`. Claimed: the result is
/// `url_last_segment(raw)`.
#[verifier::external_body]
pub(crate) fn url_last_segment_of(raw: &[char]) -> (r: Result<Option<Vec<char>>, Vec<char>>)
    ensures
        match r {
            Ok(Some(seg)) => url_last_segment(raw@) == Ok::<Option<Seq<char>>, Seq<char>>(
                Some(seg@),
            ),
            Ok(None) => url_last_segment(raw@) == Ok::<Option<Seq<char>>, Seq<char>>(None),
            Err(e) => url_last_segment(raw@) == Err::<Option<Seq<char>>, Seq<char>>(e@),
        },
{
    let text: String = raw.iter().collect();
    match url::Url::parse(&text) {
        Ok(u) => Ok(u.path_segments().and_then(|mut s| s.next_back()).map(|s| s.chars().collect())),
        Err(e) => Err(e.to_string().chars().collect()),
    }
}

/// What `urlencoding::decode` gives: `Some` of the percent-decoded text, or
/// `None` where the decoded bytes are not UTF-8.
pub uninterp spec fn percent_decoded(s: Seq<char>) -> Option<Seq<char>>;

/// Calls `urlencoding::decode`. Claimed: the result is `percent_decoded(s)`;
/// and, as the crate's source shows (it hands the input back borrowed when
/// there is no `%` in it), a text without `%` decodes to itself.
#[verifier::external_body]
pub(crate) fn percent_decode(s: &[char]) -> (r: Option<Vec<char>>)
    ensures
        match r {
            Some(d) => percent_decoded(s@) == Some(d@),
            None => percent_decoded(s@) is None,
        },
        !s@.contains('%') ==> r is Some && r->0@ == s@,
{
    let text: String = s.iter().collect();
    match urlencoding::decode(&text) {
        Ok(d) => Some(d.chars().collect()),
        Err(_) => None,
    }
}

/// The character of a six-bit value in the standard base64 alphabet:
/// `A`-`Z`, `a`-`z`, `0`-`9`, `+`, `/`.
pub open spec fn base64_char(n: int) -> char {
    if n < 26 {
        (65 + n) as char
    } else if n < 52 {
        (97 + n - 26) as char
    } else if n < 62 {
        (48 + n - 52) as char
    } else if n == 62 {
        '+'
    } else {
        '/'
    }
}

/// The standard base64 text (RFC 4648) of some bytes: each group of three
/// bytes gives four characters of six bits each, and a last group of one or
/// two bytes gives two or three characters, padded with `=` to four.
pub open spec fn base64_standard(data: Seq<u8>) -> Seq<char>
    decreases data.len(),
{
    if data.len() == 0 {
        Seq::empty()
    } else if data.len() == 1 {
        let a = data[0] as int;
        seq![base64_char(a / 4), base64_char((a % 4) * 16), '=', '=']
    } else if data.len() == 2 {
        let a = data[0] as int;
        let b = data[1] as int;
        seq![base64_char(a / 4), base64_char((a % 4) * 16 + b / 16), base64_char((b % 16) * 4), '=']
    } else {
        let a = data[0] as int;
        let b = data[1] as int;
        let c = data[2] as int;
        seq![
            base64_char(a / 4),
            base64_char((a % 4) * 16 + b / 16),
            base64_char((b % 16) * 4 + c / 64),
            base64_char(c % 64),
        ] + base64_standard(data.subrange(3, data.len() as int))
    }
}

/// Calls `STANDARD.encode` of the `base64` crate. Claimed: the result is
/// the standard padded base64 text of the bytes, `base64_standard(data)`. The crate panics when the encoded length does
/// not fit in a `usize`; `requires` leaves those inputs out.
#[verifier::external_body]
pub(crate) fn base64_encode(data: &[u8]) -> (r: Vec<char>)
    requires
        data@.len() / 3 * 4 + 4 <= usize::MAX,
    ensures
        r@ == base64_standard(data@),
{
    base64::engine::general_purpose::STANDARD.encode(data).chars().collect()
}

/// Reads `http::header::ACCESS_CONTROL_ALLOW_ORIGIN`. Claimed: its text is
/// `access-control-allow-origin`, as the crate's table of standard headers
/// defines it.
#[verifier::external_body]
pub(crate) fn allow_origin_header() -> (r: Vec<char>)
    ensures
        r@ == "access-control-allow-origin"@,
{
    http::header::ACCESS_CONTROL_ALLOW_ORIGIN.as_str().chars().collect()
}

/// Reads `http::header::ACCESS_CONTROL_ALLOW_HEADERS`. Claimed: its text is
/// `access-control-allow-headers`.
#[verifier::external_body]
pub(crate) fn allow_headers_header() -> (r: Vec<char>)
    ensures
        r@ == "access-control-allow-headers"@,
{
    http::header::ACCESS_CONTROL_ALLOW_HEADERS.as_str().chars().collect()
}

/// Reads `http::header::ACCESS_CONTROL_ALLOW_METHODS`. Claimed: its text is
/// `access-control-allow-methods`.
#[verifier::external_body]
pub(crate) fn allow_methods_header() -> (r: Vec<char>)
    ensures
        r@ == "access-control-allow-methods"@,
{
    http::header::ACCESS_CONTROL_ALLOW_METHODS.as_str().chars().collect()
}

/// Reads `http::StatusCode::NO_CONTENT.as_u16()`. Claimed: 204.
#[verifier::external_body]
pub(crate) fn no_content_status() -> (r: u16)
    ensures
        r == 204,
{
    http::StatusCode::NO_CONTENT.as_u16()
}


/// A JSON document as `serde_json` holds it. What it contains is not seen
/// here: a value is carried from the reader to the front end.
#[verifier::external_type_specification]
#[verifier::external_body]
pub struct ExJsonValue(serde_json::Value);

/// What `serde_json::from_str::<Value>` gives for a text: the document it
/// holds, or the message of its error (as its `Display` writes it). It
/// depends on the text alone.
pub uninterp spec fn json_read(text: Seq<char>) -> Result<serde_json::Value, Seq<char>>;

/// Whether a text is a JSON document.
pub open spec fn json_parses(text: Seq<char>) -> bool {
    json_read(text) is Ok
}

/// The document a JSON text holds (meaningful where `json_parses` holds).
pub open spec fn json_document(text: Seq<char>) -> serde_json::Value {
    json_read(text)->Ok_0
}

/// The message of the error a text that is not JSON gives.
pub open spec fn json_parse_error(text: Seq<char>) -> Option<Seq<char>> {
    match json_read(text) {
        Ok(_) => None,
        Err(e) => Some(e),
    }
}

/// Calls `serde_json::from_str::<serde_json::Value>`. Claimed: what it gives
/// is `json_read` of the text: the document on success, the error's message
/// otherwise.
#[verifier::external_body]
pub(crate) fn parse_json_value(text: &str) -> (r: Result<serde_json::Value, String>)
    ensures
        match r {
            Ok(v) => json_read(text@) == Ok::<serde_json::Value, Seq<char>>(v),
            Err(e) => json_read(text@) == Err::<serde_json::Value, Seq<char>>(e@),
        },
{
    serde_json::from_str::<serde_json::Value>(text).map_err(|e| e.to_string())
}

/// The text `serde_json::to_string_pretty` writes for a JSON value; it
/// depends on the value alone.
pub uninterp spec fn json_pretty(value: serde_json::Value) -> Seq<char>;

/// Calls `serde_json::to_string_pretty` on a JSON value, the error turned
/// into its message. Claimed: it succeeds, with the text `json_pretty` of
/// the value. Its documentation names two ways to fail, a `Serialize` impl
/// that fails and a map with keys that are not strings; `Value`'s impl
/// never fails of itself, its maps are keyed by strings, and the writer is
/// a `Vec`, which cannot fail.
#[verifier::external_body]
pub(crate) fn json_pretty_text(value: &serde_json::Value) -> (r: Result<String, String>)
    ensures
        r is Ok,
        r is Ok ==> r->Ok_0@ == json_pretty(*value),
{
    serde_json::to_string_pretty(value).map_err(|e| e.to_string())
}

/// Gives `serde_json::Value::Null`. Claimed: it is the document that the
/// text `null` holds, as `from_str` reads it (`Value::Null`).
#[verifier::external_body]
pub(crate) fn json_null() -> (r: serde_json::Value)
    ensures
        r == json_document("null"@),
{
    serde_json::Value::Null
}

} // verus!
