//! The outside crates' work that the library's logic relies on: HTTP status
//! reasons and method tokens from `reqwest`, JSON parsing from `serde_json`,
//! and Unicode uppercasing from std.

use vstd::prelude::*;

verus! {

/// A JSON value of `serde_json`, carried through the library unread.
#[verifier::external_type_specification]
#[verifier::external_body]
pub struct ExJsonValue(serde_json::Value);

/// The JSON value type that request and response bodies hold.
pub type JsonValue = serde_json::Value;

/// The reason phrase that `reqwest` (through `http`) registers for a status
/// code, if it registers one (none for a number outside `100..=999`, which
/// is no status code).
pub uninterp spec fn status_reason(code: u16) -> Option<Seq<char>>;

/// Whether `serde_json` reads `text` as one complete JSON value.
pub uninterp spec fn is_json_document(text: Seq<char>) -> bool;

/// The JSON value that `serde_json` reads from `text`, where
/// `is_json_document(text)` holds.
pub uninterp spec fn json_value(text: Seq<char>) -> JsonValue;

/// The Unicode uppercase form of `s`, as `str::to_uppercase` computes it.
pub uninterp spec fn unicode_upper(s: Seq<char>) -> Seq<char>;

/// A character allowed in an HTTP method token (RFC 7230 `tchar`).
pub open spec fn is_token_char(c: char) -> bool {
    ||| ('0' <= c && c <= '9')
    ||| ('A' <= c && c <= 'Z')
    ||| ('a' <= c && c <= 'z')
    ||| c == '!' || c == '#' || c == '$' || c == '%' || c == '&' || c == '\''
    ||| c == '*' || c == '+' || c == '-' || c == '.' || c == '^' || c == '_'
    ||| c == '`' || c == '|' || c == '~'
}

/// Text that `reqwest` accepts as an HTTP method: non-empty, token
/// characters only.
pub open spec fn is_method_token(s: Seq<char>) -> bool {
    s.len() > 0 && forall|i: int| 0 <= i < s.len() ==> is_token_char(#[trigger] s[i])
}

/// The reason phrase of a status code (`StatusCode::from_u16` then
/// `StatusCode::canonical_reason`).
///
/// Trusted: the result is `status_reason(code)`, a name for `http`'s table
/// of reason phrases; nothing is said of which codes have one.
#[verifier::external_body]
pub(crate) fn canonical_reason(code: u16) -> (r: Option<String>)
    ensures
        r.deep_view() == status_reason(code),
{
    match reqwest::StatusCode::from_u16(code) {
        Ok(status) => status.canonical_reason().map(|t| t.to_string()),
        Err(_) => None,
    }
}

/// Checks `method` as an HTTP method (`reqwest::Method::from_bytes`).
///
/// Trusted: `http` accepts exactly the non-empty byte strings made of token
/// characters (its `METHOD_CHARS` table), so for text it accepts exactly
/// `is_method_token`; its error displays as "invalid HTTP method".
#[verifier::external_body]
pub(crate) fn check_method(method: &str) -> (r: Result<(), String>)
    ensures
        r is Ok <==> is_method_token(method@),
        r matches Err(e) ==> e@ == "invalid HTTP method"@,
{
    match reqwest::Method::from_bytes(method.as_bytes()) {
        Ok(_) => Ok(()),
        Err(e) => Err(e.to_string()),
    }
}

/// Parses `text` as JSON (`serde_json::from_str::<serde_json::Value>`).
///
/// Trusted: a value comes back exactly when `is_json_document(text)`, a
/// name for `serde_json`'s grammar, and that value is `json_value(text)`, a
/// name for what `serde_json` reads from the text (a function of the text
/// alone).
#[verifier::external_body]
pub(crate) fn parse_json(text: &str) -> (r: Option<JsonValue>)
    ensures
        r is Some <==> is_json_document(text@),
        r matches Some(v) ==> v == json_value(text@),
{
    serde_json::from_str::<serde_json::Value>(text).ok()
}

/// The Unicode uppercase form of `s` (`str::to_uppercase`).
///
/// Trusted: the result is `unicode_upper(s)`, a name for std's Unicode case
/// mapping.
#[verifier::external_body]
pub(crate) fn to_uppercase(s: &str) -> (r: String)
    ensures
        r@ == unicode_upper(s@),
{
    s.to_uppercase()
}

} // verus!
