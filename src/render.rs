//! How a response body is shown: JSON re-indented, anything else as it came.
use vstd::prelude::*;
use vstd::string::StringSliceAdditionalSpecFns;
use crate::json::{is_json, json_bytes_valid};

verus! {

/// Why a response could not be rendered.
#[derive(Debug, Clone)]
pub enum FormatError {
    /// The `Content-Type` header (held here) is no media type.
    InvalidContentType(String),
    /// The body was announced as JSON and is not; holds a message.
    InvalidJson(String),
}

/// The media type that `mime` reads from a header value, in its normal
/// (lower-case) text, or nothing where the value is no media type.
pub uninterp spec fn media_type_of(s: Seq<char>) -> Option<Seq<char>>;

/// The re-indented text that `jsonxf` makes of a JSON text, or nothing where
/// it reports an error.
pub uninterp spec fn pretty_json_of(s: Seq<char>) -> Option<Seq<char>>;

/// The media type whose bodies are pretty-printed.
pub open spec fn json_media_type() -> Seq<char> {
    "application/json"@
}

/// Relies on `<mime::Mime as FromStr>::from_str` and `Mime::as_ref`: the
/// parsed media type's text, which depends on the header text alone.
#[verifier::external_body]
fn parse_media_type(s: &str) -> (r: Option<String>)
    ensures
        r is Some <==> media_type_of(s@) is Some,
        r matches Some(m) ==> media_type_of(s@) == Some(m@),
{
    match s.parse::<mime::Mime>() {
        Ok(m) => Some(m.as_ref().to_string()),
        Err(_) => None,
    }
}

/// Relies on `jsonxf::pretty_print`: the re-indented text, or the formatter's
/// error message; either depends on the input alone.
#[verifier::external_body]
fn pretty_print_json(s: &str) -> (r: Result<String, String>)
    ensures
        r is Ok <==> pretty_json_of(s@) is Some,
        r matches Ok(p) ==> pretty_json_of(s@) == Some(p@),
{
    jsonxf::pretty_print(s)
}

/// Whether a parsed media type is exactly `application/json`.
pub fn is_json_media_type(media: &str) -> (r: bool)
    ensures
        r == (media@ == json_media_type()),
{
    let target = "application/json".to_owned();
    proof {
        reveal_strlit("application/json");
    }
    media.to_owned() == target
}

/// Whether a response with this `Content-Type` header (if any) carries JSON.
/// A header that is no media type is an error.
pub fn body_is_json(content_type: Option<&str>) -> (r: Result<bool, FormatError>)
    ensures
        match content_type {
            None => r == Ok::<bool, FormatError>(false),
            Some(ct) => match media_type_of(ct@) {
                None => r matches Err(FormatError::InvalidContentType(h)) && h@ == ct@,
                Some(m) => r == Ok::<bool, FormatError>(m == json_media_type()),
            },
        },
{
    match content_type {
        None => Ok(false),
        Some(ct) => match parse_media_type(ct) {
            None => Err(FormatError::InvalidContentType(ct.to_owned())),
            Some(m) => Ok(is_json_media_type(m.as_str())),
        },
    }
}

/// How a body announced as JSON is shown: an error unless it is JSON, else
/// re-indented (the formatter's own error, too, is one).
pub open spec fn json_rendering(body: &str, r: Result<String, FormatError>) -> bool {
    if !is_json(body.spec_bytes()) {
        r matches Err(FormatError::InvalidJson(_))
    } else {
        match pretty_json_of(body@) {
            Some(p) => r matches Ok(t) && t@ == p,
            None => r matches Err(FormatError::InvalidJson(_)),
        }
    }
}

/// Re-indents a JSON body; a body that is not JSON is an error.
pub fn render_json(body: &str) -> (r: Result<String, FormatError>)
    ensures
        json_rendering(body, r),
{
    if !json_bytes_valid(body.as_bytes()) {
        return Err(FormatError::InvalidJson("body is not valid JSON".to_owned()));
    }
    match pretty_print_json(body) {
        Ok(p) => Ok(p),
        Err(e) => Err(FormatError::InvalidJson(e)),
    }
}

/// The text shown for a response body: checked as JSON and re-indented where
/// the `Content-Type` is exactly `application/json`, unchanged otherwise (also
/// without header).
pub fn render_body(content_type: Option<&str>, body: &str) -> (r: Result<String, FormatError>)
    ensures
        match content_type {
            None => r matches Ok(t) && t@ == body@,
            Some(ct) => match media_type_of(ct@) {
                None => r matches Err(FormatError::InvalidContentType(h)) && h@ == ct@,
                Some(m) => if m == json_media_type() {
                    json_rendering(body, r)
                } else {
                    r matches Ok(t) && t@ == body@
                },
            },
        },
{
    match body_is_json(content_type) {
        Err(e) => Err(e),
        Ok(true) => render_json(body),
        Ok(false) => Ok(body.to_owned()),
    }
}

} // verus!
