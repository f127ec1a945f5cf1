//! Building API endpoint URLs from a profile's base URL.
use crate::text::{
    chars_contains, chars_of, contains, strip_leading, strip_leading_chars, strip_trailing,
    strip_trailing_chars, string_of, trim, trim_chars,
};
use vstd::prelude::*;

verus! {

#[verifier::external_type_specification]
#[verifier::external_body]
pub struct ExUrlParseError(url::ParseError);

/// The serialization of the URL that `url::Url::parse(base)` followed by
/// `Url::join(reference)` yields, or `None` where either step fails.
pub uninterp spec fn url_resolution(base: Seq<char>, reference: Seq<char>) -> Option<Seq<char>>;

/// Resolves `reference` against the absolute URL `base` with the `url` crate:
/// `Url::parse(base)` and then `Url::join(reference)` on the parsed URL, the
/// result given back as its serialization (`Url::as_str`).
///
/// The contract claims that the outcome depends on the two strings alone:
/// `Ok` exactly when `url_resolution` has a value, and that value is the
/// serialization. What the URL standard makes of given strings is not stated.
#[verifier::external_body]
fn resolve_url(base: &str, reference: &str) -> (r: Result<String, url::ParseError>)
    ensures
        r is Ok <==> url_resolution(base@, reference@) is Some,
        r matches Ok(s) ==> url_resolution(base@, reference@) == Some(s@),
{
    let base_url = url::Url::parse(base)?;
    Ok(base_url.join(reference)?.as_str().to_string())
}

/// Why an endpoint URL could not be built.
#[derive(Debug)]
pub enum EndpointError {
    /// The base URL already names an audio endpoint.
    AudioEndpointInBase,
    /// The URL crate refused the base URL or the joined path.
    InvalidUrl(url::ParseError),
}

/// Text of a URL parse error, as its `Display` writes it.
#[verifier::external_body]
fn url_error_text(e: &url::ParseError) -> String {
    format!("{e}")
}

impl EndpointError {
    /// The error message shown to the user.
    pub fn message(&self) -> (m: String)
        ensures
            self is AudioEndpointInBase ==> m@ == "Base URL must not include an audio endpoint"@,
    {
        match self {
            EndpointError::AudioEndpointInBase => {
                string_of_str("Base URL must not include an audio endpoint")
            },
            EndpointError::InvalidUrl(e) => url_error_text(e),
        }
    }
}

fn string_of_str(s: &str) -> (out: String)
    ensures
        out@ == s@,
{
    crate::text::string_from(s)
}

/// A trimmed base URL names an audio endpoint.
pub open spec fn names_audio_endpoint(base: Seq<char>) -> bool {
    contains(base, "/v1/audio/transcriptions"@) || contains(base, "/v1/audio/translations"@)
}

/// The base URL as a directory: trimmed, its trailing slashes replaced by one.
pub open spec fn directory_base(base_url: Seq<char>) -> Seq<char> {
    strip_trailing(trim(base_url), '/').push('/')
}

/// The path relative to the base directory: without its leading slashes.
pub open spec fn relative_path(path: Seq<char>) -> Seq<char> {
    strip_leading(path, '/')
}

/// The URL of `path` under the API at `base_url`: the trimmed base URL, with
/// exactly one trailing slash, joined with `path` without its leading slashes.
/// A base URL that already holds an audio endpoint path is refused.
pub fn endpoint(base_url: &str, path: &str) -> (r: Result<String, EndpointError>)
    ensures
        names_audio_endpoint(trim(base_url@)) ==> r matches Err(
            EndpointError::AudioEndpointInBase,
        ),
        !names_audio_endpoint(trim(base_url@)) ==> match url_resolution(
            directory_base(base_url@),
            relative_path(path@),
        ) {
            Some(u) => r matches Ok(s) && s@ == u,
            None => r matches Err(EndpointError::InvalidUrl(_)),
        },
{
    let base = trim_chars(chars_of(base_url).as_slice());
    let transcriptions = chars_of("/v1/audio/transcriptions");
    let translations = chars_of("/v1/audio/translations");
    proof {
        reveal_strlit("/v1/audio/transcriptions");
        reveal_strlit("/v1/audio/translations");
    }
    if chars_contains(base.as_slice(), transcriptions.as_slice()) || chars_contains(
        base.as_slice(),
        translations.as_slice(),
    ) {
        return Err(EndpointError::AudioEndpointInBase);
    }
    let mut directory = strip_trailing_chars(base.as_slice(), '/');
    directory.push('/');
    let relative = strip_leading_chars(chars_of(path).as_slice(), '/');
    let directory_text = string_of(directory.as_slice());
    let relative_text = string_of(relative.as_slice());
    match resolve_url(directory_text.as_str(), relative_text.as_str()) {
        Ok(url) => Ok(url),
        Err(e) => Err(EndpointError::InvalidUrl(e)),
    }
}

} // verus!
