//! Audio transcription requests and their responses: what a request carries,
//! which replies count as text, and how a refused request is reported without
//! leaking what the server echoed back.
use crate::api::endpoints::{directory_base, endpoint, relative_path, url_resolution, EndpointError, names_audio_endpoint};
use crate::text::{
    chars_of, decimal, digit, digit_char, push_chars, push_decimal, push_str, string_from,
    string_of, sub_chars, trim, trim_chars,
};
use vstd::prelude::*;

verus! {

/// The `response_format` field of every audio request.
pub const AUDIO_RESPONSE_FORMAT: &'static str = "json";

/// The language sent when a request names none.
pub const DEFAULT_INPUT_LANGUAGE: &'static str = "ru";

/// The transcription endpoint, relative to a profile's base URL.
pub const AUDIO_TRANSCRIPTION_ENDPOINT_PATH: &'static str = "/v1/audio/transcriptions";

/// The longest API error detail, in characters, that a message repeats.
pub const API_ERROR_DETAIL_LIMIT: usize = 300;

/// Which audio operation a recording is meant for.
#[derive(Clone, Copy, Debug, PartialEq, Eq, Structural)]
pub enum AudioRequestKind {
    Transcription,
    Translation,
}

/// The JSON reply of a successful audio request.
#[derive(Debug)]
pub struct AudioTextResponse {
    pub text: Option<String>,
}

/// The `error` object of a JSON error reply.
#[derive(Debug)]
pub struct ApiErrorBody {
    pub message: Option<String>,
    pub code: Option<String>,
}

/// Why a successful reply yields no text.
#[derive(Debug, PartialEq, Eq, Structural)]
pub enum AudioTextError {
    MissingText,
}

impl AudioTextError {
    pub fn message(&self) -> (m: String)
        ensures
            m@ == "Audio response does not contain a text field."@,
    {
        string_from("Audio response does not contain a text field.")
    }
}

/// The reply holds text that is not blank.
pub open spec fn has_text(response: AudioTextResponse) -> bool {
    response.text matches Some(t) && trim(t@).len() > 0
}

impl AudioTextResponse {
    /// The recognized text; a missing or blank text is an error.
    pub fn into_text(self) -> (r: Result<String, AudioTextError>)
        ensures
            has_text(self) ==> (r matches Ok(t) && self.text == Some(t)),
            !has_text(self) ==> r == Err::<String, AudioTextError>(AudioTextError::MissingText),
    {
        match self.text {
            Some(text) => {
                let trimmed = trim_chars(chars_of(text.as_str()).as_slice());
                if trimmed.len() > 0 {
                    Ok(text)
                } else {
                    Err(AudioTextError::MissingText)
                }
            },
            None => Err(AudioTextError::MissingText),
        }
    }
}

/// `s` with carriage returns and line feeds turned into spaces.
pub open spec fn line_breaks_as_spaces(s: Seq<char>) -> Seq<char> {
    s.map_values(|c: char| if c == '\r' || c == '\n' { ' ' } else { c })
}

/// The detail repeated from an API error message: trimmed, on one line, and
/// at most [`API_ERROR_DETAIL_LIMIT`] characters long.
pub open spec fn api_error_detail(message: Seq<char>) -> Seq<char> {
    let d = line_breaks_as_spaces(trim(message));
    if d.len() > 300 {
        d.take(300)
    } else {
        d
    }
}

/// The part of a JSON error reply that may be shown: its message (when not
/// blank) with its code (when not blank).
pub open spec fn safe_api_error_text(error: Option<ApiErrorBody>) -> Option<Seq<char>> {
    match error {
        Some(e) => match e.message {
            Some(m) => if trim(m@).len() == 0 {
                None
            } else {
                match e.code {
                    Some(c) => if trim(c@).len() > 0 {
                        Some("API error "@ + c@ + ": "@ + api_error_detail(m@))
                    } else {
                        Some("API error: "@ + api_error_detail(m@))
                    },
                    None => Some("API error: "@ + api_error_detail(m@)),
                }
            },
            None => None,
        },
        None => None,
    }
}

/// The message for a refused audio request.
pub open spec fn api_failure_text(
    model: Seq<char>,
    status: nat,
    reason: Seq<char>,
    error: Option<ApiErrorBody>,
) -> Seq<char> {
    let head = "Audio API request failed: "@ + decimal(status) + " "@ + reason + ". Model: "@ + model
        + "."@;
    match safe_api_error_text(error) {
        Some(t) => head + " "@ + t,
        None => head,
    }
}

fn line_breaks_to_spaces(cs: &[char]) -> (out: Vec<char>)
    ensures
        out@ == line_breaks_as_spaces(cs@),
{
    let mut out: Vec<char> = Vec::new();
    let mut i: usize = 0;
    while i < cs.len()
        invariant
            i <= cs.len(),
            out@ == line_breaks_as_spaces(cs@.take(i as int)),
        decreases cs.len() - i,
    {
        let c = cs[i];
        let d = if c == '\r' || c == '\n' {
            ' '
        } else {
            c
        };
        out.push(d);
        proof {
            assert(cs@.take(i + 1) == cs@.take(i as int).push(c));
            assert(line_breaks_as_spaces(cs@.take(i + 1)) =~= line_breaks_as_spaces(
                cs@.take(i as int),
            ).push(d));
        }
        i = i + 1;
    }
    proof {
        assert(cs@.take(cs.len() as int) =~= cs@);
    }
    out
}

/// The text of an API error reply that is safe to show, or `None` where the
/// reply carries no message.
pub fn safe_api_error_message(error: Option<ApiErrorBody>) -> (r: Option<String>)
    ensures
        match safe_api_error_text(error) {
            Some(t) => r matches Some(s) && s@ == t,
            None => r is None,
        },
{
    let e = match error {
        Some(e) => e,
        None => return None,
    };
    let message = match &e.message {
        Some(m) => m,
        None => return None,
    };
    let trimmed = trim_chars(chars_of(message.as_str()).as_slice());
    if trimmed.len() == 0 {
        return None;
    }
    let one_line = line_breaks_to_spaces(trimmed.as_slice());
    let detail = if one_line.len() > API_ERROR_DETAIL_LIMIT {
        sub_chars(one_line.as_slice(), 0, API_ERROR_DETAIL_LIMIT)
    } else {
        one_line
    };
    let mut out = String::new();
    let mut with_code = false;
    if let Some(code) = &e.code {
        let code_trimmed = trim_chars(chars_of(code.as_str()).as_slice());
        if code_trimmed.len() > 0 {
            push_str(&mut out, "API error ");
            push_str(&mut out, code.as_str());
            push_str(&mut out, ": ");
            with_code = true;
        }
    }
    if !with_code {
        push_str(&mut out, "API error: ");
    }
    push_chars(&mut out, detail.as_slice());
    proof {
        let t = safe_api_error_text(Some(e)).unwrap();
        assert(out@ =~= t);
    }
    Some(out)
}

/// The message for an audio request that the API refused with `status`:
/// the status, its reason and the model, then the API's own error message
/// when the reply carries one. Nothing else of the reply is repeated.
pub fn sanitize_api_error(model: &str, status: u16, reason: &str, error: Option<ApiErrorBody>) -> (m:
    String)
    ensures
        m@ == api_failure_text(model@, status as nat, reason@, error),
{
    let ghost error_spec = error;
    let mut message = String::new();
    push_str(&mut message, "Audio API request failed: ");
    push_decimal(&mut message, status as u64);
    push_str(&mut message, " ");
    push_str(&mut message, reason);
    push_str(&mut message, ". Model: ");
    push_str(&mut message, model);
    push_str(&mut message, ".");
    let ghost head = message@;
    match safe_api_error_message(error) {
        Some(api_message) => {
            push_str(&mut message, " ");
            push_str(&mut message, api_message.as_str());
            proof {
                assert(message@ =~= api_failure_text(model@, status as nat, reason@, error_spec));
            }
        },
        None => {
            proof {
                assert(message@ =~= api_failure_text(model@, status as nat, reason@, error_spec));
            }
        },
    }
    message
}

/// A status code in the `2xx` range, as `http::StatusCode::is_success` has it.
pub open spec fn is_success_status(status: nat) -> bool {
    200 <= status < 300
}

/// Whether a reply with `status` carries a result rather than an error.
pub fn status_is_success(status: u16) -> (r: bool)
    ensures
        r == is_success_status(status as nat),
{
    200 <= status && status < 300
}

/// The reason phrase used where a status has no canonical one.
pub open spec fn reason_or_default(reason: Option<Seq<char>>) -> Seq<char> {
    match reason {
        Some(r) => r,
        None => "HTTP error"@,
    }
}

/// The message for a refused request whose status may lack a canonical reason phrase.
pub fn refused_request_message(
    model: &str,
    status: u16,
    reason: Option<&str>,
    error: Option<ApiErrorBody>,
) -> (m: String)
    ensures
        m@ == api_failure_text(
            model@,
            status as nat,
            reason_or_default(
                match reason {
                    Some(r) => Some(r@),
                    None => None,
                },
            ),
            error,
        ),
{
    match reason {
        Some(r) => sanitize_api_error(model, status, r, error),
        None => sanitize_api_error(model, status, "HTTP error", error),
    }
}

/// The language a request is sent with: the given one trimmed, unless blank.
pub open spec fn request_language(language: Option<Seq<char>>) -> Seq<char> {
    match language {
        Some(l) => if trim(l).len() > 0 {
            trim(l)
        } else {
            DEFAULT_INPUT_LANGUAGE@
        },
        None => DEFAULT_INPUT_LANGUAGE@,
    }
}

/// The text of a temperature given in tenths, as `f64`'s `Display` writes
/// the value `tenths / 10`: `2` gives `0.2`, `10` gives `1`.
pub open spec fn tenths_text(tenths: int) -> Seq<char> {
    let a = if tenths < 0 {
        -tenths
    } else {
        tenths
    };
    let sign = if tenths < 0 {
        "-"@
    } else {
        Seq::<char>::empty()
    };
    if a % 10 == 0 {
        sign + decimal((a / 10) as nat)
    } else {
        sign + decimal((a / 10) as nat) + seq!['.', digit_char((a % 10) as nat)]
    }
}

/// The text of a temperature given in tenths.
pub fn temperature_text(tenths: i64) -> (s: String)
    ensures
        s@ == tenths_text(tenths as int),
{
    let negative = tenths < 0;
    let a: u64 = if negative {
        (0i128 - tenths as i128) as u64
    } else {
        tenths as u64
    };
    let mut s = String::new();
    if negative {
        push_str(&mut s, "-");
    }
    push_decimal(&mut s, a / 10);
    if a % 10 != 0 {
        crate::text::push_char(&mut s, '.');
        crate::text::push_char(&mut s, digit(a % 10));
    }
    proof {
        reveal_strlit("-");
        assert(s@ =~= tenths_text(tenths as int));
    }
    s
}

/// The text of a temperature given in tenths with exactly one decimal, as
/// `format!("{:.1}", tenths / 10)` writes it: `2` gives `0.2`, `10` gives `1.0`.
pub open spec fn tenths_label(tenths: int) -> Seq<char> {
    let a = if tenths < 0 {
        -tenths
    } else {
        tenths
    };
    let sign = if tenths < 0 {
        "-"@
    } else {
        Seq::<char>::empty()
    };
    sign + decimal((a / 10) as nat) + seq!['.', digit_char((a % 10) as nat)]
}

/// The temperature as the settings window shows it, with one decimal.
pub fn temperature_label(tenths: i64) -> (s: String)
    ensures
        s@ == tenths_label(tenths as int),
{
    let negative = tenths < 0;
    let a: u64 = if negative {
        (0i128 - tenths as i128) as u64
    } else {
        tenths as u64
    };
    let mut s = String::new();
    if negative {
        push_str(&mut s, "-");
    }
    push_decimal(&mut s, a / 10);
    crate::text::push_char(&mut s, '.');
    crate::text::push_char(&mut s, digit(a % 10));
    proof {
        reveal_strlit("-");
        assert(s@ =~= tenths_label(tenths as int));
    }
    s
}

/// An audio request as the caller gives it.
pub struct SendAudioRequest<'a> {
    pub base_url: &'a str,
    pub api_key: &'a str,
    pub model: &'a str,
    pub language: Option<&'a str>,
    /// The sampling temperature in tenths, when one is sent.
    pub temperature_tenths: Option<i64>,
    pub wav_bytes: Vec<u8>,
}

/// What is sent for an audio request besides the WAV file.
#[derive(Debug)]
pub struct AudioRequestPlan {
    /// The URL the multipart form is posted to.
    pub url: String,
    /// The `model` form field.
    pub model: String,
    /// The `response_format` form field.
    pub response_format: String,
    /// The `language` form field.
    pub language: String,
    /// The `temperature` form field, when one is sent.
    pub temperature: Option<String>,
    /// The bearer token, sent when the API key is not blank.
    pub bearer_token: Option<String>,
}

/// The bearer token for an API key: the key itself unless it is blank.
pub open spec fn bearer_for(api_key: Seq<char>) -> Option<Seq<char>> {
    if trim(api_key).len() > 0 {
        Some(api_key)
    } else {
        None
    }
}

/// The bearer token for `api_key`, or `None` for a blank key.
pub fn bearer_token(api_key: &str) -> (r: Option<String>)
    ensures
        match bearer_for(api_key@) {
            Some(k) => r matches Some(s) && s@ == k,
            None => r is None,
        },
{
    let trimmed = trim_chars(chars_of(api_key).as_slice());
    if trimmed.len() > 0 {
        Some(string_from(api_key))
    } else {
        None
    }
}

/// Plans a transcription request: the endpoint under the base URL, the form
/// fields and the authorization. Fails exactly where [`endpoint`] does.
pub fn plan_audio_request(request: &SendAudioRequest) -> (r: Result<AudioRequestPlan, EndpointError>)
    ensures
        names_audio_endpoint(trim(request.base_url@)) ==> r matches Err(
            EndpointError::AudioEndpointInBase,
        ),
        !names_audio_endpoint(trim(request.base_url@)) ==> match url_resolution(
            directory_base(request.base_url@),
            relative_path(AUDIO_TRANSCRIPTION_ENDPOINT_PATH@),
        ) {
            Some(u) => r matches Ok(p) && p.url@ == u && p.model@ == request.model@
                && p.response_format@ == AUDIO_RESPONSE_FORMAT@ && p.language@ == request_language(
                match request.language {
                    Some(l) => Some(l@),
                    None => None,
                },
            ) && match request.temperature_tenths {
                Some(t) => p.temperature matches Some(s) && s@ == tenths_text(t as int),
                None => p.temperature is None,
            } && match bearer_for(request.api_key@) {
                Some(k) => p.bearer_token matches Some(b) && b@ == k,
                None => p.bearer_token is None,
            },
            None => r matches Err(EndpointError::InvalidUrl(_)),
        },
{
    let url = match endpoint(request.base_url, AUDIO_TRANSCRIPTION_ENDPOINT_PATH) {
        Ok(u) => u,
        Err(e) => return Err(e),
    };
    let language = match request.language {
        Some(l) => {
            let trimmed = trim_chars(chars_of(l).as_slice());
            if trimmed.len() > 0 {
                string_of(trimmed.as_slice())
            } else {
                string_from(DEFAULT_INPUT_LANGUAGE)
            }
        },
        None => string_from(DEFAULT_INPUT_LANGUAGE),
    };
    let temperature = match request.temperature_tenths {
        Some(t) => Some(temperature_text(t)),
        None => None,
    };
    Ok(
        AudioRequestPlan {
            url,
            model: string_from(request.model),
            response_format: string_from(AUDIO_RESPONSE_FORMAT),
            language,
            temperature,
            bearer_token: bearer_token(request.api_key),
        },
    )
}

} // verus!
