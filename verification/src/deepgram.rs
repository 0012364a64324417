//! Deepgram prerecorded speech recognition: the request that goes to curl, and what the answer
//! says.

use crate::curl::{escape_curl_config, escaped, secure_endpoint};
use crate::error::{ErrorCategory, VoxError};
use crate::json::{json_read, read_json, read_model, Json, JsonModel};
use crate::percent::{percent_encode, percent_encoded};
use crate::secret::SecretString;
use crate::text::{
    contains, contains_text, decimal, decode_lossy, find_char, first_chars, first_line, has_char,
    join2, join3, lossy_text, owned, take_chars, text_first_line, texts, to_chars, trim, trimmed,
    truth_text, write_number, write_truth,
};
use vstd::prelude::*;
use vstd::string::*;

verus! {

pub struct DeepgramConfig {
    pub endpoint: String,
    pub model: String,
    pub api_key: SecretString,
    pub timeout_seconds: u64,
    pub smart_format: bool,
}

#[derive(Debug, Eq, PartialEq)]
pub struct Transcription {
    pub text: String,
}

/// Validates that an endpoint uses HTTPS, except for loopback addresses.
pub fn validate_endpoint(endpoint: &str) -> (r: Result<(), VoxError>)
    ensures
        match r {
            Ok(_) => secure_endpoint(endpoint@),
            Err(error) => !secure_endpoint(endpoint@) && error.says(
                ErrorCategory::Configuration,
                "provider.insecure_endpoint"@,
                "Deepgram endpoint must use HTTPS or loopback HTTP"@,
                false,
            ),
        },
{
    crate::curl::validate_endpoint(endpoint, "Deepgram endpoint must use HTTPS or loopback HTTP")
}

/// The address of one transcription.
pub open spec fn listen_url(config: DeepgramConfig, language: Seq<char>) -> Seq<char> {
    let separator = if has_char(config.endpoint@, '?') {
        "&"@
    } else {
        "?"@
    };
    let spoken = if language.len() > 0 {
        "&language="@ + percent_encoded(language)
    } else {
        Seq::empty()
    };
    config.endpoint@ + separator + "model="@ + percent_encoded(config.model@) + "&smart_format="@
        + truth_text(config.smart_format) + spoken
}

pub fn request_url(config: &DeepgramConfig, language: &str) -> (url: String)
    ensures
        url@ == listen_url(*config, language@),
{
    let chars = to_chars(config.endpoint.as_str());
    let separator = if find_char(&chars, '?').is_some() {
        "&"
    } else {
        "?"
    };
    let model = percent_encode(config.model.as_str());
    let mut url = join3(config.endpoint.as_str(), separator, "model=");
    url.append(model.as_str());
    url.append("&smart_format=");
    url.append(write_truth(config.smart_format));
    if language.unicode_len() > 0 {
        let spoken = percent_encode(language);
        url.append("&language=");
        url.append(spoken.as_str());
    }
    assert(url@ =~= listen_url(*config, language@));
    url
}

/// What curl is to be run with.
#[derive(Debug)]
pub struct HttpRequest {
    pub arguments: Vec<String>,
    /// Goes to curl's standard input, since it holds the key.
    pub config_input: String,
}

/// The arguments for one transcription.
pub open spec fn listen_arguments(
    config: DeepgramConfig,
    wav_path: Seq<char>,
    language: Seq<char>,
) -> Seq<Seq<char>> {
    seq![
        "--silent"@,
        "--show-error"@,
        "--fail-with-body"@,
        "--location"@,
        "--request"@,
        "POST"@,
        "--max-time"@,
        decimal(config.timeout_seconds as nat),
        "--config"@,
        "-"@,
        "--header"@,
        "Content-Type: application/octet-stream"@,
        "--data-binary"@,
        "@"@ + wav_path,
        listen_url(config, language),
    ]
}

/// The headers of the request.
pub open spec fn token_headers(key: Seq<char>) -> Seq<char> {
    "header = \"Authorization: Token "@ + escaped(key)
        + "\"\nheader = \"Accept: application/json\"\n"@
}

fn request_arguments(config: &DeepgramConfig, wav_path: &str, language: &str) -> (r: Vec<String>)
    ensures
        texts(r@) == listen_arguments(*config, wav_path@, language@),
{
    let mut arguments: Vec<String> = Vec::new();
    arguments.push(owned("--silent"));
    arguments.push(owned("--show-error"));
    arguments.push(owned("--fail-with-body"));
    arguments.push(owned("--location"));
    arguments.push(owned("--request"));
    arguments.push(owned("POST"));
    arguments.push(owned("--max-time"));
    arguments.push(write_number(config.timeout_seconds));
    arguments.push(owned("--config"));
    arguments.push(owned("-"));
    arguments.push(owned("--header"));
    arguments.push(owned("Content-Type: application/octet-stream"));
    arguments.push(owned("--data-binary"));
    arguments.push(join2("@", wav_path));
    arguments.push(request_url(config, language));
    assert(texts(arguments@) =~= listen_arguments(*config, wav_path@, language@));
    arguments
}

/// The request for a recording that was staged as the file `staged`, or that could not be staged
/// for the reason given.
pub fn prepare_request(config: &DeepgramConfig, staged: Result<&str, &str>, language: &str) -> (r:
    Result<HttpRequest, VoxError>)
    ensures
        match r {
            Ok(request) => {
                &&& secure_endpoint(config.endpoint@)
                &&& staged is Ok
                &&& texts(request.arguments@) == listen_arguments(
                    *config,
                    staged->Ok_0@,
                    language@,
                )
                &&& request.config_input@ == token_headers(config.api_key@)
            },
            Err(error) => if !secure_endpoint(config.endpoint@) {
                error.says(
                    ErrorCategory::Configuration,
                    "provider.insecure_endpoint"@,
                    "Deepgram endpoint must use HTTPS or loopback HTTP"@,
                    false,
                )
            } else {
                staged is Err && error.says(
                    ErrorCategory::Internal,
                    "provider.deepgram.io_failed"@,
                    staged->Err_0@,
                    false,
                )
            },
        },
{
    match validate_endpoint(config.endpoint.as_str()) {
        Ok(_) => {},
        Err(error) => {
            return Err(error);
        },
    }
    match staged {
        Err(reason) => Err(io_error(reason)),
        Ok(wav_path) => {
            let key = escape_curl_config(config.api_key.expose());
            Ok(
                HttpRequest {
                    arguments: request_arguments(config, wav_path, language),
                    config_input: join3(
                        "header = \"Authorization: Token ",
                        key.as_str(),
                        "\"\nheader = \"Accept: application/json\"\n",
                    ),
                },
            )
        },
    }
}

/// A failure of input or output.
pub fn io_error(reason: &str) -> (error: VoxError)
    ensures
        error.says(
            ErrorCategory::Internal,
            "provider.deepgram.io_failed"@,
            reason@,
            false,
        ),
{
    VoxError::new(ErrorCategory::Internal, "provider.deepgram.io_failed", reason)
}

/// curl could not be started.
pub fn curl_unavailable(reason: &str) -> (error: VoxError)
    ensures
        error.says(
            ErrorCategory::Unavailable,
            "provider.deepgram.curl_unavailable"@,
            "could not start curl: "@ + reason@,
            false,
        ),
{
    let message = join2("could not start curl: ", reason);
    VoxError::new(
        ErrorCategory::Unavailable,
        "provider.deepgram.curl_unavailable",
        message.as_str(),
    )
}

/// What a failure of curl means, by the status that its message speaks of.
pub open spec fn failure_meaning(message: Seq<char>) -> (ErrorCategory, bool) {
    if contains_text(message, "401"@) || contains_text(message, "403"@) {
        (ErrorCategory::Authentication, false)
    } else if contains_text(message, "400"@) || contains_text(message, "404"@) || contains_text(
        message,
        "422"@,
    ) {
        (ErrorCategory::Protocol, false)
    } else if contains_text(message, "429"@) {
        (ErrorCategory::RateLimited, true)
    } else {
        (ErrorCategory::Unavailable, true)
    }
}

pub fn classify_http_failure(message: &str) -> (r: (ErrorCategory, bool))
    ensures
        r == failure_meaning(message@),
{
    if contains(message, "401") || contains(message, "403") {
        (ErrorCategory::Authentication, false)
    } else if contains(message, "400") || contains(message, "404") || contains(message, "422") {
        (ErrorCategory::Protocol, false)
    } else if contains(message, "429") {
        (ErrorCategory::RateLimited, true)
    } else {
        (ErrorCategory::Unavailable, true)
    }
}

/// The first 300 characters of the first line, or a message of its own where there are none.
pub open spec fn sanitized(message: Seq<char>) -> Seq<char> {
    let line = first_chars(first_line(message), 300);
    if line.len() == 0 {
        "Deepgram request failed"@
    } else {
        line
    }
}

pub fn sanitize_transport_error(message: &str) -> (r: String)
    ensures
        r@ == sanitized(message@),
{
    let line = take_chars(text_first_line(message), 300);
    if line.as_str().unicode_len() == 0 {
        owned("Deepgram request failed")
    } else {
        line
    }
}

/// The error that a failed run of curl stands for, from its diagnostics.
pub fn http_failure(diagnostics: &str) -> (error: VoxError)
    ensures
        error.says(
            failure_meaning(sanitized(diagnostics@)).0,
            "provider.deepgram.http_failed"@,
            sanitized(diagnostics@),
            failure_meaning(sanitized(diagnostics@)).1,
        ),
{
    let message = sanitize_transport_error(diagnostics);
    let (category, retryable) = classify_http_failure(message.as_str());
    VoxError::new(category, "provider.deepgram.http_failed", message.as_str()).with_retryable(
        retryable,
    )
}

/// One step along the way to the transcript.
pub open spec fn along(
    value: Option<JsonModel>,
    token: Seq<char>,
    index: Option<nat>,
) -> Option<JsonModel> {
    match value {
        Some(value) => value.pointed(token, index),
        None => None,
    }
}

/// The first alternative of the first channel of an answer.
pub open spec fn first_transcript(document: JsonModel) -> Option<JsonModel> {
    let channels = along(document.pointed("results"@, None), "channels"@, None);
    let alternatives = along(along(channels, "0"@, Some(0)), "alternatives"@, None);
    along(along(alternatives, "0"@, Some(0)), "transcript"@, None)
}

/// The transcript of an answer, without the white space around it.
pub open spec fn heard_text(document: JsonModel) -> Option<Seq<char>> {
    match first_transcript(document) {
        Some(value) => match value.text() {
            Some(text) => if trimmed(text).len() > 0 {
                Some(trimmed(text))
            } else {
                None
            },
            None => None,
        },
        None => None,
    }
}

/// `r` is what a complete answer leads to.
pub open spec fn answers(
    r: Result<Transcription, VoxError>,
    read: Result<JsonModel, Seq<char>>,
) -> bool {
    match r {
        Ok(transcription) => read is Ok && heard_text(read->Ok_0) == Some(transcription.text@),
        Err(error) => match read {
            Err(reason) => error.says(
                ErrorCategory::Protocol,
                "provider.deepgram.invalid_json"@,
                "Deepgram returned invalid JSON: "@ + reason,
                false,
            ),
            Ok(document) => heard_text(document) is None && error.says(
                ErrorCategory::Protocol,
                "provider.deepgram.missing_transcript"@,
                "Deepgram response did not contain a non-empty transcript"@,
                false,
            ),
        },
    }
}

fn transcript_of(document: &Json) -> (r: Option<&str>)
    ensures
        match r {
            Some(text) => heard_text(document@) == Some(text@),
            None => heard_text(document@) is None,
        },
{
    let value = document.point("results", None)?.point("channels", None)?.point(
        "0",
        Some(0),
    )?.point("alternatives", None)?.point("0", Some(0))?.point("transcript", None)?;
    let spoken = trim(value.as_text()?);
    if spoken.unicode_len() > 0 {
        Some(spoken)
    } else {
        None
    }
}

/// The transcription that an answer holds, from what was read out of its bytes.
pub fn transcription_in(read: Result<Json, String>) -> (r: Result<Transcription, VoxError>)
    ensures
        answers(r, read_model(read)),
{
    match read {
        Ok(document) => match transcript_of(&document) {
            Some(text) => Ok(Transcription { text: owned(text) }),
            None => Err(
                VoxError::new(
                    ErrorCategory::Protocol,
                    "provider.deepgram.missing_transcript",
                    "Deepgram response did not contain a non-empty transcript",
                ),
            ),
        },
        Err(reason) => {
            let message = join2("Deepgram returned invalid JSON: ", reason.as_str());
            Err(
                VoxError::new(
                    ErrorCategory::Protocol,
                    "provider.deepgram.invalid_json",
                    message.as_str(),
                ),
            )
        },
    }
}

pub fn parse_transcription(response: &[u8]) -> (r: Result<Transcription, VoxError>)
    ensures
        answers(r, json_read(response@)),
{
    transcription_in(read_json(response))
}

/// Concludes a run of curl from its end, its output and its diagnostics.
pub fn finish_request(success: bool, stdout: &[u8], stderr: &[u8]) -> (r: Result<
    Transcription,
    VoxError,
>)
    ensures
        if success {
            answers(r, json_read(stdout@))
        } else {
            r matches Err(error) && {
                let message = sanitized(lossy_text(stderr@));
                error.says(
                    failure_meaning(message).0,
                    "provider.deepgram.http_failed"@,
                    message,
                    failure_meaning(message).1,
                )
            }
        },
{
    if !success {
        let diagnostics = decode_lossy(stderr);
        return Err(http_failure(diagnostics.as_str()));
    }
    parse_transcription(stdout)
}

/// An answer whose first alternative of the first channel holds a text that is not blank succeeds with
/// that text, without the white space around it.
pub proof fn law_first_alternative_is_the_text(
    r: Result<Transcription, VoxError>,
    document: JsonModel,
    channels: Seq<JsonModel>,
    alternatives: Seq<JsonModel>,
    text: Seq<char>,
)
    requires
        answers(r, Ok(document)),
        document.member("results"@) is Some,
        (document.member("results"@)->0).member("channels"@) == Some(JsonModel::Array(channels)),
        channels.len() > 0,
        channels[0].member("alternatives"@) == Some(JsonModel::Array(alternatives)),
        alternatives.len() > 0,
        alternatives[0].member("transcript"@) == Some(JsonModel::Text(text)),
    ensures
        !crate::text::blank(text) ==> r is Ok && r->Ok_0.text@ == trimmed(text),
        crate::text::blank(text) ==> r is Err && r->Err_0.code_text()
            == "provider.deepgram.missing_transcript"@ && !r->Err_0.retry(),
{
    crate::text::lemma_trimmed_empty(text);
    assert(document is Object);
    assert(document.member("results"@)->0 is Object);
    assert(channels[0] is Object);
    assert(alternatives[0] is Object);
    assert(first_transcript(document) == Some(JsonModel::Text(text)));
}

/// A failure may be tried again unless its message speaks of a status that a second try would meet
/// too; being turned away for the key goes before everything else.
pub proof fn law_refusals_are_not_tried_again(message: Seq<char>)
    ensures
        failure_meaning(message).1 <==> !(contains_text(message, "401"@) || contains_text(
            message,
            "403"@,
        ) || contains_text(message, "400"@) || contains_text(message, "404"@) || contains_text(
            message,
            "422"@,
        )),
        failure_meaning(message).0 == ErrorCategory::Authentication <==> contains_text(
            message,
            "401"@,
        ) || contains_text(message, "403"@),
        failure_meaning(message).1 && contains_text(message, "429"@) ==> failure_meaning(message).0
            == ErrorCategory::RateLimited,
        failure_meaning(message).1 && !contains_text(message, "429"@) ==> failure_meaning(message).0
            == ErrorCategory::Unavailable,
{
}

/// The address of a request is the endpoint with the model, the formatting and, where one is wanted,
/// the language behind it; what the endpoint asks for already stays.
pub proof fn law_address_asks_behind_the_endpoint(config: DeepgramConfig, language: Seq<char>)
    ensures
        ({
            let url = listen_url(config, language);
            let asked = if has_char(config.endpoint@, '?') {
                "&model="@
            } else {
                "?model="@
            };
            let plain = config.endpoint@ + asked + percent_encoded(config.model@)
                + "&smart_format="@ + truth_text(config.smart_format);
            &&& language.len() == 0 ==> url == plain
            &&& language.len() > 0 ==> url == plain + "&language="@ + percent_encoded(language)
        }),
{
    reveal_strlit("&model=");
    reveal_strlit("?model=");
    reveal_strlit("model=");
    reveal_strlit("&");
    reveal_strlit("?");
    assert("&"@ + "model="@ =~= "&model="@);
    assert("?"@ + "model="@ =~= "?model="@);
    let url = listen_url(config, language);
    let asked = if has_char(config.endpoint@, '?') {
        "&model="@
    } else {
        "?model="@
    };
    let plain = config.endpoint@ + asked + percent_encoded(config.model@) + "&smart_format="@
        + truth_text(config.smart_format);
    if language.len() == 0 {
        assert(url =~= plain);
    } else {
        assert(url =~= plain + "&language="@ + percent_encoded(language));
    }
}

/// What is shown of a failure is one line of at most 300 characters, and never nothing.
pub proof fn law_shown_failure_is_short(message: Seq<char>)
    ensures
        0 < sanitized(message).len() <= 300,
        !has_char(sanitized(message), '\n'),
{
    reveal_strlit("Deepgram request failed");
    crate::text::law_cut_at_the_first(message, '\n');
    let front = crate::text::before_first(message, '\n');
    let line = first_line(message);
    if has_char(sanitized(message), '\n') {
        let i = choose|i: int|
            0 <= i < sanitized(message).len() && #[trigger] sanitized(message)[i] == '\n';
        if first_chars(line, 300).len() > 0 {
            assert(first_chars(line, 300)[i] == line[i]);
            assert(line[i] == front[i]);
            assert(has_char(front, '\n'));
        }
    }
}

} // verus!
