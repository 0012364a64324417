//! OpenAI-compatible batch transcription: the request that goes to curl, and what the answer
//! says.

use crate::curl::{
    escape_curl_config, escaped, secure_endpoint, CurlFailure, CurlResponse,
    DEFAULT_MAX_RESPONSE_BYTES,
};
use crate::error::{ErrorCategory, VoxError};
use crate::json::{json_read, read_json, read_model, Json, JsonModel};
use crate::provider::{AudioAcceptance, ProviderAttemptFailure};
use crate::secret::SecretString;
use crate::text::{join2, join3, owned, texts, trim, trimmed};
use vstd::prelude::*;
use vstd::string::*;

verus! {

pub struct RestProviderConfig {
    pub endpoint: String,
    pub model: String,
    pub api_key: SecretString,
    pub timeout_seconds: u64,
}

#[derive(Debug, Eq, PartialEq)]
pub struct Transcription {
    pub text: String,
    pub usage: ApiUsage,
}

/// Token counters explicitly reported by a provider response.
///
/// Missing fields remain `None`; tokens are not estimated from audio duration or transcript
/// length.
#[derive(Clone, Copy, Debug, Eq, PartialEq)]
pub struct ApiUsage {
    pub input_tokens: Option<u64>,
    pub output_tokens: Option<u64>,
    pub total_tokens: Option<u64>,
}

impl Default for ApiUsage {
    fn default() -> (usage: Self)
        ensures
            usage == unknown_usage(),
    {
        ApiUsage { input_tokens: None, output_tokens: None, total_tokens: None }
    }
}

pub open spec fn unknown_usage() -> ApiUsage {
    ApiUsage { input_tokens: None, output_tokens: None, total_tokens: None }
}

/// Validates that a provider endpoint uses HTTPS, except for loopback addresses.
pub fn validate_endpoint(endpoint: &str) -> (r: Result<(), VoxError>)
    ensures
        match r {
            Ok(_) => secure_endpoint(endpoint@),
            Err(error) => !secure_endpoint(endpoint@) && error.says(
                ErrorCategory::Configuration,
                "provider.insecure_endpoint"@,
                "provider endpoint must use HTTPS or loopback HTTP"@,
                false,
            ),
        },
{
    crate::curl::validate_endpoint(endpoint, "provider endpoint must use HTTPS or loopback HTTP")
}

/// What curl is to be run with.
#[derive(Debug)]
pub struct HttpRequest {
    pub arguments: Vec<String>,
    pub timeout_seconds: u64,
    /// Goes to curl's standard input, since it holds the key.
    pub config_input: String,
    pub max_response_bytes: usize,
}

/// The arguments for one transcription.
pub open spec fn transcription_arguments(
    config: RestProviderConfig,
    wav_path: Seq<char>,
    language: Seq<char>,
) -> Seq<Seq<char>> {
    let form = seq![
        "--request"@,
        "POST"@,
        "--form"@,
        "file=@"@ + wav_path + ";type=audio/wav"@,
        "--form-string"@,
        "model="@ + config.model@,
        "--form-string"@,
        "response_format=json"@,
    ];
    let spoken = if language.len() > 0 {
        seq!["--form-string"@, "language="@ + language]
    } else {
        Seq::empty()
    };
    form + spoken + seq!["--url"@, config.endpoint@]
}

/// The headers of the request.
pub open spec fn bearer_headers(key: Seq<char>) -> Seq<char> {
    "header = \"Authorization: Bearer "@ + escaped(key)
        + "\"\nheader = \"Accept: application/json\"\n"@
}

fn request_arguments(config: &RestProviderConfig, wav_path: &str, language: &str) -> (r: Vec<
    String,
>)
    ensures
        texts(r@) == transcription_arguments(*config, wav_path@, language@),
{
    let mut arguments: Vec<String> = Vec::new();
    arguments.push(owned("--request"));
    arguments.push(owned("POST"));
    arguments.push(owned("--form"));
    arguments.push(join3("file=@", wav_path, ";type=audio/wav"));
    arguments.push(owned("--form-string"));
    arguments.push(join2("model=", config.model.as_str()));
    arguments.push(owned("--form-string"));
    arguments.push(owned("response_format=json"));
    if language.unicode_len() > 0 {
        arguments.push(owned("--form-string"));
        arguments.push(join2("language=", language));
    }
    arguments.push(owned("--url"));
    arguments.push(config.endpoint.clone());
    assert(texts(arguments@) =~= transcription_arguments(*config, wav_path@, language@));
    arguments
}

/// The request for a recording that was staged as the file `staged`, or that could not be staged
/// for the reason given.
pub fn prepare_request(
    config: &RestProviderConfig,
    staged: Result<&str, &str>,
    language: &str,
) -> (r: Result<HttpRequest, ProviderAttemptFailure>)
    ensures
        match r {
            Ok(request) => {
                &&& secure_endpoint(config.endpoint@)
                &&& staged is Ok
                &&& texts(request.arguments@) == transcription_arguments(
                    *config,
                    staged->Ok_0@,
                    language@,
                )
                &&& request.timeout_seconds == config.timeout_seconds
                &&& request.config_input@ == bearer_headers(config.api_key@)
                &&& request.max_response_bytes == DEFAULT_MAX_RESPONSE_BYTES
            },
            Err(failure) => {
                &&& !failure.transport_started
                &&& failure.audio_acceptance == AudioAcceptance::NotAccepted
                &&& if !secure_endpoint(config.endpoint@) {
                    failure.error.says(
                        ErrorCategory::Configuration,
                        "provider.insecure_endpoint"@,
                        "provider endpoint must use HTTPS or loopback HTTP"@,
                        false,
                    )
                } else {
                    &&& staged is Err
                    &&& failure.error.says(
                        ErrorCategory::Internal,
                        "provider.io_failed"@,
                        staged->Err_0@,
                        false,
                    )
                }
            },
        },
{
    match validate_endpoint(config.endpoint.as_str()) {
        Ok(_) => {},
        Err(error) => {
            return Err(ProviderAttemptFailure::before_transport(error));
        },
    }
    match staged {
        Err(reason) => Err(
            ProviderAttemptFailure::before_transport(
                VoxError::new(ErrorCategory::Internal, "provider.io_failed", reason),
            ),
        ),
        Ok(wav_path) => {
            let key = escape_curl_config(config.api_key.expose());
            Ok(
                HttpRequest {
                    arguments: request_arguments(config, wav_path, language),
                    timeout_seconds: config.timeout_seconds,
                    config_input: join3(
                        "header = \"Authorization: Bearer ",
                        key.as_str(),
                        "\"\nheader = \"Accept: application/json\"\n",
                    ),
                    max_response_bytes: DEFAULT_MAX_RESPONSE_BYTES,
                },
            )
        },
    }
}

/// The first of two members that holds an unsigned number.
pub open spec fn counter_in(usage: JsonModel, name: Seq<char>, other: Seq<char>) -> Option<u64> {
    let first = match usage.member(name) {
        Some(value) => value.unsigned(),
        None => None,
    };
    if first is Some {
        first
    } else {
        match usage.member(other) {
            Some(value) => value.unsigned(),
            None => None,
        }
    }
}

/// The counters that an answer reports.
pub open spec fn usage_of(document: JsonModel) -> ApiUsage {
    match document.member("usage"@) {
        Some(usage) if usage is Object => ApiUsage {
            input_tokens: counter_in(usage, "input_tokens"@, "prompt_tokens"@),
            output_tokens: counter_in(usage, "output_tokens"@, "completion_tokens"@),
            total_tokens: counter_in(usage, "total_tokens"@, "total_tokens"@),
        },
        _ => unknown_usage(),
    }
}

fn first_u64(usage: &Json, name: &str, other: &str) -> (r: Option<u64>)
    ensures
        r == counter_in(usage@, name@, other@),
{
    let first = match usage.get(name) {
        Some(value) => value.as_unsigned(),
        None => None,
    };
    if first.is_some() {
        return first;
    }
    match usage.get(other) {
        Some(value) => value.as_unsigned(),
        None => None,
    }
}

/// Reads the token counters out of an answer.
pub fn parse_usage(document: &Json) -> (usage: ApiUsage)
    ensures
        usage == usage_of(document@),
{
    match document.get("usage") {
        Some(usage) => {
            if !usage.is_object() {
                return ApiUsage::default();
            }
            ApiUsage {
                input_tokens: first_u64(usage, "input_tokens", "prompt_tokens"),
                output_tokens: first_u64(usage, "output_tokens", "completion_tokens"),
                total_tokens: first_u64(usage, "total_tokens", "total_tokens"),
            }
        },
        None => ApiUsage::default(),
    }
}

/// The text of an answer, without the white space around it.
pub open spec fn spoken_text(document: JsonModel) -> Option<Seq<char>> {
    match document.member("text"@) {
        Some(value) => match value.text() {
            Some(text) => if trimmed(text).len() > 0 {
                Some(trimmed(text))
            } else {
                None
            },
            None => None,
        },
        None => None,
    }
}

/// `r` is what a complete answer leads to.
pub open spec fn answers(
    r: Result<Transcription, ProviderAttemptFailure>,
    read: Result<JsonModel, Seq<char>>,
) -> bool {
    match r {
        Ok(transcription) => {
            &&& read is Ok
            &&& spoken_text(read->Ok_0) == Some(transcription.text@)
            &&& transcription.usage == usage_of(read->Ok_0)
        },
        Err(failure) => {
            &&& failure.transport_started
            &&& failure.audio_acceptance == AudioAcceptance::Accepted
            &&& match read {
                Err(reason) => failure.error.says(
                    ErrorCategory::Protocol,
                    "provider.invalid_json"@,
                    "provider returned invalid JSON: "@ + reason,
                    false,
                ),
                Ok(document) => spoken_text(document) is None && failure.error.says(
                    ErrorCategory::Protocol,
                    "provider.missing_text"@,
                    "provider response did not contain non-empty text"@,
                    false,
                ),
            }
        },
    }
}

/// The transcription that an answer holds, from what was read out of its bytes.
pub fn transcription_in(read: Result<Json, String>) -> (r: Result<
    Transcription,
    ProviderAttemptFailure,
>)
    ensures
        answers(r, read_model(read)),
{
    let document = match read {
        Ok(document) => document,
        Err(reason) => {
            let message = join2("provider returned invalid JSON: ", reason.as_str());
            return Err(
                ProviderAttemptFailure::after_transport(
                    VoxError::new(
                        ErrorCategory::Protocol,
                        "provider.invalid_json",
                        message.as_str(),
                    ),
                    AudioAcceptance::Accepted,
                ),
            );
        },
    };
    match document.get("text") {
        Some(value) => match value.as_text() {
            Some(text) => {
                let spoken = trim(text);
                if spoken.unicode_len() > 0 {
                    return Ok(
                        Transcription { text: owned(spoken), usage: parse_usage(&document) },
                    );
                }
            },
            None => {},
        },
        None => {},
    }
    Err(
        ProviderAttemptFailure::after_transport(
            VoxError::new(
                ErrorCategory::Protocol,
                "provider.missing_text",
                "provider response did not contain non-empty text",
            ),
            AudioAcceptance::Accepted,
        ),
    )
}

/// Concludes a request from what curl brought.
pub fn finish_request(outcome: Result<CurlResponse, CurlFailure>) -> (r: Result<
    Transcription,
    ProviderAttemptFailure,
>)
    ensures
        match outcome {
            Err(failure) => r matches Err(attempt) && {
                &&& attempt.error.says(
                    failure@.category,
                    "provider.http_failed"@,
                    failure@.message,
                    failure@.retryable,
                )
                &&& attempt.transport_started == failure@.transport_started
                &&& attempt.audio_acceptance == failure@.audio_acceptance
            },
            Ok(response) => answers(r, json_read(response.body@)),
        },
{
    match outcome {
        Err(failure) => Err(failure.into_attempt_failure("provider.http_failed")),
        Ok(response) => transcription_in(read_json(&response.body)),
    }
}

/// An answer with a text that is not blank succeeds with that text, without the white space around
/// it; any other answer fails, and the recording counts as accepted all the same.
pub proof fn law_answer_holds_its_text(
    r: Result<Transcription, ProviderAttemptFailure>,
    document: JsonModel,
    text: Seq<char>,
)
    requires
        answers(r, Ok(document)),
    ensures
        document.member("text"@) == Some(JsonModel::Text(text)) && !crate::text::blank(text) ==> {
            &&& r is Ok
            &&& r->Ok_0.text@ == trimmed(text)
        },
        document.member("text"@) == Some(JsonModel::Text(text)) && crate::text::blank(text) ==> r
            is Err,
        document.member("text"@) is None ==> r is Err,
        r is Err ==> {
            &&& r->Err_0.error.code_text() == "provider.missing_text"@
            &&& r->Err_0.error.kind() == ErrorCategory::Protocol
            &&& !r->Err_0.error.retry()
            &&& r->Err_0.transport_started
            &&& r->Err_0.audio_acceptance == AudioAcceptance::Accepted
        },
{
    crate::text::lemma_trimmed_empty(text);
}

/// The tokens of an answer are counted under either of the names that providers use for them; the
/// first name goes before the second.
pub proof fn law_tokens_go_by_either_name(
    document: JsonModel,
    members: Seq<(Seq<char>, JsonModel)>,
    count: u64,
)
    requires
        document.member("usage"@) == Some(JsonModel::Object(members)),
    ensures
        ({
            let usage = JsonModel::Object(members);
            let told = JsonModel::Unsigned(count);
            &&& usage.member("input_tokens"@) == Some(told) ==> usage_of(document).input_tokens
                == Some(count)
            &&& usage.member("input_tokens"@) is None && usage.member("prompt_tokens"@) == Some(
                told,
            ) ==> usage_of(document).input_tokens == Some(count)
            &&& usage.member("output_tokens"@) == Some(told) ==> usage_of(document).output_tokens
                == Some(count)
            &&& usage.member("output_tokens"@) is None && usage.member("completion_tokens"@)
                == Some(told) ==> usage_of(document).output_tokens == Some(count)
            &&& usage.member("total_tokens"@) == Some(told) ==> usage_of(document).total_tokens
                == Some(count)
            &&& usage.member("total_tokens"@) is None ==> usage_of(document).total_tokens is None
        }),
{
}

/// The language goes into a request only where one is wanted; the file, the model and the address
/// always do.
pub proof fn law_request_names_what_is_wanted(
    config: RestProviderConfig,
    wav_path: Seq<char>,
    language: Seq<char>,
)
    ensures
        ({
            let arguments = transcription_arguments(config, wav_path, language);
            let n = arguments.len() as int;
            &&& n == (if language.len() > 0 {
                12int
            } else {
                10
            })
            &&& arguments[0] == "--request"@ && arguments[1] == "POST"@
            &&& arguments[2] == "--form"@
            &&& arguments[3] == "file=@"@ + wav_path + ";type=audio/wav"@
            &&& arguments[4] == "--form-string"@ && arguments[5] == "model="@ + config.model@
            &&& language.len() > 0 ==> arguments[n - 4] == "--form-string"@ && arguments[n - 3]
                == "language="@ + language
            &&& arguments[n - 2] == "--url"@ && arguments[n - 1] == config.endpoint@
        }),
{
}

} // verus!
