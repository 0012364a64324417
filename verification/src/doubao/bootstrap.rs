//! Credential bootstrap: device registration and the short-lived recognition token.

use crate::cancellation::CancellationToken;
use crate::curl::{
    escape_curl_config, escaped, secure_endpoint, validate_endpoint, CurlFailure, CurlResponse,
};
use crate::error::{ErrorCategory, VoxError};
use crate::json::{json_document, json_text, parse_json, render_json, Json, JsonModel};
use crate::percent::{percent_encode, percent_encoded, push_upper_hex, upper_hex};
use crate::secret::{
    lacks_control_bytes, no_control_bytes, proper_secret, SecretString,
};
use crate::text::{
    all_digits, are_digits, ascii_alphanumeric, before_first, begins, byte_count, byte_length,
    decimal, find_char, has_char, is_ascii_alphanumeric, join3, lemma_byte_length_joins, same_text,
    starts_with, strip_prefix, text_before_first, to_chars, write_number,
};
use vstd::prelude::*;
use vstd::string::*;
use vstd::utf8::*;

verus! {

pub const MAX_BOOTSTRAP_RESPONSE_BYTES: usize = 1_048_576;

pub const MAX_REGISTRATION_BODY_BYTES: usize = 262_144;

pub const MAX_QUERY_PARAMETERS: usize = 64;

pub const MAX_URL_BYTES: usize = 16_384;

/// HTTP endpoints and timeouts for the credential bootstrap.
///
/// Endpoints have no built-in defaults: choosing the service and the client identity is a
/// distribution policy decision made above this module.
#[derive(Debug, Eq, PartialEq)]
pub struct BootstrapHttpConfig {
    pub registration_endpoint: String,
    pub settings_endpoint: String,
    pub timeout_seconds: u64,
}

/// Caller-supplied client metadata shared by registration and settings calls.
///
/// Query values may hold installation metadata, so the type has no form that shows them.
/// Reserved identity keys are added by this module and cannot be overridden by the caller.
pub struct BootstrapRequestContext {
    pub user_agent: String,
    pub common_query: Vec<(String, String)>,
}

impl BootstrapRequestContext {
    /// What is shown in place of the metadata: only how much there is.
    pub fn redacted(&self) -> (r: String)
        ensures
            r@ == "BootstrapRequestContext { user_agent: \"[redacted]\", common_query: ["@
                + decimal(self.common_query@.len()) + " redacted pairs] }"@,
    {
        let count = write_number(self.common_query.len() as u64);
        join3(
            "BootstrapRequestContext { user_agent: \"[redacted]\", common_query: [",
            count.as_str(),
            " redacted pairs] }",
        )
    }
}

/// Why a credential step failed.
#[derive(Clone, Copy, Debug, Eq, PartialEq)]
pub struct BootstrapError {
    message: &'static str,
}

impl BootstrapError {
    pub closed spec fn view(&self) -> Seq<char> {
        self.message@
    }

    fn new(message: &'static str) -> (error: Self)
        ensures
            error@ == message@,
    {
        BootstrapError { message }
    }

    pub fn message(&self) -> (r: &'static str)
        ensures
            r@ == self@,
    {
        self.message
    }
}

/// Bounded serialized registration document supplied by the client identity layer.
pub struct RegistrationDocument {
    text: String,
}

impl RegistrationDocument {
    pub closed spec fn view(&self) -> Seq<char> {
        self.text@
    }

    /// Keeps the JSON text of an object, under a strict size bound.
    pub fn from_object_text(is_object: bool, text: String) -> (r: Result<Self, BootstrapError>)
        ensures
            match r {
                Ok(document) => {
                    &&& is_object
                    &&& byte_length(text@) <= MAX_REGISTRATION_BODY_BYTES
                    &&& document@ == text@
                },
                Err(error) => {
                    ||| !is_object && error@ == "registration document must be a JSON object"@
                    ||| is_object && byte_length(text@) > MAX_REGISTRATION_BODY_BYTES && error@
                        == "registration document is too large"@
                },
            },
    {
        if !is_object {
            return Err(BootstrapError::new("registration document must be a JSON object"));
        }
        if byte_count(text.as_str()) > MAX_REGISTRATION_BODY_BYTES {
            return Err(BootstrapError::new("registration document is too large"));
        }
        Ok(RegistrationDocument { text })
    }

    /// Serializes a caller-owned JSON object under a strict size bound.
    pub fn from_json(value: &Json) -> (r: Result<Self, BootstrapError>)
        ensures
            match r {
                Ok(document) => {
                    &&& value@ is Object
                    &&& byte_length(json_text(value@)) <= MAX_REGISTRATION_BODY_BYTES
                    &&& document@ == json_text(value@)
                },
                Err(error) => {
                    ||| !(value@ is Object) && error@
                        == "registration document must be a JSON object"@
                    ||| value@ is Object && byte_length(json_text(value@))
                        > MAX_REGISTRATION_BODY_BYTES && error@
                        == "registration document is too large"@
                },
            },
    {
        RegistrationDocument::from_object_text(value.is_object(), render_json(value))
    }

    pub fn len(&self) -> (r: usize)
        ensures
            r == byte_length(self@),
    {
        byte_count(self.text.as_str())
    }

    pub fn is_empty(&self) -> (r: bool)
        ensures
            r == (self@.len() == 0),
    {
        self.text.as_str().unicode_len() == 0
    }

    /// What is shown in place of the document: only its size.
    pub fn redacted(&self) -> (r: String)
        ensures
            r@ == "RegistrationDocument(["@ + decimal(byte_length(self@))
                + " redacted bytes])"@,
    {
        let count = write_number(self.len() as u64);
        join3("RegistrationDocument([", count.as_str(), " redacted bytes])")
    }
}

/// A text of one to `maximum` bytes without control bytes.
pub open spec fn bounded_text(text: Seq<char>, maximum: nat) -> bool {
    let bytes = encode_utf8(text);
    0 < bytes.len() <= maximum && no_control_bytes(bytes)
}

pub fn is_bounded_text(text: &str, maximum: usize) -> (r: bool)
    ensures
        r == bounded_text(text@, maximum as nat),
{
    let bytes = text.as_bytes();
    bytes.len() > 0 && bytes.len() <= maximum && lacks_control_bytes(bytes)
}

/// Persistent identifiers of a device; the type has no form that shows them.
pub struct DeviceIdentity {
    pub client_udid: String,
    pub open_udid: String,
    pub cdid: String,
}

impl DeviceIdentity {
    /// Validates caller-generated persistent identifiers without prescribing a generation
    /// algorithm: each has one to 128 bytes and no control bytes.
    pub fn validate(&self) -> (r: Result<(), BootstrapError>)
        ensures
            ({
                let valid = bounded_text(self.client_udid@, 128) && bounded_text(
                    self.open_udid@,
                    128,
                ) && bounded_text(self.cdid@, 128);
                match r {
                    Ok(_) => valid,
                    Err(error) => !valid && error@ == "invalid persistent device identifier"@,
                }
            }),
    {
        if is_bounded_text(self.client_udid.as_str(), 128) && is_bounded_text(
            self.open_udid.as_str(),
            128,
        ) && is_bounded_text(self.cdid.as_str(), 128) {
            Ok(())
        } else {
            Err(BootstrapError::new("invalid persistent device identifier"))
        }
    }

    /// What is shown in place of the identifiers.
    pub fn redacted(&self) -> (r: &'static str)
        ensures
            r@
                == "DeviceIdentity { client_udid: \"[redacted]\", open_udid: \"[redacted]\", cdid: \"[redacted]\" }"@,
    {
        "DeviceIdentity { client_udid: \"[redacted]\", open_udid: \"[redacted]\", cdid: \"[redacted]\" }"
    }
}

/// Identifiers of a registered device; the type has no form that shows them.
pub struct RegisteredDevice {
    pub device_id: String,
    pub install_id: String,
}

impl RegisteredDevice {
    /// What is shown in place of the identifiers.
    pub fn redacted(&self) -> (r: &'static str)
        ensures
            r@ == "RegisteredDevice { device_id: \"[redacted]\", install_id: \"[redacted]\" }"@,
    {
        "RegisteredDevice { device_id: \"[redacted]\", install_id: \"[redacted]\" }"
    }
}

/// Why something is refused: its code and its message.
pub type Complaint = (Seq<char>, Seq<char>);

/// The error is a configuration error that says this.
pub open spec fn tells(error: VoxError, why: Complaint) -> bool {
    error.says(ErrorCategory::Configuration, why.0, why.1, false)
}

/// What is wrong with an endpoint.
pub open spec fn endpoint_complaint(endpoint: Seq<char>) -> Option<Complaint> {
    if !secure_endpoint(endpoint) {
        Some(
            (
                "provider.insecure_endpoint"@,
                "Doubao bootstrap endpoints must use HTTPS or loopback HTTP"@,
            ),
        )
    } else if has_char(endpoint, '?') || has_char(endpoint, '#') || !no_control_bytes(
        encode_utf8(endpoint),
    ) {
        Some(
            (
                "doubao.invalid_bootstrap_endpoint"@,
                "Doubao bootstrap endpoint must not contain a query, fragment, or control byte"@,
            ),
        )
    } else {
        None
    }
}

pub open spec fn query_key_char(c: char) -> bool {
    ascii_alphanumeric(c) || c == '_' || c == '-' || c == '.'
}

/// A query key has one to 64 letters, digits, underscores, hyphens and dots.
pub open spec fn proper_query_key(key: Seq<char>) -> bool {
    0 < key.len() <= 64 && forall|i: int| 0 <= i < key.len() ==> query_key_char(#[trigger] key[i])
}

/// Client metadata has a proper key that is not reserved, and a bounded value.
pub open spec fn proper_query_pair(pair: (String, String)) -> bool {
    let value = encode_utf8(pair.1@);
    &&& proper_query_key(pair.0@)
    &&& value.len() <= 1024
    &&& no_control_bytes(value)
    &&& pair.0@ != "device_id"@
}

/// What is wrong with the configuration of a bootstrap call.
pub open spec fn config_complaint(
    config: BootstrapHttpConfig,
    context: BootstrapRequestContext,
) -> Option<Complaint> {
    if !(1 <= config.timeout_seconds <= 300) {
        Some(
            (
                "doubao.invalid_timeout"@,
                "Doubao bootstrap timeout must be between 1 and 300 seconds"@,
            ),
        )
    } else if endpoint_complaint(config.registration_endpoint@) is Some {
        endpoint_complaint(config.registration_endpoint@)
    } else if endpoint_complaint(config.settings_endpoint@) is Some {
        endpoint_complaint(config.settings_endpoint@)
    } else if !bounded_text(context.user_agent@, 512) {
        Some(("doubao.invalid_user_agent"@, "Doubao client User-Agent is invalid"@))
    } else if context.common_query@.len() > MAX_QUERY_PARAMETERS {
        Some(
            (
                "doubao.too_many_query_parameters"@,
                "Doubao client metadata contains too many query parameters"@,
            ),
        )
    } else if exists|i: int|
        0 <= i < context.common_query@.len() && !proper_query_pair(
            #[trigger] context.common_query@[i],
        ) {
        Some(
            (
                "doubao.invalid_query_metadata"@,
                "Doubao client query metadata is invalid or overrides a reserved identity field"@,
            ),
        )
    } else {
        None
    }
}

fn configuration(code: &'static str, message: &'static str) -> (error: VoxError)
    ensures
        tells(error, (code@, message@)),
{
    VoxError::new(ErrorCategory::Configuration, code, message)
}

fn holds_char(text: &str, c: char) -> (r: bool)
    ensures
        r == has_char(text@, c),
{
    let chars = to_chars(text);
    find_char(&chars, c).is_some()
}

fn validate_bootstrap_endpoint(endpoint: &str) -> (r: Result<(), VoxError>)
    ensures
        match r {
            Ok(_) => endpoint_complaint(endpoint@) is None,
            Err(error) => endpoint_complaint(endpoint@) matches Some(why) && tells(error, why),
        },
{
    match validate_endpoint(
        endpoint,
        "Doubao bootstrap endpoints must use HTTPS or loopback HTTP",
    ) {
        Ok(_) => {},
        Err(error) => {
            return Err(error);
        },
    }
    if holds_char(endpoint, '?') || holds_char(endpoint, '#') || !lacks_control_bytes(
        endpoint.as_bytes(),
    ) {
        return Err(
            configuration(
                "doubao.invalid_bootstrap_endpoint",
                "Doubao bootstrap endpoint must not contain a query, fragment, or control byte",
            ),
        );
    }
    Ok(())
}

fn valid_query_key(key: &str) -> (r: bool)
    ensures
        r == proper_query_key(key@),
{
    let length: usize = key.unicode_len();
    let mut valid = 0 < length && length <= 64;
    for c in it: key.chars()
        invariant
            it.seq() == key@,
            length == key@.len(),
            valid == (0 < length <= 64 && forall|i: int|
                0 <= i < it.index() ==> query_key_char(#[trigger] key@[i])),
    {
        valid = valid && (is_ascii_alphanumeric(c) || c == '_' || c == '-' || c == '.');
    }
    valid
}

fn valid_query_pair(pair: &(String, String)) -> (r: bool)
    ensures
        r == proper_query_pair(*pair),
{
    let value = pair.1.as_str().as_bytes();
    valid_query_key(pair.0.as_str()) && value.len() <= 1024 && lacks_control_bytes(value)
        && !same_text(pair.0.as_str(), "device_id")
}

/// Checks the configuration of a bootstrap call.
pub fn validate_bootstrap_config(
    config: &BootstrapHttpConfig,
    context: &BootstrapRequestContext,
) -> (r: Result<(), VoxError>)
    ensures
        match r {
            Ok(_) => config_complaint(*config, *context) is None,
            Err(error) => config_complaint(*config, *context) matches Some(why) && tells(
                error,
                why,
            ),
        },
{
    if !(1 <= config.timeout_seconds && config.timeout_seconds <= 300) {
        return Err(
            configuration(
                "doubao.invalid_timeout",
                "Doubao bootstrap timeout must be between 1 and 300 seconds",
            ),
        );
    }
    match validate_bootstrap_endpoint(config.registration_endpoint.as_str()) {
        Ok(_) => {},
        Err(error) => {
            return Err(error);
        },
    }
    match validate_bootstrap_endpoint(config.settings_endpoint.as_str()) {
        Ok(_) => {},
        Err(error) => {
            return Err(error);
        },
    }
    if !is_bounded_text(context.user_agent.as_str(), 512) {
        return Err(
            configuration("doubao.invalid_user_agent", "Doubao client User-Agent is invalid"),
        );
    }
    if context.common_query.len() > MAX_QUERY_PARAMETERS {
        return Err(
            configuration(
                "doubao.too_many_query_parameters",
                "Doubao client metadata contains too many query parameters",
            ),
        );
    }
    let mut all_valid = true;
    for i in 0..context.common_query.len()
        invariant
            all_valid == (forall|j: int|
                0 <= j < i ==> proper_query_pair(#[trigger] context.common_query@[j])),
    {
        let valid = valid_query_pair(&context.common_query[i]);
        all_valid = all_valid && valid;
    }
    if !all_valid {
        return Err(
            configuration(
                "doubao.invalid_query_metadata",
                "Doubao client query metadata is invalid or overrides a reserved identity field",
            ),
        );
    }
    Ok(())
}

/// What is wrong with a registered device.
pub open spec fn device_complaint(registered: RegisteredDevice) -> Option<Complaint> {
    if bounded_text(registered.device_id@, 128) {
        None
    } else {
        Some(
            (
                "doubao.invalid_registered_device"@,
                "registered Doubao device identifier is invalid"@,
            ),
        )
    }
}

pub fn validate_registered_device(registered: &RegisteredDevice) -> (r: Result<(), VoxError>)
    ensures
        match r {
            Ok(_) => device_complaint(*registered) is None,
            Err(error) => device_complaint(*registered) matches Some(why) && tells(error, why),
        },
{
    if !is_bounded_text(registered.device_id.as_str(), 128) {
        return Err(
            configuration(
                "doubao.invalid_registered_device",
                "registered Doubao device identifier is invalid",
            ),
        );
    }
    Ok(())
}

/// One query parameter, as it is written behind an address.
pub open spec fn query_part(first: bool, key: Seq<char>, value: Seq<char>) -> Seq<char> {
    seq![
        if first {
            '?'
        } else {
            '&'
        },
    ] + percent_encoded(key) + seq!['='] + percent_encoded(value)
}

/// The address with its first `n` query parameters.
pub open spec fn url_with(endpoint: Seq<char>, pairs: Seq<(String, String)>, n: int) -> Seq<char>
    decreases n,
{
    if n <= 0 {
        endpoint
    } else {
        url_with(endpoint, pairs, n - 1) + query_part(n == 1, pairs[n - 1].0@, pairs[n - 1].1@)
    }
}

/// The address with the common query and, behind it, the device identifier where there is one.
pub open spec fn bootstrap_address(
    endpoint: Seq<char>,
    pairs: Seq<(String, String)>,
    device_id: Option<Seq<char>>,
) -> Seq<char> {
    let common = url_with(endpoint, pairs, pairs.len() as int);
    match device_id {
        Some(id) => common + query_part(pairs.len() == 0, "device_id"@, id),
        None => common,
    }
}

/// The address is too large: it has a query, and with it more bytes than the limit.
pub open spec fn address_too_large(
    endpoint: Seq<char>,
    pairs: Seq<(String, String)>,
    device_id: Option<Seq<char>>,
) -> bool {
    (pairs.len() > 0 || device_id is Some) && byte_length(
        bootstrap_address(endpoint, pairs, device_id),
    ) > MAX_URL_BYTES
}

proof fn lemma_url_grows(endpoint: Seq<char>, pairs: Seq<(String, String)>, n: int, m: int)
    requires
        0 <= n <= m <= pairs.len(),
    ensures
        byte_length(url_with(endpoint, pairs, n)) <= byte_length(url_with(endpoint, pairs, m)),
    decreases m,
{
    if n < m {
        lemma_url_grows(endpoint, pairs, n, m - 1);
        lemma_byte_length_joins(
            url_with(endpoint, pairs, m - 1),
            query_part(m == 1, pairs[m - 1].0@, pairs[m - 1].1@),
        );
    }
}

fn too_large() -> (error: VoxError)
    ensures
        tells(error, ("doubao.query_too_large"@, "Doubao bootstrap query is too large"@)),
{
    configuration("doubao.query_too_large", "Doubao bootstrap query is too large")
}

fn push_query(url: &mut String, first: bool, key: &str, value: &str)
    ensures
        final(url)@ == old(url)@ + query_part(first, key@, value@),
{
    let encoded_key = percent_encode(key);
    let encoded_value = percent_encode(value);
    url.push(
        if first {
            '?'
        } else {
            '&'
        },
    );
    url.append(encoded_key.as_str());
    url.push('=');
    url.append(encoded_value.as_str());
    assert(url@ =~= old(url)@ + query_part(first, key@, value@));
}

/// The address of a bootstrap call.
pub fn bootstrap_url(
    endpoint: &str,
    common_query: &Vec<(String, String)>,
    device_id: Option<&str>,
) -> (r: Result<String, VoxError>)
    ensures
        ({
            let id = match device_id {
                Some(id) => Some(id@),
                None => None,
            };
            match r {
                Ok(url) => !address_too_large(endpoint@, common_query@, id) && url@
                    == bootstrap_address(endpoint@, common_query@, id),
                Err(error) => address_too_large(endpoint@, common_query@, id) && tells(
                    error,
                    ("doubao.query_too_large"@, "Doubao bootstrap query is too large"@),
                ),
            }
        }),
{
    let mut url = String::from_str(endpoint);
    let ghost id = match device_id {
        Some(id) => Some(id@),
        None => None,
    };
    let mut i: usize = 0;
    while i < common_query.len()
        invariant
            i <= common_query@.len(),
            url@ == url_with(endpoint@, common_query@, i as int),
            i > 0 ==> byte_length(url@) <= MAX_URL_BYTES,
            id == (match device_id {
                Some(id) => Some(id@),
                None => None,
            }),
        decreases common_query@.len() - i,
    {
        push_query(
            &mut url,
            i == 0,
            common_query[i].0.as_str(),
            common_query[i].1.as_str(),
        );
        i += 1;
        if byte_count(url.as_str()) > MAX_URL_BYTES {
            proof {
                let n = common_query@.len() as int;
                lemma_url_grows(endpoint@, common_query@, i as int, n);
                if id is Some {
                    lemma_byte_length_joins(
                        url_with(endpoint@, common_query@, n),
                        query_part(n == 0, "device_id"@, id->0),
                    );
                }
            }
            return Err(too_large());
        }
    }
    match device_id {
        Some(id) => {
            push_query(&mut url, common_query.len() == 0, "device_id", id);
            if byte_count(url.as_str()) > MAX_URL_BYTES {
                return Err(too_large());
            }
        },
        None => {},
    }
    Ok(url)
}

/// The curl configuration of a POST request.
pub open spec fn post_config(
    url: Seq<char>,
    user_agent: Seq<char>,
    content_type: Seq<char>,
    body: Seq<char>,
    stub: Option<Seq<char>>,
) -> Seq<char> {
    "request = \"POST\"\nurl = \""@ + escaped(url) + "\"\nheader = \"User-Agent: "@ + escaped(
        user_agent,
    ) + "\"\nheader = \"Accept: application/json\"\nheader = \"Content-Type: "@ + escaped(
        content_type,
    ) + "\"\ndata = \""@ + escaped(body) + "\"\n"@ + (match stub {
        Some(value) => "header = \""@ + escaped("x-ss-stub"@) + ": "@ + escaped(value) + "\"\n"@,
        None => Seq::empty(),
    })
}

fn curl_post_config(
    url: &str,
    user_agent: &str,
    content_type: &str,
    body: &str,
    stub: Option<&str>,
) -> (r: String)
    ensures
        r@ == post_config(
            url@,
            user_agent@,
            content_type@,
            body@,
            match stub {
                Some(value) => Some(value@),
                None => None,
            },
        ),
{
    let escaped_url = escape_curl_config(url);
    let escaped_agent = escape_curl_config(user_agent);
    let escaped_type = escape_curl_config(content_type);
    let escaped_body = escape_curl_config(body);
    let mut config = String::from_str("request = \"POST\"\nurl = \"");
    config.append(escaped_url.as_str());
    config.append("\"\nheader = \"User-Agent: ");
    config.append(escaped_agent.as_str());
    config.append("\"\nheader = \"Accept: application/json\"\nheader = \"Content-Type: ");
    config.append(escaped_type.as_str());
    config.append("\"\ndata = \"");
    config.append(escaped_body.as_str());
    config.append("\"\n");
    match stub {
        Some(value) => {
            let name = escape_curl_config("x-ss-stub");
            let escaped_value = escape_curl_config(value);
            let ghost before = config@;
            config.append("header = \"");
            config.append(name.as_str());
            config.append(": ");
            config.append(escaped_value.as_str());
            config.append("\"\n");
            assert(config@ =~= before + ("header = \""@ + escaped("x-ss-stub"@) + ": "@ + escaped(
                value@,
            ) + "\"\n"@));
        },
        None => {
            assert(config@ + Seq::<char>::empty() =~= config@);
        },
    }
    config
}

/// The 16 bytes of the MD5 digest of some bytes.
pub uninterp spec fn md5_of(bytes: Seq<u8>) -> Seq<u8>;

/// `md5::compute`: the MD5 digest of the bytes, which has 16 bytes.
#[verifier::external_body]
fn md5_digest(bytes: &[u8]) -> (digest: Vec<u8>)
    ensures
        digest@ == md5_of(bytes@),
        digest@.len() == 16,
{
    md5::compute(bytes).to_vec()
}

/// Bytes as pairs of hexadecimal digits in upper case.
pub open spec fn hex_of(bytes: Seq<u8>) -> Seq<char>
    decreases bytes.len(),
{
    if bytes.len() == 0 {
        Seq::empty()
    } else {
        hex_of(bytes.drop_last()) + upper_hex(bytes.last())
    }
}

/// Writes bytes as pairs of hexadecimal digits in upper case.
pub fn write_hex_bytes(bytes: &[u8]) -> (r: String)
    ensures
        r@ == hex_of(bytes@),
{
    let mut text = String::new();
    for i in 0..bytes.len()
        invariant
            text@ == hex_of(bytes@.take(i as int)),
    {
        assert(bytes@.take(i + 1).drop_last() =~= bytes@.take(i as int));
        push_upper_hex(&mut text, bytes[i]);
    }
    assert(bytes@.take(bytes@.len() as int) =~= bytes@);
    text
}

/// Computes the uppercase MD5 compatibility header for the exact settings request body. This is
/// not treated as authentication.
pub fn x_ss_stub(body: &[u8]) -> (r: String)
    ensures
        r@ == hex_of(md5_of(body@)),
{
    let digest = md5_digest(body);
    write_hex_bytes(&digest)
}

/// A request that is ready for curl.
#[derive(Eq, PartialEq)]
pub struct BootstrapRequest {
    /// Everything that must not appear in the process arguments.
    pub private_config: String,
    pub timeout_seconds: u64,
}

/// What a request fails with that is cancelled before it starts.
pub open spec fn cancelled_before(error: VoxError, code: Seq<char>) -> bool {
    error.says(ErrorCategory::Cancelled, code, "provider request was cancelled"@, false)
}

/// What a step fails with that is cancelled after the answer came.
pub open spec fn cancelled_after(error: VoxError) -> bool {
    error.says(
        ErrorCategory::Cancelled,
        "doubao.bootstrap_cancelled"@,
        "Doubao credential bootstrap was cancelled"@,
        false,
    )
}

/// `r` is the registration request, or says why there is none.
pub open spec fn registration_request(
    config: BootstrapHttpConfig,
    context: BootstrapRequestContext,
    document: Seq<char>,
    cancelled: bool,
    r: Result<BootstrapRequest, VoxError>,
) -> bool {
    let pairs = context.common_query@;
    let endpoint = config.registration_endpoint@;
    match config_complaint(config, context) {
        Some(why) => r matches Err(error) && tells(error, why),
        None => if address_too_large(endpoint, pairs, None) {
            r matches Err(error) && tells(
                error,
                ("doubao.query_too_large"@, "Doubao bootstrap query is too large"@),
            )
        } else if cancelled {
            r matches Err(error) && cancelled_before(error, "doubao.registration_http_failed"@)
        } else {
            &&& r matches Ok(request)
            &&& request.timeout_seconds == config.timeout_seconds
            &&& request.private_config@ == post_config(
                bootstrap_address(endpoint, pairs, None),
                context.user_agent@,
                "application/json"@,
                document,
                None,
            )
        },
    }
}

/// The request that registers a device, with what is known of cancellation.
pub fn registration_step(
    config: &BootstrapHttpConfig,
    context: &BootstrapRequestContext,
    document: &RegistrationDocument,
    cancelled: bool,
) -> (r: Result<BootstrapRequest, VoxError>)
    ensures
        registration_request(*config, *context, document@, cancelled, r),
{
    match validate_bootstrap_config(config, context) {
        Ok(_) => {},
        Err(error) => {
            return Err(error);
        },
    }
    let url = match bootstrap_url(
        config.registration_endpoint.as_str(),
        &context.common_query,
        None,
    ) {
        Ok(url) => url,
        Err(error) => {
            return Err(error);
        },
    };
    if cancelled {
        return Err(
            crate::curl::cancelled_failure().into_vox_error("doubao.registration_http_failed"),
        );
    }
    let private_config = curl_post_config(
        url.as_str(),
        context.user_agent.as_str(),
        "application/json",
        document.text.as_str(),
        None,
    );
    Ok(BootstrapRequest { private_config, timeout_seconds: config.timeout_seconds })
}

/// Prepares the registration of one persistent device identity.
///
/// The full URL and body go into curl's private configuration so that device identifiers do not
/// appear in the process argument list.
pub fn register_device_http(
    config: &BootstrapHttpConfig,
    context: &BootstrapRequestContext,
    document: &RegistrationDocument,
    cancellation: &CancellationToken,
) -> (r: Result<BootstrapRequest, VoxError>)
    ensures
        exists|cancelled: bool|
            registration_request(*config, *context, document@, cancelled, r),
{
    let cancelled = cancellation.is_cancelled();
    registration_step(config, context, document, cancelled)
}

/// `r` is the token request, or says why there is none.
pub open spec fn token_request(
    config: BootstrapHttpConfig,
    context: BootstrapRequestContext,
    registered: RegisteredDevice,
    cancelled: bool,
    r: Result<BootstrapRequest, VoxError>,
) -> bool {
    let pairs = context.common_query@;
    let endpoint = config.settings_endpoint@;
    let id = Some(registered.device_id@);
    match config_complaint(config, context) {
        Some(why) => r matches Err(error) && tells(error, why),
        None => match device_complaint(registered) {
            Some(why) => r matches Err(error) && tells(error, why),
            None => if address_too_large(endpoint, pairs, id) {
                r matches Err(error) && tells(
                    error,
                    ("doubao.query_too_large"@, "Doubao bootstrap query is too large"@),
                )
            } else if cancelled {
                r matches Err(error) && cancelled_before(error, "doubao.settings_http_failed"@)
            } else {
                &&& r matches Ok(request)
                &&& request.timeout_seconds == config.timeout_seconds
                &&& request.private_config@ == post_config(
                    bootstrap_address(endpoint, pairs, id),
                    context.user_agent@,
                    "application/x-www-form-urlencoded"@,
                    "body=null"@,
                    Some(hex_of(md5_of(encode_utf8("body=null"@)))),
                )
            },
        },
    }
}

/// The request that fetches the recognition token, with what is known of cancellation.
pub fn token_step(
    config: &BootstrapHttpConfig,
    context: &BootstrapRequestContext,
    registered: &RegisteredDevice,
    cancelled: bool,
) -> (r: Result<BootstrapRequest, VoxError>)
    ensures
        token_request(*config, *context, *registered, cancelled, r),
{
    match validate_bootstrap_config(config, context) {
        Ok(_) => {},
        Err(error) => {
            return Err(error);
        },
    }
    match validate_registered_device(registered) {
        Ok(_) => {},
        Err(error) => {
            return Err(error);
        },
    }
    let url = match bootstrap_url(
        config.settings_endpoint.as_str(),
        &context.common_query,
        Some(registered.device_id.as_str()),
    ) {
        Ok(url) => url,
        Err(error) => {
            return Err(error);
        },
    };
    if cancelled {
        return Err(
            crate::curl::cancelled_failure().into_vox_error("doubao.settings_http_failed"),
        );
    }
    let body = "body=null";
    let stub = x_ss_stub(body.as_bytes());
    let private_config = curl_post_config(
        url.as_str(),
        context.user_agent.as_str(),
        "application/x-www-form-urlencoded",
        body,
        Some(stub.as_str()),
    );
    Ok(BootstrapRequest { private_config, timeout_seconds: config.timeout_seconds })
}

/// Prepares the call that fetches the refreshable recognition token of a registered device.
pub fn fetch_settings_token_http(
    config: &BootstrapHttpConfig,
    context: &BootstrapRequestContext,
    registered: &RegisteredDevice,
    cancellation: &CancellationToken,
) -> (r: Result<BootstrapRequest, VoxError>)
    ensures
        exists|cancelled: bool| token_request(*config, *context, *registered, cancelled, r),
{
    let cancelled = cancellation.is_cancelled();
    token_step(config, context, registered, cancelled)
}

/// The text writes an integer that is zero or negative.
pub open spec fn nonpositive_integer(text: Seq<char>) -> bool {
    ||| text.len() > 1 && text[0] == '-' && all_digits(text.skip(1))
    ||| text.len() > 0 && forall|i: int| 0 <= i < text.len() ==> #[trigger] text[i] == '0'
}

/// A number without an exponent.
pub open spec fn mantissa_of(number: Seq<char>) -> Seq<char> {
    before_first(before_first(number, 'e'), 'E')
}

/// The text of a JSON number writes one above zero: it has no sign and a digit that is not zero.
pub open spec fn positive_number(text: Seq<char>) -> bool {
    &&& !begins(text, "-"@)
    &&& exists|i: int|
        0 <= i < mantissa_of(text).len() && '1' <= #[trigger] mantissa_of(text)[i] <= '9'
}

/// The identifier that a value holds: a text, or a number as it is written, that is neither
/// empty nor zero.
pub open spec fn identifier_of(value: JsonModel) -> Option<Seq<char>> {
    let text = match value {
        JsonModel::Text(text) => Some(text),
        JsonModel::Unsigned(number) => Some(decimal(number as nat)),
        JsonModel::Number(text) => Some(text),
        _ => None,
    };
    match text {
        Some(text) => if text.len() > 0 && text != "0"@ {
            Some(text)
        } else {
            None
        },
        None => None,
    }
}

/// The identifier of a device that a value holds: one that is not a number that is zero or
/// negative.
pub open spec fn device_identifier_of(value: JsonModel) -> Option<Seq<char>> {
    let proper = match value {
        JsonModel::Text(text) => !nonpositive_integer(text),
        JsonModel::Number(text) => positive_number(text),
        _ => true,
    };
    if proper {
        identifier_of(value)
    } else {
        None
    }
}

/// The identifier that stands in a member, if there is one.
pub open spec fn identifier_held(member: Option<JsonModel>, of_device: bool) -> Option<Seq<char>> {
    match member {
        Some(value) => if of_device {
            device_identifier_of(value)
        } else {
            identifier_of(value)
        },
        None => None,
    }
}

/// The identifier of a document: its member `name`, or that of its member `data`.
pub open spec fn identifier_in(
    document: JsonModel,
    name: Seq<char>,
    of_device: bool,
) -> Option<Seq<char>> {
    let direct = identifier_held(document.member(name), of_device);
    if direct is Some {
        direct
    } else {
        match document.member("data"@) {
            Some(data) => identifier_held(data.member(name), of_device),
            None => None,
        }
    }
}

/// The identifier of the device that a document registers.
pub open spec fn device_id_in(document: JsonModel) -> Option<Seq<char>> {
    identifier_in(document, "device_id"@, true)
}

fn is_nonpositive_integer(text: &str) -> (r: bool)
    ensures
        r == nonpositive_integer(text@),
{
    match strip_prefix(text, "-") {
        Some(rest) => {
            proof {
                reveal_strlit("-");
                assert(text@[0] == "-"@[0]);
            }
            rest.unicode_len() > 0 && are_digits(rest)
        },
        None => {
            proof {
                reveal_strlit("-");
                if text@.len() > 0 && text@[0] == '-' {
                    assert(text@.subrange(0, 1) =~= "-"@);
                }
            }
            let chars = to_chars(text);
            for i in 0..chars.len()
                invariant
                    chars@ == text@,
                    text@.len() > 0 ==> text@[0] != '-',
                    forall|k: int| 0 <= k < i ==> #[trigger] text@[k] == '0',
            {
                if chars[i] != '0' {
                    assert(text@[i as int] != '0');
                    return false;
                }
            }
            chars.len() > 0
        },
    }
}

fn is_positive_number(text: &str) -> (r: bool)
    ensures
        r == positive_number(text@),
{
    if starts_with(text, "-") {
        return false;
    }
    let mantissa = text_before_first(text_before_first(text, 'e'), 'E');
    let chars = to_chars(mantissa);
    for i in 0..chars.len()
        invariant
            chars@ == mantissa_of(text@),
            !begins(text@, "-"@),
            forall|k: int| 0 <= k < i ==> !('1' <= #[trigger] mantissa_of(text@)[k] <= '9'),
    {
        if '1' <= chars[i] && chars[i] <= '9' {
            assert('1' <= mantissa_of(text@)[i as int] <= '9');
            return true;
        }
    }
    false
}

fn identifier(value: &Json, of_device: bool) -> (r: Option<String>)
    ensures
        match r {
            Some(text) => identifier_held(Some(value@), of_device) == Some(text@),
            None => identifier_held(Some(value@), of_device) is None,
        },
{
    let (text, proper) = match value {
        Json::Text(text) => (text.clone(), !is_nonpositive_integer(text.as_str())),
        Json::Unsigned(number) => (write_number(*number), true),
        Json::Number(text) => (text.clone(), is_positive_number(text.as_str())),
        _ => {
            return None;
        },
    };
    if text.as_str().unicode_len() > 0 && !same_text(text.as_str(), "0") && (proper || !of_device) {
        Some(text)
    } else {
        None
    }
}

fn identifier_at(document: &Json, name: &str, of_device: bool) -> (r: Option<String>)
    ensures
        match r {
            Some(text) => identifier_in(document@, name@, of_device) == Some(text@),
            None => identifier_in(document@, name@, of_device) is None,
        },
{
    match document.get(name) {
        Some(value) => match identifier(value, of_device) {
            Some(text) => {
                return Some(text);
            },
            None => {},
        },
        None => {},
    }
    match document.get("data") {
        Some(data) => match data.get(name) {
            Some(value) => identifier(value, of_device),
            None => None,
        },
        None => None,
    }
}

/// The document of a bootstrap answer, or why there is none.
pub open spec fn bootstrap_document(bytes: nat, parsed: Option<JsonModel>) -> Result<
    JsonModel,
    Seq<char>,
> {
    if bytes > MAX_BOOTSTRAP_RESPONSE_BYTES {
        Err("Doubao bootstrap response is too large"@)
    } else {
        match parsed {
            Some(document) => Ok(document),
            None => Err("invalid Doubao bootstrap JSON"@),
        }
    }
}

fn parse_bootstrap_json(body: &[u8]) -> (r: Result<Json, BootstrapError>)
    ensures
        match r {
            Ok(document) => bootstrap_document(body@.len(), json_document(body@)) == Ok::<
                JsonModel,
                Seq<char>,
            >(document@),
            Err(error) => bootstrap_document(body@.len(), json_document(body@)) == Err::<
                JsonModel,
                Seq<char>,
            >(error@),
        },
{
    if body.len() > MAX_BOOTSTRAP_RESPONSE_BYTES {
        return Err(BootstrapError::new("Doubao bootstrap response is too large"));
    }
    match parse_json(body) {
        Some(document) => Ok(document),
        None => Err(BootstrapError::new("invalid Doubao bootstrap JSON")),
    }
}

/// `r` is the device that the document registers, or says why there is none.
pub open spec fn registers(
    document: JsonModel,
    r: Result<RegisteredDevice, BootstrapError>,
) -> bool {
    match device_id_in(document) {
        Some(id) => {
            &&& r matches Ok(device)
            &&& device.device_id@ == id
            &&& device.install_id@ == (match identifier_in(
                document,
                "install_id"@,
                false,
            ) {
                Some(id) => id,
                None => Seq::empty(),
            })
        },
        None => r matches Err(error) && error@ == "registration response has no positive device_id"@,
    }
}

/// The device that a parsed document registers. Numeric and text identifiers are accepted.
pub fn registered_in(document: &Json) -> (r: Result<RegisteredDevice, BootstrapError>)
    ensures
        registers(document@, r),
{
    match identifier_at(document, "device_id", true) {
        Some(device_id) => {
            let install_id = match identifier_at(document, "install_id", false) {
                Some(id) => id,
                None => String::new(),
            };
            Ok(RegisteredDevice { device_id, install_id })
        },
        None => Err(BootstrapError::new("registration response has no positive device_id")),
    }
}

/// Parses successful device registration identifiers from a bounded JSON response.
pub fn parse_device_registration(body: &[u8]) -> (r: Result<RegisteredDevice, BootstrapError>)
    ensures
        match bootstrap_document(body@.len(), json_document(body@)) {
            Ok(document) => registers(document, r),
            Err(why) => r matches Err(error) && error@ == why,
        },
{
    match parse_bootstrap_json(body) {
        Ok(document) => registered_in(&document),
        Err(error) => Err(error),
    }
}

/// The text at `/data/settings/asr_config/app_key` of a document.
pub open spec fn app_key(document: JsonModel) -> Option<Seq<char>> {
    match document.member("data"@) {
        Some(data) => match data.member("settings"@) {
            Some(settings) => match settings.member("asr_config"@) {
                Some(config) => match config.member("app_key"@) {
                    Some(key) => key.text(),
                    None => None,
                },
                None => None,
            },
            None => None,
        },
        None => None,
    }
}

/// `r` is the token in the document, or says why there is none.
pub open spec fn grants(document: JsonModel, r: Result<SecretString, BootstrapError>) -> bool {
    match app_key(document) {
        Some(key) => if proper_secret(encode_utf8(key)) {
            r matches Ok(token) && token@ == key
        } else {
            r matches Err(error) && error@ == "settings ASR app_key is invalid"@
        },
        None => r matches Err(error) && error@ == "settings response has no ASR app_key"@,
    }
}

/// The recognition token in a parsed document.
pub fn token_in(document: &Json) -> (r: Result<SecretString, BootstrapError>)
    ensures
        grants(document@, r),
{
    let key = match document.get("data") {
        Some(data) => match data.get("settings") {
            Some(settings) => match settings.get("asr_config") {
                Some(config) => match config.get("app_key") {
                    Some(key) => key.as_text(),
                    None => None,
                },
                None => None,
            },
            None => None,
        },
        None => None,
    };
    match key {
        Some(text) => match SecretString::try_new(String::from_str(text)) {
            Ok(token) => Ok(token),
            Err(_) => Err(BootstrapError::new("settings ASR app_key is invalid")),
        },
        None => Err(BootstrapError::new("settings response has no ASR app_key")),
    }
}

/// Extracts the recognition token from a settings response into a secret.
pub fn parse_settings_token(body: &[u8]) -> (r: Result<SecretString, BootstrapError>)
    ensures
        match bootstrap_document(body@.len(), json_document(body@)) {
            Ok(document) => grants(document, r),
            Err(why) => r matches Err(error) && error@ == why,
        },
{
    match parse_bootstrap_json(body) {
        Ok(document) => token_in(&document),
        Err(error) => Err(error),
    }
}

/// Concludes a registration from what curl brought and what is known of cancellation. No text of
/// the answer reaches an error.
pub fn finish_registration(
    outcome: Result<CurlResponse, CurlFailure>,
    cancelled: bool,
) -> (r: Result<RegisteredDevice, VoxError>)
    ensures
        match outcome {
            Err(failure) => r matches Err(error) && error.says(
                failure@.category,
                "doubao.registration_http_failed"@,
                failure@.message,
                failure@.retryable,
            ),
            Ok(response) => if cancelled {
                r matches Err(error) && cancelled_after(error)
            } else {
                let body = response.body@;
                match bootstrap_document(body.len(), json_document(body)) {
                    Ok(document) if device_id_in(document) is Some => {
                        r matches Ok(device) && registers(document, Ok(device))
                    },
                    _ => r matches Err(error) && error.says(
                        ErrorCategory::Protocol,
                        "doubao.invalid_registration_response"@,
                        "Doubao registration response did not contain valid identifiers"@,
                        false,
                    ),
                }
            },
        },
{
    match outcome {
        Err(failure) => Err(failure.into_vox_error("doubao.registration_http_failed")),
        Ok(response) => {
            if cancelled {
                return Err(bootstrap_cancelled());
            }
            match parse_device_registration(&response.body) {
                Ok(device) => Ok(device),
                Err(_) => Err(
                    VoxError::new(
                        ErrorCategory::Protocol,
                        "doubao.invalid_registration_response",
                        "Doubao registration response did not contain valid identifiers",
                    ),
                ),
            }
        },
    }
}

fn bootstrap_cancelled() -> (error: VoxError)
    ensures
        cancelled_after(error),
{
    VoxError::new(
        ErrorCategory::Cancelled,
        "doubao.bootstrap_cancelled",
        "Doubao credential bootstrap was cancelled",
    )
}

/// Concludes a token call from what curl brought and what is known of cancellation. No text of
/// the answer reaches an error.
pub fn finish_token(outcome: Result<CurlResponse, CurlFailure>, cancelled: bool) -> (r: Result<
    SecretString,
    VoxError,
>)
    ensures
        match outcome {
            Err(failure) => r matches Err(error) && error.says(
                failure@.category,
                "doubao.settings_http_failed"@,
                failure@.message,
                failure@.retryable,
            ),
            Ok(response) => if cancelled {
                r matches Err(error) && cancelled_after(error)
            } else {
                let body = response.body@;
                match bootstrap_document(body.len(), json_document(body)) {
                    Ok(document) if app_key(document) is Some && proper_secret(
                        encode_utf8(app_key(document)->0),
                    ) => r matches Ok(token) && token@ == app_key(document)->0,
                    _ => r matches Err(error) && error.says(
                        ErrorCategory::Protocol,
                        "doubao.invalid_settings_response"@,
                        "Doubao settings response did not contain a valid ASR token"@,
                        false,
                    ),
                }
            },
        },
{
    match outcome {
        Err(failure) => Err(failure.into_vox_error("doubao.settings_http_failed")),
        Ok(response) => {
            if cancelled {
                return Err(bootstrap_cancelled());
            }
            match parse_settings_token(&response.body) {
                Ok(token) => Ok(token),
                Err(_) => Err(
                    VoxError::new(
                        ErrorCategory::Protocol,
                        "doubao.invalid_settings_response",
                        "Doubao settings response did not contain a valid ASR token",
                    ),
                ),
            }
        },
    }
}

/// A bootstrap is configured well exactly where it has from 1 to 300 seconds, both its addresses are
/// safe and plain, the name of the client is a bounded text, and its parameters are at most 64, each
/// proper.
pub proof fn law_good_bootstrap_is_accepted(
    config: BootstrapHttpConfig,
    context: BootstrapRequestContext,
)
    ensures
        config_complaint(config, context) is None <==> {
            &&& 1 <= config.timeout_seconds <= 300
            &&& endpoint_complaint(config.registration_endpoint@) is None
            &&& endpoint_complaint(config.settings_endpoint@) is None
            &&& bounded_text(context.user_agent@, 512)
            &&& context.common_query@.len() <= 64
            &&& forall|i: int|
                0 <= i < context.common_query@.len() ==> proper_query_pair(
                    #[trigger] context.common_query@[i],
                )
        },
{
}

/// An address is good exactly where it is safe and holds neither a query nor a fragment nor a control
/// character.
pub proof fn law_bootstrap_address_is_plain(endpoint: Seq<char>)
    ensures
        endpoint_complaint(endpoint) is None <==> secure_endpoint(endpoint) && !has_char(
            endpoint,
            '?',
        ) && !has_char(endpoint, '#') && no_control_bytes(encode_utf8(endpoint)),
{
}

/// Client metadata never sets the identity of the device, and its names hold letters, digits,
/// underscores, hyphens and full stops only.
pub proof fn law_metadata_does_not_set_the_identity(pair: (String, String), i: int)
    requires
        proper_query_pair(pair),
        0 <= i < pair.0@.len(),
    ensures
        pair.0@ != "device_id"@,
        pair.0@.len() <= 64,
        'a' <= pair.0@[i] <= 'z' || 'A' <= pair.0@[i] <= 'Z' || '0' <= pair.0@[i] <= '9'
            || pair.0@[i] == '_' || pair.0@[i] == '-' || pair.0@[i] == '.',
        encode_utf8(pair.1@).len() <= 1_024,
{
    assert(query_key_char(pair.0@[i]));
}

/// The parameters stand behind the address in their order, the first behind a question mark and the
/// others behind an ampersand, and the device behind them all.
pub proof fn law_parameters_stand_behind_the_address(
    endpoint: Seq<char>,
    pairs: Seq<(String, String)>,
    pair: (String, String),
    id: Seq<char>,
)
    ensures
        bootstrap_address(endpoint, Seq::empty(), None) == endpoint,
        bootstrap_address(endpoint, pairs.push(pair), None) == bootstrap_address(
            endpoint,
            pairs,
            None,
        ) + (if pairs.len() == 0 {
            seq!['?']
        } else {
            seq!['&']
        }) + percent_encoded(pair.0@) + seq!['='] + percent_encoded(pair.1@),
        bootstrap_address(endpoint, pairs, Some(id)) == bootstrap_address(endpoint, pairs, None) + (
        if pairs.len() == 0 {
            seq!['?']
        } else {
            seq!['&']
        }) + percent_encoded("device_id"@) + seq!['='] + percent_encoded(id),
{
    let longer = pairs.push(pair);
    lemma_url_prefix(endpoint, pairs, longer, pairs.len() as int);
    let mark = if pairs.len() == 0 {
        seq!['?']
    } else {
        seq!['&']
    };
    let common = bootstrap_address(endpoint, pairs, None);
    assert(bootstrap_address(endpoint, longer, None) =~= common + mark + percent_encoded(pair.0@)
        + seq!['='] + percent_encoded(pair.1@));
    assert(bootstrap_address(endpoint, pairs, Some(id)) =~= common + mark + percent_encoded(
        "device_id"@,
    ) + seq!['='] + percent_encoded(id));
}

proof fn lemma_url_prefix(
    endpoint: Seq<char>,
    pairs: Seq<(String, String)>,
    longer: Seq<(String, String)>,
    n: int,
)
    requires
        0 <= n <= pairs.len(),
        pairs.len() <= longer.len(),
        forall|i: int| 0 <= i < pairs.len() ==> longer[i] == #[trigger] pairs[i],
    ensures
        url_with(endpoint, longer, n) == url_with(endpoint, pairs, n),
    decreases n,
{
    if n > 0 {
        lemma_url_prefix(endpoint, pairs, longer, n - 1);
        assert(longer[n - 1] == pairs[n - 1]);
    }
}

/// A device is registered under a number above zero, or under a text that is neither empty nor a
/// number that is zero or negative; the document itself goes before what stands in its data.
pub proof fn law_device_goes_by_a_positive_name(
    document: JsonModel,
    number: u64,
    text: Seq<char>,
    data: JsonModel,
)
    ensures
        document.member("device_id"@) == Some(JsonModel::Unsigned(number)) && number > 0
            ==> device_id_in(document) == Some(decimal(number as nat)),
        document.member("device_id"@) == Some(JsonModel::Text(text)) && text.len() > 0 && text[0]
            != '-' && (exists|i: int| 0 <= i < text.len() && #[trigger] text[i] != '0')
            ==> device_id_in(document) == Some(text),
        document.member("device_id"@) == Some(JsonModel::Text(text)) && text.len() > 1 && text[0]
            == '-' && crate::text::all_digits(text.skip(1)) && document.member("data"@) is None
            ==> device_id_in(document) is None,
        document.member("device_id"@) == Some(JsonModel::Text(text)) && (forall|i: int|
            0 <= i < text.len() ==> #[trigger] text[i] == '0') && document.member("data"@) is None
            ==> device_id_in(document) is None,
        document.member("device_id"@) == Some(JsonModel::Unsigned(0)) && document.member("data"@)
            is None ==> device_id_in(document) is None,
        document.member("device_id"@) is None && document.member("data"@) == Some(data)
            && data.member("device_id"@) == Some(JsonModel::Unsigned(number)) && number > 0
            ==> device_id_in(document) == Some(decimal(number as nat)),
        document.member("device_id"@) is None && document.member("data"@) is None ==> device_id_in(
            document,
        ) is None,
{
    reveal_strlit("0");
    crate::text::law_decimal_reads_back(number as nat, number as nat);
    assert(decimal(0) =~= "0"@);
    if number > 0 && decimal(number as nat) == "0"@ {
        crate::text::law_decimal_reads_back(0, number as nat);
    }
    crate::text::law_numbers_are_digits(decimal(number as nat), number as nat, '0');
    if text.len() > 0 && (exists|i: int| 0 <= i < text.len() && #[trigger] text[i] != '0') {
        let i = choose|i: int| 0 <= i < text.len() && #[trigger] text[i] != '0';
        assert(text != "0"@) by {
            if text == "0"@ {
                assert(text[0] == '0' && text.len() == 1);
            }
        }
    }
}

/// The key of the recognition stands at its place in the settings, and is taken unless it is empty or
/// holds a control character.
pub proof fn law_key_stands_at_its_place(
    document: JsonModel,
    key: Seq<char>,
    r: Result<SecretString, BootstrapError>,
)
    requires
        grants(document, r),
        document.member("data"@) is Some,
        (document.member("data"@)->0).member("settings"@) is Some,
        ((document.member("data"@)->0).member("settings"@)->0).member("asr_config"@) is Some,
        (((document.member("data"@)->0).member("settings"@)->0).member("asr_config"@)->0).member(
            "app_key"@,
        ) == Some(JsonModel::Text(key)),
    ensures
        proper_secret(encode_utf8(key)) <==> r is Ok,
        r is Ok ==> r->Ok_0@ == key,
{
}

/// Two hexadecimal digits stand for each byte of a digest.
pub proof fn law_digest_is_written_in_pairs(bytes: Seq<u8>, byte: u8)
    ensures
        hex_of(bytes).len() == 2 * bytes.len(),
        hex_of(bytes.push(byte)) == hex_of(bytes) + upper_hex(byte),
    decreases bytes.len(),
{
    assert(bytes.push(byte).drop_last() =~= bytes);
    if bytes.len() > 0 {
        law_digest_is_written_in_pairs(bytes.drop_last(), byte);
    }
}

} // verus!
