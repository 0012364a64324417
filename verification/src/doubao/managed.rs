//! Managed credentials: the bundle they are kept in, and the token that is fetched and refreshed
//! with them.

use crate::doubao::bootstrap::{
    bounded_text, is_bounded_text, BootstrapHttpConfig, BootstrapRequestContext, RegisteredDevice,
};
use crate::doubao::driver::WallClock;
use crate::doubao::runner::DoubaoRunConfig;
use crate::doubao::websocket::WebSocketSpec;
use crate::error::{ErrorCategory, VoxError};
use crate::json::{json_text, render_json, Json};
use crate::provider::{AudioAcceptance, ProviderAttemptFailure};
use crate::secret::SecretString;
use crate::text::{decimal, join3, same_text, write_number, write_wide_number};
use vstd::prelude::*;
use vstd::slice::slice_to_vec;
use vstd::string::*;
use vstd::utf8::*;

verus! {

pub const MAX_CREDENTIAL_BUNDLE_BYTES: usize = 262_144;

/// The members of a credential bundle as they were decoded.
#[derive(Debug, Eq, PartialEq)]
pub struct RawBundle {
    pub schema: u32,
    pub registration_endpoint: String,
    pub settings_endpoint: String,
    pub user_agent: String,
    pub common_query: Vec<(String, String)>,
    pub device_id: String,
    /// Empty where the bundle has none.
    pub install_id: String,
    pub websocket_endpoint: String,
    pub websocket_headers: Vec<(String, String)>,
    pub session: Json,
}

/// Checked managed credentials. The type has no form that shows them.
pub struct ManagedCredentialBundle {
    bootstrap: BootstrapHttpConfig,
    context: BootstrapRequestContext,
    registered: RegisteredDevice,
    websocket_endpoint: String,
    websocket_headers: Vec<(String, String)>,
    session_json: Vec<u8>,
}

/// What a bundle holds.
pub struct BundleModel {
    pub registration_endpoint: Seq<char>,
    pub settings_endpoint: Seq<char>,
    pub timeout_seconds: u64,
    pub user_agent: Seq<char>,
    pub common_query: Seq<(Seq<char>, Seq<char>)>,
    pub device_id: Seq<char>,
    pub install_id: Seq<char>,
    pub websocket_endpoint: Seq<char>,
    pub websocket_headers: Seq<(Seq<char>, Seq<char>)>,
    pub session_json: Seq<u8>,
}

/// The names and values of pairs.
pub open spec fn pair_texts(pairs: Seq<(String, String)>) -> Seq<(Seq<char>, Seq<char>)> {
    Seq::new(pairs.len(), |i: int| (pairs[i].0@, pairs[i].1@))
}

/// What is wrong with a bundle: a code and a message.
pub type Complaint = (Seq<char>, Seq<char>);

pub open spec fn field_complaint() -> Complaint {
    ("doubao.credential_bundle_field"@, "Doubao credential bundle contains an invalid field"@)
}

pub open spec fn proper_pair(pair: (String, String)) -> bool {
    bounded_text(pair.0@, 64) && bounded_text(pair.1@, 1024)
}

pub open spec fn proper_pairs(pairs: Seq<(String, String)>) -> bool {
    forall|i: int| 0 <= i < pairs.len() ==> proper_pair(#[trigger] pairs[i])
}

/// The fields that are texts are bounded and hold no control bytes.
pub open spec fn proper_fields(raw: RawBundle) -> bool {
    &&& bounded_text(raw.registration_endpoint@, 4096)
    &&& bounded_text(raw.settings_endpoint@, 4096)
    &&& bounded_text(raw.user_agent@, 512)
    &&& bounded_text(raw.device_id@, 128)
    &&& raw.install_id@.len() == 0 || bounded_text(raw.install_id@, 128)
    &&& bounded_text(raw.websocket_endpoint@, 16_384)
}

/// What is wrong with a bundle of `bytes` bytes that was decoded to `decoded`.
pub open spec fn bundle_complaint(bytes: nat, decoded: Option<RawBundle>) -> Option<Complaint> {
    if bytes > MAX_CREDENTIAL_BUNDLE_BYTES {
        Some(("doubao.credential_bundle_too_large"@, "Doubao credential bundle is too large"@))
    } else {
        match decoded {
            None => Some(
                (
                    "doubao.credential_bundle_invalid_json"@,
                    "Doubao credential bundle is not valid JSON"@,
                ),
            ),
            Some(raw) => if raw.schema != 1 {
                Some(
                    (
                        "doubao.credential_bundle_schema"@,
                        "Doubao credential bundle schema is unsupported"@,
                    ),
                )
            } else if !proper_fields(raw) {
                Some(field_complaint())
            } else if raw.common_query@.len() > 64 || raw.websocket_headers@.len() > 32 {
                Some(
                    (
                        "doubao.credential_bundle_fields"@,
                        "Doubao credential bundle contains too many metadata fields"@,
                    ),
                )
            } else if !proper_pairs(raw.common_query@) || !proper_pairs(raw.websocket_headers@) {
                Some(field_complaint())
            } else if !(raw.session is Object) {
                Some(
                    (
                        "doubao.credential_session_invalid"@,
                        "Doubao session profile must be a JSON object"@,
                    ),
                )
            } else {
                None
            },
        }
    }
}

/// What a bundle without fault holds.
pub open spec fn bundle_of(raw: RawBundle) -> BundleModel {
    BundleModel {
        registration_endpoint: raw.registration_endpoint@,
        settings_endpoint: raw.settings_endpoint@,
        timeout_seconds: 15,
        user_agent: raw.user_agent@,
        common_query: pair_texts(raw.common_query@),
        device_id: raw.device_id@,
        install_id: raw.install_id@,
        websocket_endpoint: raw.websocket_endpoint@,
        websocket_headers: pair_texts(raw.websocket_headers@),
        session_json: encode_utf8(json_text(raw.session@)),
    }
}

fn configuration(code: &'static str, message: &'static str) -> (error: VoxError)
    ensures
        error.says(ErrorCategory::Configuration, code@, message@, false),
{
    VoxError::new(ErrorCategory::Configuration, code, message)
}

fn valid_pairs(pairs: &Vec<(String, String)>) -> (r: bool)
    ensures
        r == proper_pairs(pairs@),
{
    let mut valid = true;
    for i in 0..pairs.len()
        invariant
            valid == (forall|j: int| 0 <= j < i ==> proper_pair(#[trigger] pairs@[j])),
    {
        let proper = is_bounded_text(pairs[i].0.as_str(), 64) && is_bounded_text(
            pairs[i].1.as_str(),
            1024,
        );
        valid = valid && proper;
    }
    valid
}

fn copy_pairs(pairs: &Vec<(String, String)>) -> (r: Vec<(String, String)>)
    ensures
        pair_texts(r@) == pair_texts(pairs@),
        r@.len() == pairs@.len(),
{
    let mut copy: Vec<(String, String)> = Vec::new();
    for i in 0..pairs.len()
        invariant
            copy@.len() == i,
            forall|j: int|
                0 <= j < i ==> (#[trigger] copy@[j]).0@ == pairs@[j].0@ && copy@[j].1@
                    == pairs@[j].1@,
    {
        copy.push((pairs[i].0.clone(), pairs[i].1.clone()));
    }
    assert(pair_texts(copy@) =~= pair_texts(pairs@));
    copy
}

impl ManagedCredentialBundle {
    pub closed spec fn view(&self) -> BundleModel {
        BundleModel {
            registration_endpoint: self.bootstrap.registration_endpoint@,
            settings_endpoint: self.bootstrap.settings_endpoint@,
            timeout_seconds: self.bootstrap.timeout_seconds,
            user_agent: self.context.user_agent@,
            common_query: pair_texts(self.context.common_query@),
            device_id: self.registered.device_id@,
            install_id: self.registered.install_id@,
            websocket_endpoint: self.websocket_endpoint@,
            websocket_headers: pair_texts(self.websocket_headers@),
            session_json: self.session_json@,
        }
    }

    /// Checks a versioned compact JSON value kept as a secret that was decoded to `decoded`,
    /// or to nothing where it does not hold a bundle.
    ///
    /// Oversized, malformed, unsupported, empty, or control-containing credential fields are
    /// rejected. Raw identifiers are never copied into the error.
    pub fn parse(secret: &SecretString, decoded: Option<RawBundle>) -> (r: Result<Self, VoxError>)
        ensures
            ({
                let complaint = bundle_complaint(encode_utf8(secret@).len(), decoded);
                match r {
                    Ok(bundle) => complaint is None && decoded is Some && bundle@ == bundle_of(
                        decoded->0,
                    ),
                    Err(error) => complaint is Some && error.says(
                        ErrorCategory::Configuration,
                        (complaint->0).0,
                        (complaint->0).1,
                        false,
                    ),
                }
            }),
    {
        if secret.expose().as_bytes().len() > MAX_CREDENTIAL_BUNDLE_BYTES {
            return Err(
                configuration(
                    "doubao.credential_bundle_too_large",
                    "Doubao credential bundle is too large",
                ),
            );
        }
        let raw = match decoded {
            None => {
                return Err(
                    configuration(
                        "doubao.credential_bundle_invalid_json",
                        "Doubao credential bundle is not valid JSON",
                    ),
                );
            },
            Some(raw) => raw,
        };
        if raw.schema != 1 {
            return Err(
                configuration(
                    "doubao.credential_bundle_schema",
                    "Doubao credential bundle schema is unsupported",
                ),
            );
        }
        let fields = is_bounded_text(raw.registration_endpoint.as_str(), 4096) && is_bounded_text(
            raw.settings_endpoint.as_str(),
            4096,
        ) && is_bounded_text(raw.user_agent.as_str(), 512) && is_bounded_text(
            raw.device_id.as_str(),
            128,
        ) && (raw.install_id.as_str().unicode_len() == 0 || is_bounded_text(
            raw.install_id.as_str(),
            128,
        )) && is_bounded_text(raw.websocket_endpoint.as_str(), 16_384);
        if !fields {
            return Err(
                configuration(
                    "doubao.credential_bundle_field",
                    "Doubao credential bundle contains an invalid field",
                ),
            );
        }
        if raw.common_query.len() > 64 || raw.websocket_headers.len() > 32 {
            return Err(
                configuration(
                    "doubao.credential_bundle_fields",
                    "Doubao credential bundle contains too many metadata fields",
                ),
            );
        }
        if !valid_pairs(&raw.common_query) || !valid_pairs(&raw.websocket_headers) {
            return Err(
                configuration(
                    "doubao.credential_bundle_field",
                    "Doubao credential bundle contains an invalid field",
                ),
            );
        }
        if !raw.session.is_object() {
            return Err(
                configuration(
                    "doubao.credential_session_invalid",
                    "Doubao session profile must be a JSON object",
                ),
            );
        }
        let session = render_json(&raw.session);
        let session_json = slice_to_vec(session.as_str().as_bytes());
        Ok(
            ManagedCredentialBundle {
                bootstrap: BootstrapHttpConfig {
                    registration_endpoint: raw.registration_endpoint,
                    settings_endpoint: raw.settings_endpoint,
                    timeout_seconds: 15,
                },
                context: BootstrapRequestContext {
                    user_agent: raw.user_agent,
                    common_query: raw.common_query,
                },
                registered: RegisteredDevice {
                    device_id: raw.device_id,
                    install_id: raw.install_id,
                },
                websocket_endpoint: raw.websocket_endpoint,
                websocket_headers: raw.websocket_headers,
                session_json,
            },
        )
    }

    /// What is shown in place of the credentials.
    pub fn redacted(&self) -> (r: &'static str)
        ensures
            r@ == "ManagedCredentialBundle([redacted])"@,
    {
        "ManagedCredentialBundle([redacted])"
    }

    /// What the token is fetched with.
    pub fn bootstrap(&self) -> (r: &BootstrapHttpConfig)
        ensures
            r.registration_endpoint@ == self@.registration_endpoint,
            r.settings_endpoint@ == self@.settings_endpoint,
            r.timeout_seconds == self@.timeout_seconds,
    {
        &self.bootstrap
    }

    pub fn context(&self) -> (r: &BootstrapRequestContext)
        ensures
            r.user_agent@ == self@.user_agent,
            pair_texts(r.common_query@) == self@.common_query,
    {
        &self.context
    }

    pub fn registered(&self) -> (r: &RegisteredDevice)
        ensures
            r.device_id@ == self@.device_id,
            r.install_id@ == self@.install_id,
    {
        &self.registered
    }
}

/// How a managed attempt is made; times are in nanoseconds.
pub struct ManagedDoubaoConfig {
    pub credentials: ManagedCredentialBundle,
    pub phase_timeout_nanos: u64,
    pub total_timeout_nanos: u64,
    pub frame_interval_nanos: u64,
}

/// The request id of the attempt number `n`.
pub fn request_id(clock: WallClock, n: u64) -> (r: Result<String, ProviderAttemptFailure>)
    ensures
        match clock {
            WallClock::BeforeEpoch => {
                &&& r matches Err(failure)
                &&& failure.error.says(
                    ErrorCategory::Internal,
                    "doubao.system_clock_invalid"@,
                    "System clock is before the Unix epoch"@,
                    false,
                )
                &&& !failure.transport_started
                &&& failure.audio_acceptance == AudioAcceptance::NotAccepted
            },
            WallClock::Millis(millis) => {
                &&& r matches Ok(id)
                &&& id@ == "voxtype-"@ + decimal(millis as nat) + "-"@ + decimal(n as nat)
            },
        },
{
    match clock {
        WallClock::BeforeEpoch => Err(
            ProviderAttemptFailure::before_transport(
                VoxError::new(
                    ErrorCategory::Internal,
                    "doubao.system_clock_invalid",
                    "System clock is before the Unix epoch",
                ),
            ),
        ),
        WallClock::Millis(millis) => {
            let stamp = write_wide_number(millis);
            let number = write_number(n);
            let mut id = join3("voxtype-", stamp.as_str(), "-");
            id.append(number.as_str());
            Ok(id)
        },
    }
}

/// The attempt that managed credentials are used for.
pub fn managed_run(config: &ManagedDoubaoConfig, request_id: String) -> (run: DoubaoRunConfig)
    ensures
        run.websocket.endpoint@ == config.credentials@.websocket_endpoint,
        pair_texts(run.websocket.headers@) == config.credentials@.websocket_headers,
        run.websocket.connect_timeout_nanos == config.phase_timeout_nanos,
        run.websocket.poll_interval_nanos == 10_000_000,
        run.request_id@ == request_id@,
        run.session_json@ == config.credentials@.session_json,
        run.phase_timeout_nanos == config.phase_timeout_nanos,
        run.total_timeout_nanos == config.total_timeout_nanos,
        run.frame_interval_nanos == config.frame_interval_nanos,
{
    DoubaoRunConfig {
        websocket: WebSocketSpec {
            endpoint: config.credentials.websocket_endpoint.clone(),
            headers: copy_pairs(&config.credentials.websocket_headers),
            connect_timeout_nanos: config.phase_timeout_nanos,
            poll_interval_nanos: 10_000_000,
        },
        request_id,
        session_json: slice_to_vec(&config.credentials.session_json),
        phase_timeout_nanos: config.phase_timeout_nanos,
        total_timeout_nanos: config.total_timeout_nanos,
        frame_interval_nanos: config.frame_interval_nanos,
    }
}

/// The failure of an attempt whose token could not be fetched. A fetch that was sent counts as a
/// started attempt, but never as accepted audio.
pub fn bootstrap_failure(error: VoxError) -> (failure: ProviderAttemptFailure)
    ensures
        failure.error == error,
        failure.transport_started == (error.kind() != ErrorCategory::Configuration),
        failure.audio_acceptance == AudioAcceptance::NotAccepted,
{
    match error.category() {
        ErrorCategory::Configuration => ProviderAttemptFailure::before_transport(error),
        _ => ProviderAttemptFailure::after_transport(error, AudioAcceptance::NotAccepted),
    }
}

/// A failure after which the attempt is worth another one with a fresh token: the provider
/// rejected the credential before any audio left.
pub open spec fn stale_token(failure: ProviderAttemptFailure) -> bool {
    &&& failure.error.code_text() == "doubao.start_task_auth_failed"@
    &&& failure.audio_acceptance == AudioAcceptance::NotAccepted
}

/// Whether to fetch a fresh token and try again; at most one token is fetched anew.
pub fn refreshes_token(failure: &ProviderAttemptFailure, already_refreshed: bool) -> (r: bool)
    ensures
        r == (!already_refreshed && stale_token(*failure)),
{
    let rejected = same_text(failure.error.code(), "doubao.start_task_auth_failed");
    let unsent = match failure.audio_acceptance {
        AudioAcceptance::NotAccepted => true,
        _ => false,
    };
    !already_refreshed && rejected && unsent
}

/// The failure of an attempt whose fresh token could not be fetched: the first attempt had been
/// sent, and no audio with it.
pub fn refresh_failure(error: VoxError) -> (failure: ProviderAttemptFailure)
    ensures
        failure.error == error,
        failure.transport_started,
        failure.audio_acceptance == AudioAcceptance::NotAccepted,
{
    ProviderAttemptFailure::after_transport(error, AudioAcceptance::NotAccepted)
}

/// A bundle of credentials is taken exactly where it has at most 262144 bytes, was decoded, is of
/// schema 1, has proper fields, at most 64 parameters and 32 headers, each proper, and describes the
/// session by a JSON object.
pub proof fn law_good_bundle_is_taken(bytes: nat, raw: RawBundle)
    ensures
        bundle_complaint(bytes, Some(raw)) is None <==> {
            &&& bytes <= 262_144
            &&& raw.schema == 1
            &&& bounded_text(raw.registration_endpoint@, 4_096)
            &&& bounded_text(raw.settings_endpoint@, 4_096)
            &&& bounded_text(raw.user_agent@, 512)
            &&& bounded_text(raw.device_id@, 128)
            &&& raw.install_id@.len() == 0 || bounded_text(raw.install_id@, 128)
            &&& bounded_text(raw.websocket_endpoint@, 16_384)
            &&& raw.common_query@.len() <= 64
            &&& raw.websocket_headers@.len() <= 32
            &&& forall|i: int|
                0 <= i < raw.common_query@.len() ==> bounded_text(
                    (#[trigger] raw.common_query@[i]).0@,
                    64,
                ) && bounded_text(raw.common_query@[i].1@, 1_024)
            &&& forall|i: int|
                0 <= i < raw.websocket_headers@.len() ==> bounded_text(
                    (#[trigger] raw.websocket_headers@[i]).0@,
                    64,
                ) && bounded_text(raw.websocket_headers@[i].1@, 1_024)
            &&& raw.session is Object
        },
        bundle_complaint(bytes, None) is Some,
{
    if proper_pairs(raw.common_query@) {
        assert forall|i: int| 0 <= i < raw.common_query@.len() implies bounded_text(
            (#[trigger] raw.common_query@[i]).0@,
            64,
        ) && bounded_text(raw.common_query@[i].1@, 1_024) by {
            assert(proper_pair(raw.common_query@[i]));
        }
    }
    if proper_pairs(raw.websocket_headers@) {
        assert forall|i: int| 0 <= i < raw.websocket_headers@.len() implies bounded_text(
            (#[trigger] raw.websocket_headers@[i]).0@,
            64,
        ) && bounded_text(raw.websocket_headers@[i].1@, 1_024) by {
            assert(proper_pair(raw.websocket_headers@[i]));
        }
    }
}

/// A token is renewed exactly where the provider turned it away at the start of the task and no audio
/// had left; once audio may have left, never.
pub proof fn law_token_is_renewed_before_audio_only(failure: ProviderAttemptFailure)
    ensures
        stale_token(failure) ==> failure.audio_acceptance == AudioAcceptance::NotAccepted,
        failure.error.code_text() == "doubao.start_task_auth_failed"@ && failure.audio_acceptance
            == AudioAcceptance::NotAccepted ==> stale_token(failure),
        failure.error.code_text() != "doubao.start_task_auth_failed"@ ==> !stale_token(failure),
        failure.audio_acceptance == AudioAcceptance::PossiblyAccepted || failure.audio_acceptance
            == AudioAcceptance::Accepted ==> !stale_token(failure),
{
}

} // verus!
