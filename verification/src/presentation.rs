//! What the daemon shows: notices on the desktop and status documents for its clients.

use crate::config::{Config, ProviderConfig, ProviderQuotaConfig};
use crate::controller::{
    health_in, opt_str, route_available, seconds_since, usage_in, verified, AppController,
    ControllerModel, HealthModel, ProviderHealthSnapshot, ProviderUsageSnapshot,
    PROVIDER_VERIFICATION_TTL_SECONDS,
};
use crate::error::ErrorCategory;
use crate::fcitx::FcitxContext;
use crate::grammar::{CleanupEdit, GrammarReport};
use crate::json::{json_text, optional_number, render_json, Items, Json, JsonModel, Members};
use crate::provider::{provider_name, ProviderId};
use crate::text::{decimal, join2, join3, owned, write_number};
use crate::vad::{VadFrameAnalysis, VadResult};
use vstd::prelude::*;
use vstd::string::*;

verus! {

/// A notice on the desktop.
#[derive(Debug, Eq, PartialEq)]
pub enum Notice {
    Listening,
    Processing,
    MaximumDuration,
    Cancelled,
    /// Recognition failed, with the error that is told.
    RecognitionFailed(String),
    Copied,
    Dispatched,
    TooShort,
    /// No speech was heard, with what may help.
    NoSpeech(&'static str),
}

/// What an overlay shows, and for how long; zero stands for as long as nothing replaces it.
#[derive(Debug, Eq, PartialEq)]
pub struct OverlayText {
    pub state: &'static str,
    pub title: &'static str,
    pub body: String,
    pub timeout_millis: u32,
}

/// The parts of an overlay.
pub struct OverlayModel {
    pub state: Seq<char>,
    pub title: Seq<char>,
    pub body: Seq<char>,
    pub timeout_millis: u32,
}

impl OverlayText {
    pub open spec fn view(&self) -> OverlayModel {
        OverlayModel {
            state: self.state@,
            title: self.title@,
            body: self.body@,
            timeout_millis: self.timeout_millis,
        }
    }
}

pub open spec fn overlay_of(
    state: Seq<char>,
    title: Seq<char>,
    body: Seq<char>,
    timeout_millis: u32,
) -> OverlayModel {
    OverlayModel { state, title, body, timeout_millis }
}

/// What a notice says.
pub enum NoticeModel {
    Listening,
    Processing,
    MaximumDuration,
    Cancelled,
    RecognitionFailed(Seq<char>),
    Copied,
    Dispatched,
    TooShort,
    NoSpeech(Seq<char>),
}

impl Notice {
    pub open spec fn view(&self) -> NoticeModel {
        match self {
            Notice::Listening => NoticeModel::Listening,
            Notice::Processing => NoticeModel::Processing,
            Notice::MaximumDuration => NoticeModel::MaximumDuration,
            Notice::Cancelled => NoticeModel::Cancelled,
            Notice::RecognitionFailed(message) => NoticeModel::RecognitionFailed(message@),
            Notice::Copied => NoticeModel::Copied,
            Notice::Dispatched => NoticeModel::Dispatched,
            Notice::TooShort => NoticeModel::TooShort,
            Notice::NoSpeech(guidance) => NoticeModel::NoSpeech(guidance@),
        }
    }
}

impl NoticeModel {
    /// What the overlay shows for a notice.
    pub open spec fn overlay_text(self) -> OverlayModel {
        match self {
            NoticeModel::Listening => overlay_of(
                "listening"@,
                "Listening"@,
                "Speak now · shortcut again to stop"@,
                0,
            ),
            NoticeModel::Processing => overlay_of(
                "processing"@,
                "Processing speech"@,
                "Running VAD and recognition"@,
                0,
            ),
            NoticeModel::MaximumDuration => overlay_of(
                "processing"@,
                "Maximum duration reached"@,
                "Stopping safely and processing captured speech"@,
                0,
            ),
            NoticeModel::Cancelled => overlay_of(
                "cancelled"@,
                "Dictation cancelled"@,
                "No text was inserted"@,
                1_800,
            ),
            NoticeModel::RecognitionFailed(_) => overlay_of(
                "error"@,
                "Recognition failed"@,
                "Open diagnostics for details"@,
                3_500,
            ),
            NoticeModel::Copied => overlay_of(
                "done"@,
                "Text copied"@,
                "Paste it when the intended field is ready"@,
                3_000,
            ),
            NoticeModel::Dispatched => overlay_of(
                "done"@,
                "Text dispatched"@,
                "Sent to the focused input path · Meta+Alt+G reviews focused text"@,
                2_000,
            ),
            NoticeModel::TooShort => overlay_of(
                "no-speech"@,
                "Recording too short"@,
                "Hold the shortcut a little longer"@,
                2_000,
            ),
            NoticeModel::NoSpeech(guidance) => overlay_of(
                "no-speech"@,
                "No speech detected"@,
                guidance,
                2_800,
            ),
        }
    }

    /// The summary and the text of the notification for a notice, where there is one.
    pub open spec fn notification_text(self) -> Option<(Seq<char>, Seq<char>)> {
        match self {
            NoticeModel::Listening => Some(("VoxType"@, "Listening…"@)),
            NoticeModel::Processing => None,
            NoticeModel::MaximumDuration => None,
            NoticeModel::Cancelled => Some(("VoxType"@, "Dictation cancelled"@)),
            NoticeModel::RecognitionFailed(message) => Some(
                ("VoxType recognition failed"@, message),
            ),
            NoticeModel::Copied => Some(("VoxType"@, "Dictation copied to clipboard"@)),
            NoticeModel::Dispatched => Some(("VoxType"@, "Dictation dispatched"@)),
            NoticeModel::TooShort => Some(("VoxType"@, "Recording was too short"@)),
            NoticeModel::NoSpeech(_) => Some(("VoxType"@, "No speech detected"@)),
        }
    }
}

impl Notice {
    pub fn overlay(&self) -> (overlay: OverlayText)
        ensures
            overlay@ == self@.overlay_text(),
    {
        match self {
            Notice::Listening => OverlayText {
                state: "listening",
                title: "Listening",
                body: owned("Speak now · shortcut again to stop"),
                timeout_millis: 0,
            },
            Notice::Processing => OverlayText {
                state: "processing",
                title: "Processing speech",
                body: owned("Running VAD and recognition"),
                timeout_millis: 0,
            },
            Notice::MaximumDuration => OverlayText {
                state: "processing",
                title: "Maximum duration reached",
                body: owned("Stopping safely and processing captured speech"),
                timeout_millis: 0,
            },
            Notice::Cancelled => OverlayText {
                state: "cancelled",
                title: "Dictation cancelled",
                body: owned("No text was inserted"),
                timeout_millis: 1_800,
            },
            Notice::RecognitionFailed(_) => OverlayText {
                state: "error",
                title: "Recognition failed",
                body: owned("Open diagnostics for details"),
                timeout_millis: 3_500,
            },
            Notice::Copied => OverlayText {
                state: "done",
                title: "Text copied",
                body: owned("Paste it when the intended field is ready"),
                timeout_millis: 3_000,
            },
            Notice::Dispatched => OverlayText {
                state: "done",
                title: "Text dispatched",
                body: owned("Sent to the focused input path · Meta+Alt+G reviews focused text"),
                timeout_millis: 2_000,
            },
            Notice::TooShort => OverlayText {
                state: "no-speech",
                title: "Recording too short",
                body: owned("Hold the shortcut a little longer"),
                timeout_millis: 2_000,
            },
            Notice::NoSpeech(guidance) => OverlayText {
                state: "no-speech",
                title: "No speech detected",
                body: owned(guidance),
                timeout_millis: 2_800,
            },
        }
    }

    pub fn notification(&self) -> (r: Option<(&'static str, &str)>)
        ensures
            match r {
                Some(text) => self@.notification_text() == Some((text.0@, text.1@)),
                None => self@.notification_text() is None,
            },
    {
        match self {
            Notice::Listening => Some(("VoxType", "Listening…")),
            Notice::Processing => None,
            Notice::MaximumDuration => None,
            Notice::Cancelled => Some(("VoxType", "Dictation cancelled")),
            Notice::RecognitionFailed(message) => Some(
                ("VoxType recognition failed", message.as_str()),
            ),
            Notice::Copied => Some(("VoxType", "Dictation copied to clipboard")),
            Notice::Dispatched => Some(("VoxType", "Dictation dispatched")),
            Notice::TooShort => Some(("VoxType", "Recording was too short")),
            Notice::NoSpeech(_) => Some(("VoxType", "No speech detected")),
        }
    }
}

/// The reason for which no speech was heard, and what may help.
pub open spec fn guidance_for(
    result: VadResult,
    configured_threshold: u16,
    minimum_voiced_frames: u32,
) -> (Seq<char>, Seq<char>) {
    let tripled = if 3 * configured_threshold > u16::MAX {
        u16::MAX as int
    } else {
        3 * configured_threshold
    };
    let doubled = if 2 * result.adaptive_threshold > u16::MAX {
        u16::MAX as int
    } else {
        2 * result.adaptive_threshold
    };
    if result.peak >= 32_000 {
        (
            "clipping"@,
            "Input clipped · lower microphone gain or move slightly farther away"@,
        )
    } else if result.adaptive_threshold >= tripled && result.noise_floor >= configured_threshold {
        (
            "high-noise"@,
            "Background noise is high · reduce noise or run microphone calibration"@,
        )
    } else if result.peak < doubled || result.peak < 500 {
        ("too-quiet"@, "Input is too quiet · speak closer or increase microphone gain"@)
    } else if 0 < result.voiced_frames < minimum_voiced_frames {
        (
            "speech-too-short"@,
            "Speech was too brief · hold the shortcut and speak a little longer"@,
        )
    } else {
        (
            "unconfirmed"@,
            "Speech was not confirmed · speak continuously and avoid keyboard noise"@,
        )
    }
}

pub fn no_speech_guidance(
    result: &VadResult,
    configured_threshold: u16,
    minimum_voiced_frames: u32,
) -> (r: (&'static str, &'static str))
    ensures
        (r.0@, r.1@) == guidance_for(*result, configured_threshold, minimum_voiced_frames),
{
    if result.peak >= 32_000 {
        return (
            "clipping",
            "Input clipped · lower microphone gain or move slightly farther away",
        );
    }
    let tripled: u32 = 3 * configured_threshold as u32;
    let high: u32 = if tripled > 65_535 {
        65_535
    } else {
        tripled
    };
    if result.adaptive_threshold as u32 >= high && result.noise_floor >= configured_threshold {
        return (
            "high-noise",
            "Background noise is high · reduce noise or run microphone calibration",
        );
    }
    let doubled: u32 = 2 * result.adaptive_threshold as u32;
    let low: u32 = if doubled > 65_535 {
        65_535
    } else {
        doubled
    };
    if (result.peak as u32) < low || result.peak < 500 {
        return ("too-quiet", "Input is too quiet · speak closer or increase microphone gain");
    }
    if result.voiced_frames > 0 && result.voiced_frames < minimum_voiced_frames {
        return (
            "speech-too-short",
            "Speech was too brief · hold the shortcut and speak a little longer",
        );
    }
    (
        "unconfirmed",
        "Speech was not confirmed · speak continuously and avoid keyboard noise",
    )
}

/// The body of the overlay for a cleanup report, with the program that the text came from.
pub open spec fn cleanup_body(report: GrammarReport, source: Option<Seq<char>>) -> Seq<char> {
    let prefix = match source {
        Some(name) if name.len() > 0 => name + " · "@,
        _ => Seq::empty(),
    };
    if report.clean {
        prefix + "no local cleanup suggestions"@
    } else {
        prefix + decimal(report.safe_edit_count as nat) + " safe · "@ + decimal(
            report.review_edit_count as nat,
        ) + " need review"@
    }
}

pub fn cleanup_overlay_body(report: &GrammarReport, source: Option<&str>) -> (body: String)
    ensures
        body@ == cleanup_body(
            *report,
            match source {
                Some(source) => Some(source@),
                None => None,
            },
        ),
{
    let mut body = match source {
        Some(name) => if name.unicode_len() > 0 {
            join2(name, " · ")
        } else {
            String::new()
        },
        None => String::new(),
    };
    if report.is_clean() {
        body.append("no local cleanup suggestions");
        return body;
    }
    let safe = write_number(report.safe_edit_count as u64);
    let review = write_number(report.review_edit_count as u64);
    body.append(safe.as_str());
    body.append(" safe · ");
    body.append(review.as_str());
    body.append(" need review");
    body
}

pub open spec fn category_word(category: ErrorCategory) -> Seq<char> {
    match category {
        ErrorCategory::InvalidArgument => "invalid-argument"@,
        ErrorCategory::InvalidState => "invalid-state"@,
        ErrorCategory::Configuration => "configuration"@,
        ErrorCategory::Authentication => "authentication"@,
        ErrorCategory::Permission => "permission"@,
        ErrorCategory::Connection => "connection"@,
        ErrorCategory::Timeout => "timeout"@,
        ErrorCategory::Protocol => "protocol"@,
        ErrorCategory::RateLimited => "rate-limited"@,
        ErrorCategory::Unavailable => "unavailable"@,
        ErrorCategory::Cancelled => "cancelled"@,
        ErrorCategory::Internal => "internal"@,
    }
}

pub fn error_category_name(category: ErrorCategory) -> (r: &'static str)
    ensures
        r@ == category_word(category),
{
    match category {
        ErrorCategory::InvalidArgument => "invalid-argument",
        ErrorCategory::InvalidState => "invalid-state",
        ErrorCategory::Configuration => "configuration",
        ErrorCategory::Authentication => "authentication",
        ErrorCategory::Permission => "permission",
        ErrorCategory::Connection => "connection",
        ErrorCategory::Timeout => "timeout",
        ErrorCategory::Protocol => "protocol",
        ErrorCategory::RateLimited => "rate-limited",
        ErrorCategory::Unavailable => "unavailable",
        ErrorCategory::Cancelled => "cancelled",
        ErrorCategory::Internal => "internal",
    }
}

pub open spec fn optional_text(text: Option<Seq<char>>) -> JsonModel {
    match text {
        Some(text) => JsonModel::Text(text),
        None => JsonModel::Null,
    }
}

pub open spec fn health_parts(
    route: bool,
    health: HealthModel,
    ttl_seconds: u64,
    now: u64,
) -> Seq<(Seq<char>, JsonModel)> {
    seq![
        ("route_available"@, JsonModel::Bool(route)),
        ("verified"@, JsonModel::Bool(verified(health, now))),
        (
            "verified_age_seconds"@,
            optional_number(
                match health.last_success_at {
                    Some(success) => Some(seconds_since(now, success)),
                    None => None,
                },
            ),
        ),
        ("verification_ttl_seconds"@, JsonModel::Unsigned(ttl_seconds)),
        (
            "consecutive_failures"@,
            JsonModel::Unsigned(health.consecutive_failures as u64),
        ),
        (
            "retry_after_seconds"@,
            optional_number(
                match health.blocked_until {
                    Some(deadline) if deadline >= now => Some(seconds_since(deadline, now)),
                    _ => None,
                },
            ),
        ),
        (
            "last_failure_age_seconds"@,
            optional_number(
                match health.last_failure_at {
                    Some(failure) => Some(seconds_since(now, failure)),
                    None => None,
                },
            ),
        ),
        (
            "last_error_category"@,
            optional_text(
                match health.last_error_category {
                    Some(category) => Some(category_word(category)),
                    None => None,
                },
            ),
        ),
        ("last_error_code"@, optional_text(health.last_error_code)),
    ]
}

/// The document for what is known of a provider's health.
pub open spec fn health_document(
    route: bool,
    health: HealthModel,
    ttl_seconds: u64,
    now: u64,
) -> JsonModel {
    JsonModel::Object(health_parts(route, health, ttl_seconds, now))
}

/// What is shown of a provider; one whose name is not one of a provider has no health at all.
pub open spec fn provider_document(
    name: Seq<char>,
    controller: ControllerModel,
    now: u64,
) -> JsonModel {
    if provider_name(name) {
        health_document(
            route_available(controller, name, now),
            health_in(controller.accounts, name),
            PROVIDER_VERIFICATION_TTL_SECONDS,
            now,
        )
    } else {
        health_document(false, crate::controller::fresh_health(), 0, now)
    }
}

/// The members for the first `n` providers.
pub open spec fn provider_members(
    rows: Seq<(Seq<char>, ProviderConfig)>,
    controller: ControllerModel,
    now: u64,
) -> Seq<(Seq<char>, JsonModel)> {
    Seq::new(rows.len(), |i: int| (rows[i].0, provider_document(rows[i].0, controller, now)))
}

pub open spec fn status_parts(
    rows: Seq<(Seq<char>, ProviderConfig)>,
    controller: ControllerModel,
    now: u64,
) -> Seq<(Seq<char>, JsonModel)> {
    seq![
        ("schema"@, JsonModel::Unsigned(1)),
        ("providers"@, JsonModel::Object(provider_members(rows, controller, now))),
    ]
}

/// The document that shows the health of every configured provider.
pub open spec fn status_document(
    rows: Seq<(Seq<char>, ProviderConfig)>,
    controller: ControllerModel,
    now: u64,
) -> JsonModel {
    JsonModel::Object(status_parts(rows, controller, now))
}

/// What a snapshot of a provider's health is shown as.
pub open spec fn snapshot_parts(snapshot: ProviderHealthSnapshot) -> Seq<(Seq<char>, JsonModel)> {
    seq![
        ("route_available"@, JsonModel::Bool(snapshot.route_available)),
        ("verified"@, JsonModel::Bool(snapshot.verified)),
        ("verified_age_seconds"@, optional_number(snapshot.verified_age_seconds)),
        (
            "verification_ttl_seconds"@,
            JsonModel::Unsigned(snapshot.verification_ttl_seconds),
        ),
        (
            "consecutive_failures"@,
            JsonModel::Unsigned(snapshot.consecutive_failures as u64),
        ),
        ("retry_after_seconds"@, optional_number(snapshot.retry_after_seconds)),
        (
            "last_failure_age_seconds"@,
            optional_number(snapshot.last_failure_age_seconds),
        ),
        (
            "last_error_category"@,
            optional_text(
                match snapshot.last_error_category {
                    Some(category) => Some(category_word(category)),
                    None => None,
                },
            ),
        ),
        ("last_error_code"@, optional_text(opt_str(snapshot.last_error_code))),
    ]
}

fn health_json(snapshot: &ProviderHealthSnapshot) -> (json: Json)
    ensures
        json@ == JsonModel::Object(snapshot_parts(*snapshot)),
{
    let mut members = Members::new();
    members.put_truth("route_available", snapshot.route_available);
    members.put_truth("verified", snapshot.verified);
    members.put_optional_number("verified_age_seconds", snapshot.verified_age_seconds);
    members.put_number("verification_ttl_seconds", snapshot.verification_ttl_seconds);
    members.put_number("consecutive_failures", snapshot.consecutive_failures as u64);
    members.put_optional_number("retry_after_seconds", snapshot.retry_after_seconds);
    members.put_optional_number("last_failure_age_seconds", snapshot.last_failure_age_seconds);
    members.put_optional_text(
        "last_error_category",
        match snapshot.last_error_category {
            Some(category) => Some(error_category_name(category)),
            None => None,
        },
    );
    members.put_optional_text("last_error_code", snapshot.last_error_code);
    assert(members@ =~= snapshot_parts(*snapshot));
    members.object()
}

fn unknown_health() -> (snapshot: ProviderHealthSnapshot)
    ensures
        !snapshot.route_available,
        !snapshot.verified,
        snapshot.verified_age_seconds is None,
        snapshot.verification_ttl_seconds == 0,
        snapshot.consecutive_failures == 0,
        snapshot.retry_after_seconds is None,
        snapshot.last_failure_age_seconds is None,
        snapshot.last_error_category is None,
        snapshot.last_error_code is None,
{
    ProviderHealthSnapshot {
        route_available: false,
        verified: false,
        verified_age_seconds: None,
        verification_ttl_seconds: 0,
        consecutive_failures: 0,
        retry_after_seconds: None,
        last_failure_age_seconds: None,
        last_error_category: None,
        last_error_code: None,
    }
}

fn provider_json(name: &str, app: &AppController, now: u64) -> (json: Json)
    ensures
        json@ == provider_document(name@, app@, now),
{
    let snapshot = match ProviderId::new(name) {
        Ok(id) => app.provider_health_snapshot(&id, now),
        Err(_) => unknown_health(),
    };
    proof {
        let health = if provider_name(name@) {
            health_in(app@.accounts, name@)
        } else {
            crate::controller::fresh_health()
        };
        assert(snapshot_parts(snapshot) =~= health_parts(
            snapshot.route_available,
            health,
            snapshot.verification_ttl_seconds,
            now,
        ));
    }
    health_json(&snapshot)
}

/// The text of the document that shows the health of every configured provider.
pub fn provider_status_json(config: &Config, app: &AppController, now: u64) -> (text: String)
    ensures
        text@ == json_text(status_document(config.providers.rows(), app@, now)),
{
    let ghost rows = config.providers.rows();
    let ghost all = provider_members(rows, app@, now);
    let total: usize = config.providers.len();
    let mut providers = Members::new();
    assert(providers@ =~= all.take(0));
    for i in 0..total
        invariant
            rows == config.providers.rows(),
            total == rows.len(),
            all == provider_members(rows, app@, now),
            providers@ == all.take(i as int),
    {
        let name = config.providers.name_at(i);
        providers.put(name, provider_json(name, app, now));
        assert(all.take(i + 1) =~= all.take(i as int).push(all[i as int]));
    }
    assert(all.take(total as int) =~= all);
    let mut document = Members::new();
    document.put_number("schema", 1);
    document.put("providers", providers.object());
    assert(document@ =~= status_parts(rows, app@, now));
    let json = document.object();
    render_json(&json)
}

pub open spec fn quota_parts(quota: ProviderQuotaConfig) -> Seq<(Seq<char>, JsonModel)> {
    seq![
        ("request_limit"@, optional_number(quota.request_limit)),
        ("audio_seconds_limit"@, optional_number(quota.audio_seconds_limit)),
        ("token_limit"@, optional_number(quota.token_limit)),
    ]
}

/// The document for the limits of a provider.
pub open spec fn quota_document(quota: ProviderQuotaConfig) -> JsonModel {
    JsonModel::Object(quota_parts(quota))
}

pub open spec fn usage_parts(usage: ProviderUsageSnapshot) -> Seq<(Seq<char>, JsonModel)> {
    seq![
        ("attempts"@, JsonModel::Unsigned(usage.attempts)),
        ("requests"@, JsonModel::Unsigned(usage.requests)),
        ("successes"@, JsonModel::Unsigned(usage.successes)),
        ("failures"@, JsonModel::Unsigned(usage.failures)),
        ("audio_millis"@, JsonModel::Unsigned(usage.audio_millis)),
        ("token_reports"@, JsonModel::Unsigned(usage.token_reports)),
        ("input_tokens"@, JsonModel::Unsigned(usage.input_tokens)),
        ("output_tokens"@, JsonModel::Unsigned(usage.output_tokens)),
        ("total_tokens"@, JsonModel::Unsigned(usage.total_tokens)),
        ("reported_tokens"@, JsonModel::Unsigned(usage.reported_tokens)),
    ]
}

pub open spec fn usage_document(usage: ProviderUsageSnapshot) -> JsonModel {
    JsonModel::Object(usage_parts(usage))
}

pub open spec fn usage_and_quota(
    usage: ProviderUsageSnapshot,
    quota: ProviderQuotaConfig,
) -> Seq<(Seq<char>, JsonModel)> {
    seq![("usage"@, usage_document(usage)), ("quota"@, quota_document(quota))]
}

/// What is shown of the consumption of a provider.
pub open spec fn consumption_document(
    name: Seq<char>,
    config: Config,
    controller: ControllerModel,
) -> JsonModel {
    let usage = if provider_name(name) {
        usage_in(controller.accounts, name)
    } else {
        crate::controller::no_usage()
    };
    let quota = if config.quotas.has(name) {
        config.quotas.value_of(name)
    } else {
        ProviderQuotaConfig { request_limit: None, audio_seconds_limit: None, token_limit: None }
    };
    JsonModel::Object(usage_and_quota(usage, quota))
}

pub open spec fn consumption_members(config: Config, controller: ControllerModel) -> Seq<
    (Seq<char>, JsonModel),
> {
    let rows = config.providers.rows();
    Seq::new(
        rows.len(),
        |i: int| (rows[i].0, consumption_document(rows[i].0, config, controller)),
    )
}

pub open spec fn consumption_parts(config: Config, controller: ControllerModel) -> Seq<(Seq<char>, JsonModel)> {
    seq![
        ("scope"@, JsonModel::Text("daemon-session"@)),
        ("providers"@, JsonModel::Object(consumption_members(config, controller))),
    ]
}

/// The document that shows the consumption of every configured provider.
pub open spec fn consumption_status(config: Config, controller: ControllerModel) -> JsonModel {
    JsonModel::Object(consumption_parts(config, controller))
}

pub fn usage_json(usage: &ProviderUsageSnapshot) -> (json: Json)
    ensures
        json@ == usage_document(*usage),
{
    let mut members = Members::new();
    members.put_number("attempts", usage.attempts);
    members.put_number("requests", usage.requests);
    members.put_number("successes", usage.successes);
    members.put_number("failures", usage.failures);
    members.put_number("audio_millis", usage.audio_millis);
    members.put_number("token_reports", usage.token_reports);
    members.put_number("input_tokens", usage.input_tokens);
    members.put_number("output_tokens", usage.output_tokens);
    members.put_number("total_tokens", usage.total_tokens);
    members.put_number("reported_tokens", usage.reported_tokens);
    assert(members@ =~= usage_parts(*usage));
    members.object()
}

pub fn quota_json(quota: &ProviderQuotaConfig) -> (json: Json)
    ensures
        json@ == quota_document(*quota),
{
    let mut members = Members::new();
    members.put_optional_number("request_limit", quota.request_limit);
    members.put_optional_number("audio_seconds_limit", quota.audio_seconds_limit);
    members.put_optional_number("token_limit", quota.token_limit);
    assert(members@ =~= quota_parts(*quota));
    members.object()
}

fn consumption_json(name: &str, config: &Config, app: &AppController) -> (json: Json)
    ensures
        json@ == consumption_document(name@, *config, app@),
{
    let usage = match ProviderId::new(name) {
        Ok(id) => app.provider_usage_snapshot(&id),
        Err(_) => ProviderUsageSnapshot::default(),
    };
    let quota = match config.quotas.get(name) {
        Some(quota) => *quota,
        None => ProviderQuotaConfig::default(),
    };
    let mut members = Members::new();
    members.put("usage", usage_json(&usage));
    members.put("quota", quota_json(&quota));
    assert(members@ =~= usage_and_quota(usage, quota));
    members.object()
}

/// The text of the document that shows session-local consumption and configured soft limits.
pub fn usage_status(config: &Config, app: &AppController) -> (text: String)
    ensures
        text@ == json_text(consumption_status(*config, app@)),
{
    let ghost rows = config.providers.rows();
    let ghost all = consumption_members(*config, app@);
    let total: usize = config.providers.len();
    let mut providers = Members::new();
    assert(providers@ =~= all.take(0));
    for i in 0..total
        invariant
            rows == config.providers.rows(),
            total == rows.len(),
            all == consumption_members(*config, app@),
            providers@ == all.take(i as int),
    {
        let name = config.providers.name_at(i);
        providers.put(name, consumption_json(name, config, app));
        assert(all.take(i + 1) =~= all.take(i as int).push(all[i as int]));
    }
    assert(all.take(total as int) =~= all);
    let mut document = Members::new();
    document.put_text("scope", "daemon-session");
    document.put("providers", providers.object());
    assert(document@ =~= consumption_parts(*config, app@));
    let json = document.object();
    render_json(&json)
}

pub open spec fn overlay_parts(overlay: OverlayModel) -> Seq<(Seq<char>, JsonModel)> {
    seq![
        ("state"@, JsonModel::Text(overlay.state)),
        ("title"@, JsonModel::Text(overlay.title)),
        ("body"@, JsonModel::Text(overlay.body)),
        ("timeout_ms"@, JsonModel::Unsigned(overlay.timeout_millis as u64)),
    ]
}

/// The document that an overlay is told with.
pub open spec fn overlay_document(overlay: OverlayModel) -> JsonModel {
    JsonModel::Object(overlay_parts(overlay))
}

/// The text that the overlay process is told with.
pub fn overlay_payload(state: &str, title: &str, body: &str, timeout_millis: u32) -> (text: String)
    ensures
        text@ == json_text(overlay_document(overlay_of(state@, title@, body@, timeout_millis))),
{
    let mut members = Members::new();
    members.put_text("state", state);
    members.put_text("title", title);
    members.put_text("body", body);
    members.put_number("timeout_ms", timeout_millis as u64);
    assert(members@ =~= overlay_parts(overlay_of(state@, title@, body@, timeout_millis)));
    let json = members.object();
    render_json(&json)
}

/// What clients are told of an edit.
pub open spec fn edit_parts(edit: CleanupEdit) -> Seq<(Seq<char>, JsonModel)> {
    seq![
        ("start_byte"@, JsonModel::Unsigned(edit.start_byte as u64)),
        ("end_byte"@, JsonModel::Unsigned(edit.end_byte as u64)),
        ("original"@, JsonModel::Text(edit.original@)),
        ("replacement"@, JsonModel::Text(edit.replacement@)),
        ("rule_id"@, JsonModel::Text(edit.rule_id@)),
        ("message"@, JsonModel::Text(edit.message@)),
        ("safety"@, JsonModel::Text(edit.safety.word())),
        ("confidence"@, JsonModel::Text(edit.confidence.word())),
    ]
}

pub open spec fn edit_documents(edits: Seq<CleanupEdit>) -> Seq<JsonModel> {
    Seq::new(edits.len(), |i: int| JsonModel::Object(edit_parts(edits[i])))
}

/// What clients are told of the program that a reviewed text comes from.
pub open spec fn source_parts(context: FcitxContext) -> Seq<(Seq<char>, JsonModel)> {
    seq![
        ("kind"@, JsonModel::Text("fcitx"@)),
        ("program"@, JsonModel::Text(context.target.program@)),
        ("frontend"@, JsonModel::Text(context.target.frontend@)),
        ("generation"@, JsonModel::Unsigned(context.generation)),
        ("truncated"@, JsonModel::Bool(context.truncated)),
    ]
}

/// What clients are told of a review of the text round the cursor: the report, and where the text
/// comes from.
pub open spec fn context_parts(report: GrammarReport, context: FcitxContext) -> Seq<
    (Seq<char>, JsonModel),
> {
    seq![
        ("schema"@, JsonModel::Unsigned(report.schema as u64)),
        ("clean"@, JsonModel::Bool(report.clean)),
        ("original_fingerprint"@, JsonModel::Text(report.original_fingerprint@)),
        ("original_bytes"@, JsonModel::Unsigned(report.original_bytes as u64)),
        ("original_characters"@, JsonModel::Unsigned(report.original_characters as u64)),
        ("suggested"@, JsonModel::Text(report.suggested@)),
        ("safe_edit_count"@, JsonModel::Unsigned(report.safe_edit_count as u64)),
        ("review_edit_count"@, JsonModel::Unsigned(report.review_edit_count as u64)),
        ("edits"@, JsonModel::Array(edit_documents(report.edits@))),
        ("source"@, JsonModel::Object(source_parts(context))),
    ]
}

fn edit_json(edit: &CleanupEdit) -> (json: Json)
    ensures
        json@ == JsonModel::Object(edit_parts(*edit)),
{
    let mut members = Members::new();
    members.put_number("start_byte", edit.start_byte as u64);
    members.put_number("end_byte", edit.end_byte as u64);
    members.put_text("original", edit.original.as_str());
    members.put_text("replacement", edit.replacement.as_str());
    members.put_text("rule_id", edit.rule_id);
    members.put_text("message", edit.message);
    members.put_text("safety", edit.safety.name());
    members.put_text("confidence", edit.confidence.name());
    assert(members@ =~= edit_parts(*edit));
    members.object()
}

fn source_json(context: &FcitxContext) -> (json: Json)
    ensures
        json@ == JsonModel::Object(source_parts(*context)),
{
    let mut members = Members::new();
    members.put_text("kind", "fcitx");
    members.put_text("program", context.target.program.as_str());
    members.put_text("frontend", context.target.frontend.as_str());
    members.put_number("generation", context.generation);
    members.put_truth("truncated", context.truncated);
    assert(members@ =~= source_parts(*context));
    members.object()
}

/// The answer to a client that had the text round the cursor reviewed.
pub fn context_document(report: &GrammarReport, context: &FcitxContext) -> (text: String)
    ensures
        text@ == json_text(JsonModel::Object(context_parts(*report, *context))),
{
    let ghost all = edit_documents(report.edits@);
    let mut edits = Items::new();
    assert(edits@ =~= all.take(0));
    for i in 0..report.edits.len()
        invariant
            all == edit_documents(report.edits@),
            edits@ == all.take(i as int),
    {
        edits.put(edit_json(&report.edits[i]));
        assert(all.take(i + 1) =~= all.take(i as int).push(all[i as int]));
    }
    assert(all.take(all.len() as int) =~= all);
    let mut members = Members::new();
    members.put_number("schema", report.schema as u64);
    members.put_truth("clean", report.clean);
    members.put_text("original_fingerprint", report.original_fingerprint.as_str());
    members.put_number("original_bytes", report.original_bytes as u64);
    members.put_number("original_characters", report.original_characters as u64);
    members.put_text("suggested", report.suggested.as_str());
    members.put_number("safe_edit_count", report.safe_edit_count as u64);
    members.put_number("review_edit_count", report.review_edit_count as u64);
    members.put("edits", edits.array());
    members.put("source", source_json(context));
    assert(members@ =~= context_parts(*report, *context));
    let json = members.object();
    render_json(&json)
}

/// What the overlay says of a frame.
pub open spec fn metrics_body(analysis: VadFrameAnalysis, clipping_percent: u32) -> Seq<char> {
    "RMS "@ + decimal(analysis.rms as nat) + " · threshold "@ + decimal(
        analysis.adaptive_threshold as nat,
    ) + " · "@ + (if analysis.speech_active {
        "speech"@
    } else {
        "noise"@
    }) + " · clipping "@ + decimal(clipping_percent as nat) + "%"@
}

pub open spec fn metrics_parts(
    analysis: VadFrameAnalysis,
    clipping_percent: u32,
    updated_millis: u64,
) -> Seq<(Seq<char>, JsonModel)> {
    seq![
        ("state"@, JsonModel::Text("listening"@)),
        ("title"@, JsonModel::Text("Listening"@)),
        ("body"@, JsonModel::Text(metrics_body(analysis, clipping_percent))),
        ("timeout_ms"@, JsonModel::Unsigned(0)),
        ("visible"@, JsonModel::Bool(true)),
        ("rms"@, JsonModel::Unsigned(analysis.rms as u64)),
        ("adaptive_threshold"@, JsonModel::Unsigned(analysis.adaptive_threshold as u64)),
        ("speech_active"@, JsonModel::Bool(analysis.speech_active)),
        (
            "clipping_percent"@,
            JsonModel::Unsigned(
                if clipping_percent < 100 {
                    clipping_percent as u64
                } else {
                    100
                },
            ),
        ),
        ("updated_ms"@, JsonModel::Unsigned(updated_millis)),
    ]
}

/// The document that the overlay is told the level of a frame with. It holds levels only.
pub open spec fn metrics_document(
    analysis: VadFrameAnalysis,
    clipping_percent: u32,
    updated_millis: u64,
) -> JsonModel {
    JsonModel::Object(metrics_parts(analysis, clipping_percent, updated_millis))
}

/// The text that the overlay is told the level of a frame with.
pub fn audio_metrics_payload(
    analysis: &VadFrameAnalysis,
    clipping_percent: u32,
    updated_millis: u64,
) -> (text: String)
    ensures
        text@ == json_text(metrics_document(*analysis, clipping_percent, updated_millis)),
{
    let rms = write_number(analysis.rms as u64);
    let threshold = write_number(analysis.adaptive_threshold as u64);
    let clipping = write_number(clipping_percent as u64);
    let mut body = join3("RMS ", rms.as_str(), " · threshold ");
    body.append(threshold.as_str());
    body.append(" · ");
    body.append(
        if analysis.speech_active {
            "speech"
        } else {
            "noise"
        },
    );
    body.append(" · clipping ");
    body.append(clipping.as_str());
    body.append("%");
    let mut members = Members::new();
    members.put_text("state", "listening");
    members.put_text("title", "Listening");
    members.put_text("body", body.as_str());
    members.put_number("timeout_ms", 0);
    members.put_truth("visible", true);
    members.put_number("rms", analysis.rms as u64);
    members.put_number("adaptive_threshold", analysis.adaptive_threshold as u64);
    members.put_truth("speech_active", analysis.speech_active);
    members.put_number(
        "clipping_percent",
        if clipping_percent < 100 {
            clipping_percent as u64
        } else {
            100
        },
    );
    members.put_number("updated_ms", updated_millis);
    assert(members@ =~= metrics_parts(*analysis, clipping_percent, updated_millis));
    let json = members.object();
    render_json(&json)
}

/// A provider that never succeeded is never shown as verified.
pub proof fn law_unproven_provider_is_not_verified(health: HealthModel, now: u64)
    requires
        health.last_success_at is None,
    ensures
        !verified(health, now),
{
}

/// A recording without speech is explained by the first of these that holds: it was clipped from a
/// peak of 32000 on; the noise reaches the configured threshold and the threshold found is at least
/// three times that; the peak lies below twice the threshold found, or below 500; there were voiced
/// frames but too few.
pub proof fn law_silence_is_explained(result: VadResult, configured: u16, minimum: u32)
    requires
        configured <= 20_000,
        result.adaptive_threshold <= 30_000,
    ensures
        ({
            let reason = guidance_for(result, configured, minimum).0;
            let noisy = result.adaptive_threshold >= 3 * configured && result.noise_floor
                >= configured;
            let quiet = result.peak < 2 * result.adaptive_threshold || result.peak < 500;
            let brief = 0 < result.voiced_frames < minimum;
            &&& result.peak >= 32_000 ==> reason == "clipping"@
            &&& result.peak < 32_000 && noisy ==> reason == "high-noise"@
            &&& result.peak < 32_000 && !noisy && quiet ==> reason == "too-quiet"@
            &&& result.peak < 32_000 && !noisy && !quiet && brief ==> reason
                == "speech-too-short"@
            &&& result.peak < 32_000 && !noisy && !quiet && !brief ==> reason == "unconfirmed"@
        }),
{
}

/// A provider that is left alone is shown with the whole seconds until it may be asked again; one that
/// may be asked, with none.
pub proof fn law_wait_is_shown(route: bool, health: HealthModel, ttl_seconds: u64, now: u64)
    ensures
        ({
            let shown = health_parts(route, health, ttl_seconds, now)[5];
            &&& shown.0 == "retry_after_seconds"@
            &&& health.blocked_until is None ==> shown.1 == JsonModel::Null
            &&& health.blocked_until is Some && health.blocked_until->0 < now ==> shown.1
                == JsonModel::Null
            &&& health.blocked_until is Some && health.blocked_until->0 >= now ==> shown.1
                == JsonModel::Unsigned(
                ((health.blocked_until->0 - now) / 1_000_000_000) as u64,
            )
        }),
        health_parts(route, health, ttl_seconds, now)[0] == ("route_available"@, JsonModel::Bool(
            route,
        )),
        health_parts(route, health, ttl_seconds, now)[4] == (
            "consecutive_failures"@,
            JsonModel::Unsigned(health.consecutive_failures as u64),
        ),
        health.last_success_at is Some ==> health_parts(route, health, ttl_seconds, now)[1].1
            == JsonModel::Bool(now <= health.last_success_at->0 + 900_000_000_000),
{
}

/// Every configured provider is shown under its name, with its own health and its own consumption.
pub proof fn law_every_provider_is_shown(
    config: Config,
    controller: ControllerModel,
    now: u64,
    i: int,
)
    requires
        0 <= i < config.providers.rows().len(),
    ensures
        ({
            let rows = config.providers.rows();
            let health = provider_members(rows, controller, now);
            let consumption = consumption_members(config, controller);
            &&& health.len() == rows.len() && consumption.len() == rows.len()
            &&& health[i].0 == rows[i].0 && consumption[i].0 == rows[i].0
            &&& provider_name(rows[i].0) ==> health[i].1 == health_document(
                route_available(controller, rows[i].0, now),
                health_in(controller.accounts, rows[i].0),
                900,
                now,
            )
            &&& provider_name(rows[i].0) && config.quotas.has(rows[i].0) ==> consumption[i].1
                == JsonModel::Object(
                seq![
                    ("usage"@, usage_document(usage_in(controller.accounts, rows[i].0))),
                    ("quota"@, quota_document(config.quotas.value_of(rows[i].0))),
                ],
            )
        }),
{
}

/// What is shown of a review counts the changes that are safe and those that are not, behind the
/// program that the text came from.
pub proof fn law_review_is_summed_up(report: GrammarReport, name: Seq<char>)
    requires
        name.len() > 0,
    ensures
        report.clean ==> cleanup_body(report, None) == "no local cleanup suggestions"@,
        !report.clean ==> cleanup_body(report, None) == decimal(report.safe_edit_count as nat)
            + " safe · "@ + decimal(report.review_edit_count as nat) + " need review"@,
        cleanup_body(report, Some(name)) == name + " · "@ + cleanup_body(report, None),
        cleanup_body(report, Some(Seq::empty())) == cleanup_body(report, None),
{
    let none = Seq::<char>::empty();
    let told = decimal(report.safe_edit_count as nat) + " safe · "@ + decimal(
        report.review_edit_count as nat,
    ) + " need review"@;
    if report.clean {
        assert(none + "no local cleanup suggestions"@ =~= "no local cleanup suggestions"@);
    } else {
        assert(cleanup_body(report, None) =~= told);
        assert(cleanup_body(report, Some(name)) =~= name + " · "@ + told);
        assert(cleanup_body(report, Some(none)) =~= told);
    }
}

} // verus!
