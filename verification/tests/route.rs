//! Routes over several providers.

use std::sync::{Arc, Mutex};
use voxtype::audio::{AudioFormat, SampleFormat};
use voxtype::cancellation::CancellationToken;
use voxtype::error::{ErrorCategory, VoxError};
use voxtype::provider::{
    AudioAcceptance, ProviderAttemptFailure, ProviderCapabilities, ProviderId,
};
use voxtype::route::{
    fallback_reason, route_step, run_recognition_route, Answer, ProviderAdapter, ProviderRegistry,
    ProviderSuccess, ProviderTranscript, ProviderUsage, RecognitionInput, SharedAdapter,
};
use voxtype::routing::{FallbackReason, ReplayPolicy, RoutePlan};

struct FixedAdapter {
    id: ProviderId,
    result: Mutex<Result<ProviderSuccess, ProviderAttemptFailure>>,
    asked: Arc<Mutex<Vec<String>>>,
}

impl ProviderAdapter for FixedAdapter {
    fn id(&self) -> &ProviderId {
        &self.id
    }

    fn capabilities(&self) -> ProviderCapabilities {
        ProviderCapabilities {
            languages: vec!["zh".to_owned()],
            accepted_formats: vec![AudioFormat {
                sample_rate_hz: 16_000,
                channels: 1,
                sample_format: SampleFormat::I16Le,
            }],
            streaming: false,
            partial_results: false,
            provider_vad: false,
        }
    }

    fn recognize(
        &self,
        input: RecognitionInput<'_>,
        _cancellation: &CancellationToken,
    ) -> Result<ProviderSuccess, ProviderAttemptFailure> {
        self.asked
            .lock()
            .expect("log")
            .push(format!("{} {} {}", self.id.as_str(), input.pcm_path, input.language));
        self.result.lock().unwrap_or_else(std::sync::PoisonError::into_inner).clone()
    }
}

fn id(value: &str) -> ProviderId {
    ProviderId::new(value).expect("test provider ID")
}

fn success(text: &str) -> ProviderSuccess {
    ProviderSuccess {
        transcript: ProviderTranscript {
            text: text.to_owned(),
            usage: ProviderUsage::default(),
        },
        transport_started: false,
        audio_acceptance: AudioAcceptance::NotAccepted,
    }
}

fn logged(
    name: &str,
    result: Result<ProviderSuccess, ProviderAttemptFailure>,
    asked: &Arc<Mutex<Vec<String>>>,
) -> SharedAdapter {
    SharedAdapter {
        adapter: Arc::new(Box::new(FixedAdapter {
            id: id(name),
            result: Mutex::new(result),
            asked: Arc::clone(asked),
        })),
    }
}

fn adapter(
    name: &str,
    result: Result<ProviderSuccess, ProviderAttemptFailure>,
) -> SharedAdapter {
    logged(name, result, &Arc::new(Mutex::new(Vec::new())))
}

fn input() -> RecognitionInput<'static> {
    RecognitionInput { pcm_path: "/tmp/test.pcm", language: "zh" }
}

fn connection_failed() -> VoxError {
    VoxError::new(ErrorCategory::Connection, "provider.connection", "connection failed")
        .with_retryable(true)
}

#[test]
fn registry_rejects_duplicate_ids() {
    let mut registry = ProviderRegistry::new();
    registry
        .register(adapter("same", Ok(success("one"))))
        .expect("first registration");
    let error = registry
        .register(adapter("same", Ok(success("two"))))
        .expect_err("duplicate must fail");
    assert_eq!(error.code(), "provider.duplicate_registration");
}

#[test]
fn route_falls_back_only_before_audio_acceptance() {
    let mut registry = ProviderRegistry::new();
    registry
        .register(adapter(
            "first",
            Err(ProviderAttemptFailure::before_transport(connection_failed())),
        ))
        .expect("first");
    registry
        .register(adapter("second", Ok(success("fallback"))))
        .expect("second");
    let route = RoutePlan {
        providers: vec![id("first"), id("second")],
        replay: ReplayPolicy::BeforeAudioAccepted,
    };
    let result = run_recognition_route(&registry, &route, input(), &CancellationToken::new());
    assert_eq!(result.attempts.len(), 2);
    assert_eq!(result.outcome.expect("fallback succeeds").transcript.text, "fallback");
}

#[test]
fn route_does_not_replay_accepted_audio_without_consent() {
    let retryable = VoxError::new(
        ErrorCategory::Timeout,
        "provider.timeout",
        "request timed out",
    )
    .with_retryable(true);
    let mut registry = ProviderRegistry::new();
    registry
        .register(adapter(
            "first",
            Err(ProviderAttemptFailure::after_transport(retryable, AudioAcceptance::Accepted)),
        ))
        .expect("first");
    registry
        .register(adapter("second", Ok(success("must not run"))))
        .expect("second");
    let route = RoutePlan {
        providers: vec![id("first"), id("second")],
        replay: ReplayPolicy::Never,
    };
    let result = run_recognition_route(&registry, &route, input(), &CancellationToken::new());
    assert_eq!(result.attempts.len(), 1);
    assert!(result.outcome.is_err());
}

#[test]
fn pre_cancelled_route_never_invokes_an_adapter() {
    let asked = Arc::new(Mutex::new(Vec::new()));
    let mut registry = ProviderRegistry::new();
    registry
        .register(logged("provider", Ok(success("late")), &asked))
        .expect("provider");
    let route = RoutePlan { providers: vec![id("provider")], replay: ReplayPolicy::Never };
    let cancellation = CancellationToken::new();
    cancellation.cancel();
    let result = run_recognition_route(&registry, &route, input(), &cancellation);
    assert!(result.attempts.is_empty());
    assert_eq!(
        result.outcome.expect_err("cancelled").category(),
        ErrorCategory::Cancelled
    );
    assert!(asked.lock().expect("log").is_empty());
}

#[test]
fn consent_lets_accepted_audio_be_replayed() {
    let asked = Arc::new(Mutex::new(Vec::new()));
    let mut registry = ProviderRegistry::new();
    registry
        .register(logged(
            "first",
            Err(ProviderAttemptFailure::after_transport(
                connection_failed(),
                AudioAcceptance::Accepted,
            )),
            &asked,
        ))
        .expect("first");
    registry
        .register(logged("second", Ok(success("second text")), &asked))
        .expect("second");
    let route = RoutePlan {
        providers: vec![id("first"), id("second")],
        replay: ReplayPolicy::BufferedWithConsent,
    };
    let result = run_recognition_route(&registry, &route, input(), &CancellationToken::new());
    assert_eq!(result.outcome.expect("replayed").provider_id, id("second"));
    assert_eq!(
        asked.lock().expect("log").as_slice(),
        ["first /tmp/test.pcm zh", "second /tmp/test.pcm zh"]
    );
    assert_eq!(result.attempts[0].audio_acceptance, AudioAcceptance::Accepted);
    assert!(result.attempts[1].error.is_none());
}

#[test]
fn a_blank_transcript_and_a_missing_adapter_end_as_errors() {
    let mut registry = ProviderRegistry::new();
    registry.register(adapter("blank", Ok(success("  ")))).expect("blank");
    let route = RoutePlan { providers: vec![id("blank")], replay: ReplayPolicy::Never };
    let result = run_recognition_route(&registry, &route, input(), &CancellationToken::new());
    assert!(result.outcome.is_err());
    let route = RoutePlan { providers: vec![id("absent")], replay: ReplayPolicy::Never };
    let result = run_recognition_route(&registry, &route, input(), &CancellationToken::new());
    let error = result.outcome.expect_err("nobody is registered");
    assert_eq!(error.category(), ErrorCategory::Configuration);
}

#[test]
fn only_transient_failures_have_a_fallback_reason() {
    assert_eq!(fallback_reason(ErrorCategory::Connection), Some(FallbackReason::Connection));
    assert_eq!(fallback_reason(ErrorCategory::Timeout), Some(FallbackReason::Timeout));
    assert_eq!(fallback_reason(ErrorCategory::RateLimited), Some(FallbackReason::RateLimited));
    assert_eq!(fallback_reason(ErrorCategory::Unavailable), Some(FallbackReason::Unavailable));
    assert_eq!(fallback_reason(ErrorCategory::Authentication), None);
    assert_eq!(fallback_reason(ErrorCategory::Protocol), None);
}

#[test]
fn a_permanent_failure_ends_the_route() {
    let failure = ProviderAttemptFailure::before_transport(VoxError::new(
        ErrorCategory::Authentication,
        "provider.key",
        "rejected",
    ));
    let step = route_step(&id("first"), ReplayPolicy::BufferedWithConsent, Answer::Failed(failure));
    assert!(!step.goes_on);
}

#[test]
fn a_registry_lists_and_copies_its_adapters() {
    let mut registry = ProviderRegistry::new();
    assert!(registry.is_empty());
    registry.register(adapter("zeta", Ok(success("z")))).expect("zeta");
    registry.register_as(id("alpha"), adapter("zeta", Ok(success("a")))).expect("alpha");
    assert_eq!(registry.ids(), ["alpha", "zeta"]);
    let copy = registry.clone();
    assert!(copy.contains(&id("alpha")));
    assert!(copy.get(&id("missing")).is_none());
    assert_eq!(copy.get(&id("alpha")).expect("alpha").adapter.id().as_str(), "zeta");
}
