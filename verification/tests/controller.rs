//! The controller: lifecycle events, terminal results, health and usage of providers.

use voxtype::controller::{
    AppController, AppEvent, ProviderHealthState, ProviderUsageSnapshot, BLOCK_NANOS,
    MAX_PENDING_EVENTS, MAX_SESSION_RESULTS, NANOS_PER_SECOND,
};
use voxtype::error::{ErrorCategory, VoxError};
use voxtype::ports::InsertionArm;
use voxtype::provider::{AudioAcceptance, ProviderId};
use voxtype::route::{
    ProviderRegistry, ProviderSuccess, ProviderTranscript, ProviderUsage, RecognitionRouteResult,
    RecognitionSuccess, RouteAttempt,
};
use voxtype::routing::{ReplayPolicy, RoutingPolicy};
use voxtype::session::{Command, CommandEffect, SessionId, StartRequest, TriggerMode};
use voxtype::wake::{wake_channel, WakeHandle};

fn id(value: &str) -> ProviderId {
    ProviderId::new(value).expect("provider ID")
}

fn controller() -> AppController {
    AppController::new(ProviderRegistry::new())
}

fn start(app: &mut AppController) -> SessionId {
    let effect = app
        .apply(Command::Start(StartRequest { mode: TriggerMode::Toggle, profile: None }))
        .expect("start");
    let CommandEffect::BeginCapture { session, .. } = effect else {
        panic!("expected capture effect");
    };
    session
}

fn failed_attempt(provider_id: &ProviderId, error: VoxError) -> RecognitionRouteResult {
    RecognitionRouteResult {
        attempts: vec![RouteAttempt {
            provider_id: provider_id.clone(),
            transport_started: false,
            audio_acceptance: AudioAcceptance::NotAccepted,
            error: Some(error.clone()),
        }],
        outcome: Err(error),
    }
}

#[test]
fn controller_emits_every_happy_path_state_in_order() {
    let mut app = controller();
    let session = start(&mut app);
    app.apply(Command::CaptureReady { session: session.clone() }).expect("capture ready");
    app.apply(Command::Stop { session: session.clone() }).expect("stop");
    app.apply(Command::TranscriptReady { session: session.clone(), text: "hello".to_owned() })
        .expect("transcript");
    app.apply(Command::InsertionComplete { session: session.clone() }).expect("insertion");
    app.finish_session(&session, "completed", "", "fcitx", 5).expect("finish");

    let events = app.drain_events();
    let states = events
        .iter()
        .filter_map(|event| match event {
            AppEvent::StateChanged { state, .. } => Some(state.as_str()),
            AppEvent::SessionFinished { .. } => None,
        })
        .collect::<Vec<_>>();
    assert_eq!(
        states,
        ["idle", "preparing", "listening", "finalizing", "inserting", "completed"]
    );
}

#[test]
fn terminal_result_cache_is_bounded_and_idempotent() {
    let mut app = controller();
    for counter in 0..=MAX_SESSION_RESULTS {
        let session = SessionId::from_counter(u64::try_from(counter).expect("counter"));
        app.finish_session(&session, "cancelled", "", "", 0).expect("finish");
    }
    let kept = (0..=MAX_SESSION_RESULTS)
        .filter(|counter| {
            let session = SessionId::from_counter(u64::try_from(*counter).expect("counter"));
            app.session_result(session.as_str()).is_some()
        })
        .count();
    assert_eq!(kept, MAX_SESSION_RESULTS);
    assert!(app.session_result(SessionId::from_counter(0).as_str()).is_none());
    let latest = SessionId::from_counter(u64::try_from(MAX_SESSION_RESULTS).expect("counter"));
    app.finish_session(&latest, "completed", "", "copy-only", 3).expect("update");
    assert_eq!(app.session_result(latest.as_str()).expect("latest").outcome, "completed");
}

#[test]
fn provider_health_blocks_after_three_retryable_failures() {
    let mut app = controller();
    let provider_id = id("provider");
    let error = VoxError::new(
        ErrorCategory::Connection,
        "provider.connection",
        "connection failed",
    )
    .with_retryable(true);
    let result = RecognitionRouteResult {
        attempts: vec![RouteAttempt {
            provider_id: provider_id.clone(),
            transport_started: false,
            audio_acceptance: AudioAcceptance::NotAccepted,
            error: Some(error),
        }],
        outcome: Err(VoxError::new(
            ErrorCategory::Connection,
            "provider.connection",
            "connection failed",
        )),
    };
    let now: u64 = 5 * NANOS_PER_SECOND;
    app.record_route_result(&result, 1_000, now);
    app.record_route_result(&result, 1_000, now);
    assert_eq!(app.provider_health_snapshot(&provider_id, now).consecutive_failures, 2);
    app.record_route_result(&result, 1_000, now);
    let health = app.provider_health_snapshot(&provider_id, now + 59 * NANOS_PER_SECOND);
    assert!(!health.route_available);
    assert_eq!(health.retry_after_seconds, Some(1));
}

#[test]
fn usage_counts_only_authoritative_token_reports() {
    let mut app = controller();
    let provider_id = id("provider");
    let result = RecognitionRouteResult {
        attempts: vec![RouteAttempt {
            provider_id: provider_id.clone(),
            transport_started: true,
            audio_acceptance: AudioAcceptance::Accepted,
            error: None,
        }],
        outcome: Ok(RecognitionSuccess {
            provider_id: provider_id.clone(),
            transcript: ProviderTranscript {
                text: "text".to_owned(),
                usage: ProviderUsage {
                    input_tokens: Some(12),
                    output_tokens: Some(3),
                    total_tokens: Some(15),
                },
            },
        }),
    };
    app.record_route_result(&result, 750, 1);
    let usage = app.provider_usage_snapshot(&provider_id);
    assert_eq!(usage.attempts, 1);
    assert_eq!(usage.requests, 1);
    assert_eq!(usage.successes, 1);
    assert_eq!(usage.audio_millis, 750);
    assert_eq!(usage.reported_tokens, 15);
}

#[test]
fn cancellation_queues_state_before_terminal_metadata() {
    let mut app = controller();
    let session = start(&mut app);
    app.apply(Command::Cancel { session }).expect("cancel");
    let events = app.drain_events();
    assert!(matches!(
        events.as_slice(),
        [
            AppEvent::StateChanged { state: idle, .. },
            AppEvent::StateChanged { state: preparing, .. },
            AppEvent::StateChanged { state: cancelled, .. },
            AppEvent::SessionFinished { outcome, .. }
        ] if idle == "idle"
            && preparing == "preparing"
            && cancelled == "cancelled"
            && outcome == "cancelled"
    ));
}

#[test]
fn provider_success_resets_retryable_failure_count() {
    let mut health = ProviderHealthState::default();
    let now: u64 = 7 * NANOS_PER_SECOND;
    let error = VoxError::new(ErrorCategory::Timeout, "provider.timeout", "timeout")
        .with_retryable(true);
    health.record_failure_at(now, &error);
    health.record_success_at(now + NANOS_PER_SECOND);
    assert_eq!(health.consecutive_failures(), 0);
    assert!(health.verified_at(now + NANOS_PER_SECOND));
}

#[test]
fn provider_usage_without_tokens_stays_unknown() {
    let mut usage = ProviderUsageSnapshot::default();
    usage.record_success(ProviderUsage::default());
    assert_eq!(usage.successes, 1);
    assert_eq!(usage.token_reports, 0);
    assert_eq!(usage.reported_tokens, 0);
}

#[test]
fn successful_attempt_type_remains_provider_neutral() {
    let output = ProviderSuccess {
        transcript: ProviderTranscript {
            text: "hello".to_owned(),
            usage: ProviderUsage::default(),
        },
        transport_started: true,
        audio_acceptance: AudioAcceptance::Accepted,
    };
    assert_eq!(output.transcript.text, "hello");
}

#[test]
fn route_policy_retains_replay_setting() {
    let policy = RoutingPolicy {
        primary: id("primary"),
        fallbacks: vec![id("fallback")],
        replay: ReplayPolicy::BufferedWithConsent,
    };
    assert_eq!(policy.replay, ReplayPolicy::BufferedWithConsent);
}

#[test]
fn insertion_arm_contains_no_transcript_or_target_identity() {
    let arm = InsertionArm { session: SessionId::from_counter(7), backend: "fcitx" };
    assert_eq!(arm.session.as_str(), "session-7");
    assert_eq!(arm.backend, "fcitx");
}

#[test]
fn repeated_wakes_coalesce_without_blocking() {
    let (wake, receiver) = wake_channel();
    wake.notify();
    wake.notify();
    assert_eq!(receiver.try_recv(), Ok(()));
    assert!(receiver.try_recv().is_err());
}

#[test]
fn a_disabled_handle_and_a_copy_of_an_enabled_one() {
    WakeHandle::disabled().notify();
    let (wake, receiver) = wake_channel();
    wake.clone().notify();
    assert_eq!(receiver.try_recv(), Ok(()));
}

#[test]
fn a_full_queue_pushes_back_until_it_is_drained() {
    let mut app = controller();
    let mut pending: usize = 1;
    while pending <= MAX_PENDING_EVENTS - 2 {
        app.apply(Command::Reset).expect("reset of an idle session");
        pending += 1;
    }
    let error = app.apply(Command::Reset).expect_err("the queue is full");
    assert!(error.is_retryable());
    assert_eq!(error.category(), ErrorCategory::Unavailable);
    assert_eq!(app.drain_events().len(), pending);
    assert!(app.drain_events().is_empty());
    app.apply(Command::Reset).expect("there is room again");
}

#[test]
fn every_applied_command_wakes_the_loop() {
    let (wake, receiver) = wake_channel();
    let mut app = AppController::with_wake(ProviderRegistry::new(), wake);
    assert!(receiver.try_recv().is_err());
    let _session = start(&mut app);
    assert_eq!(receiver.try_recv(), Ok(()));
    assert_eq!(app.state_snapshot(), ("preparing".to_owned(), "session-1".to_owned()));
    app.wake_handle().notify();
    assert_eq!(receiver.try_recv(), Ok(()));
}

#[test]
fn a_failure_is_recorded_with_its_code() {
    let mut app = controller();
    let session = start(&mut app);
    app.apply(Command::Fail {
        session: session.clone(),
        error: VoxError::new(ErrorCategory::Internal, "audio.lost", "the device is gone"),
    })
    .expect("fail");
    let result = app.session_result(session.as_str()).expect("terminal result");
    assert_eq!(result.outcome, "failed");
    assert_eq!(result.error_code, "audio.lost");
    assert_eq!(result.char_count, 0);
    assert_eq!(result.backend, "");
}

#[test]
fn only_the_third_retryable_failure_in_a_row_blocks() {
    let now: u64 = 100 * NANOS_PER_SECOND;
    let permanent = VoxError::new(ErrorCategory::Authentication, "provider.key", "no");
    let retryable = VoxError::new(ErrorCategory::Timeout, "provider.timeout", "late")
        .with_retryable(true);
    let mut health = ProviderHealthState::default();
    for _attempt in 0..5 {
        health.record_failure_at(now, &permanent);
    }
    assert!(health.is_available_at(now));
    let mut health = ProviderHealthState::default();
    health.record_failure_at(now, &retryable);
    health.record_failure_at(now, &retryable);
    assert!(health.is_available_at(now));
    health.record_failure_at(now, &retryable);
    assert!(!health.is_available_at(now));
    assert!(!health.is_available_at(now + BLOCK_NANOS - 1));
    assert!(health.is_available_at(now + BLOCK_NANOS));
    assert!(!health.verified_at(now));
}

#[test]
fn a_cancelled_attempt_counts_but_leaves_health_alone() {
    let mut app = controller();
    let provider_id = id("provider");
    let cancelled = failed_attempt(
        &provider_id,
        VoxError::new(ErrorCategory::Cancelled, "provider.cancelled", "stopped")
            .with_retryable(true),
    );
    for _attempt in 0..4 {
        app.record_route_result(&cancelled, 10, 1);
    }
    let health = app.provider_health_snapshot(&provider_id, 1);
    assert_eq!(health.consecutive_failures, 0);
    assert_eq!(health.last_error_code, None);
    assert_eq!(app.provider_usage_snapshot(&provider_id).attempts, 4);
}

#[test]
fn replacing_the_adapters_forgets_health_but_not_usage() {
    let mut app = controller();
    let provider_id = id("provider");
    let failure = failed_attempt(
        &provider_id,
        VoxError::new(ErrorCategory::Connection, "provider.connection", "gone")
            .with_retryable(true),
    );
    app.record_route_result(&failure, 10, 1);
    assert_eq!(
        app.provider_health_snapshot(&provider_id, 1).last_error_code,
        Some("provider.connection")
    );
    app.replace_registry(ProviderRegistry::new());
    assert_eq!(app.provider_health_snapshot(&provider_id, 1).last_error_code, None);
    assert_eq!(app.provider_usage_snapshot(&provider_id).attempts, 1);
}

#[test]
fn a_route_without_registered_adapters_cannot_be_planned() {
    let app = controller();
    let policy = RoutingPolicy {
        primary: id("primary"),
        fallbacks: Vec::new(),
        replay: ReplayPolicy::Never,
    };
    let error = app.plan_route(&policy, 1).expect_err("no adapters");
    assert_eq!(error.code(), "routing.no_provider");
}
