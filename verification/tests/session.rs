//! Core types: audio, cancellation, identifiers, routing and the session machine.

use voxtype::audio::{AudioChunk, AudioFormat, SampleFormat};
use voxtype::cancellation::CancellationToken;
use voxtype::error::{ErrorCategory, VoxError};
use voxtype::provider::{AudioAcceptance, ProviderId};
use voxtype::routing::{
    may_fallback, FallbackReason, OrderedRouter, ProviderHealth, ProviderRouter, ReplayPolicy,
    RoutingPolicy,
};
use voxtype::session::{
    Command, CommandEffect, SessionId, SessionMachine, SessionState, StartRequest, TriggerMode,
};
use voxtype::table::Table;

fn id(value: &str) -> ProviderId {
    ProviderId::new(value).expect("test provider ID must be valid")
}

fn start(machine: &mut SessionMachine) -> SessionId {
    let effect = machine
        .apply(Command::Start(StartRequest { mode: TriggerMode::Toggle, profile: None }))
        .expect("start must be accepted");
    let CommandEffect::BeginCapture { session, .. } = effect else {
        panic!("unexpected start effect");
    };
    session
}

fn listening() -> (SessionMachine, SessionId) {
    let mut machine = SessionMachine::default();
    let session = start(&mut machine);
    machine
        .apply(Command::CaptureReady { session: session.clone() })
        .expect("capture becomes ready");
    (machine, session)
}

#[test]
fn reports_twenty_millisecond_pcm_frame() {
    let chunk = AudioChunk {
        sequence: 0,
        captured_at_micros: 0,
        format: AudioFormat::pcm_16khz_mono(),
        samples: vec![0; 640],
    };
    assert_eq!(chunk.duration_micros(), Some(20_000));
}

#[test]
fn playing_time_counts_whole_frames_only() {
    let mut chunk = AudioChunk {
        sequence: 0,
        captured_at_micros: 0,
        format: AudioFormat {
            sample_rate_hz: 48_000,
            channels: 2,
            sample_format: SampleFormat::F32Le,
        },
        samples: vec![0; 8 * 480 + 7],
    };
    assert_eq!(chunk.duration_micros(), Some(10_000));
    chunk.format.sample_rate_hz = 0;
    assert_eq!(chunk.duration_micros(), None);
}

#[test]
fn cancellation_is_shared_by_clones() {
    let token = CancellationToken::new();
    let clone = token.clone();
    assert!(!clone.is_cancelled());
    token.cancel();
    assert!(clone.is_cancelled());
}

#[test]
fn validates_provider_ids() {
    assert!(ProviderId::new("doubao-unofficial").is_ok());
    assert!(ProviderId::new("bad_provider").is_err());
    assert!(ProviderId::new("").is_err());
}

#[test]
fn provider_ids_are_bounded() {
    assert!(ProviderId::new(&"a".repeat(64)).is_ok());
    let error = ProviderId::new(&"a".repeat(65)).expect_err("65 characters");
    assert_eq!(error.category(), ErrorCategory::InvalidArgument);
    assert_eq!(error.code(), "provider.invalid_id");
    assert!(ProviderId::new("Upper").is_err());
    assert_eq!(id("a-1").as_str(), "a-1");
}

#[test]
fn errors_tell_their_parts() {
    let error = VoxError::new(ErrorCategory::Timeout, "provider.timeout", "too late");
    assert!(!error.is_retryable());
    let error = error.with_retryable(true);
    assert!(error.is_retryable());
    assert_eq!(error.category(), ErrorCategory::Timeout);
    assert_eq!(error.message(), "too late");
    assert_eq!(error.to_text(), "provider.timeout: too late");
}

#[test]
fn skips_unhealthy_provider_in_order() {
    let policy = RoutingPolicy {
        primary: id("primary"),
        fallbacks: vec![id("backup")],
        replay: ReplayPolicy::Never,
    };
    let mut health: Table<ProviderHealth> = Table::new();
    health.set(
        "primary".to_owned(),
        ProviderHealth { available: false, consecutive_failures: 3 },
    );
    let plan = OrderedRouter.plan(&policy, &health).expect("backup is healthy");
    assert_eq!(plan.providers, vec![id("backup")]);
}

#[test]
fn plans_the_whole_route_and_refuses_an_empty_one() {
    let policy = RoutingPolicy {
        primary: id("primary"),
        fallbacks: vec![id("backup"), id("last")],
        replay: ReplayPolicy::BufferedWithConsent,
    };
    let mut health: Table<ProviderHealth> = Table::new();
    let plan = OrderedRouter.plan(&policy, &health).expect("nothing is known to be down");
    assert_eq!(plan.providers, vec![id("primary"), id("backup"), id("last")]);
    assert_eq!(plan.replay, ReplayPolicy::BufferedWithConsent);
    for name in ["primary", "backup", "last"] {
        health.set(
            name.to_owned(),
            ProviderHealth { available: false, consecutive_failures: 3 },
        );
    }
    let error = OrderedRouter.plan(&policy, &health).expect_err("nobody is left");
    assert_eq!(error.code(), "routing.no_provider");
    assert_eq!(error.category(), ErrorCategory::Unavailable);
    assert!(error.is_retryable());
}

#[test]
fn blocks_cloud_replay_without_consent() {
    assert!(!may_fallback(
        FallbackReason::Unavailable,
        AudioAcceptance::Accepted,
        ReplayPolicy::Never
    ));
    assert!(may_fallback(
        FallbackReason::Unavailable,
        AudioAcceptance::Accepted,
        ReplayPolicy::BufferedWithConsent
    ));
    assert!(!may_fallback(
        FallbackReason::Connection,
        AudioAcceptance::PossiblyAccepted,
        ReplayPolicy::BeforeAudioAccepted
    ));
    assert!(may_fallback(
        FallbackReason::Connection,
        AudioAcceptance::NotAccepted,
        ReplayPolicy::BeforeAudioAccepted
    ));
}

#[test]
fn completes_happy_path() {
    let (mut machine, session) = listening();
    machine
        .apply(Command::Stop { session: session.clone() })
        .expect("stop is accepted");
    let effect = machine
        .apply(Command::TranscriptReady {
            session: session.clone(),
            text: "你好".to_owned(),
        })
        .expect("final transcript is accepted");
    assert_eq!(
        effect,
        CommandEffect::InsertText { session: session.clone(), text: "你好".to_owned() }
    );
    machine
        .apply(Command::InsertionComplete { session: session.clone() })
        .expect("insertion completes");
    assert_eq!(machine.state().name(), "completed");
    machine.apply(Command::Reset).expect("terminal state resets");
    assert_eq!(machine.state(), &SessionState::Idle);
}

#[test]
fn rejects_parallel_session() {
    let mut machine = SessionMachine::default();
    let _session = start(&mut machine);
    let error = machine
        .apply(Command::Start(StartRequest { mode: TriggerMode::Toggle, profile: None }))
        .expect_err("parallel start must fail");
    assert_eq!(error.category(), ErrorCategory::InvalidState);
}

#[test]
fn cancel_is_terminal_and_never_inserts() {
    let mut machine = SessionMachine::default();
    let session = start(&mut machine);
    let effect = machine
        .apply(Command::Cancel { session: session.clone() })
        .expect("cancel is accepted");
    assert_eq!(effect, CommandEffect::CancelWork { session });
    assert_eq!(machine.state().name(), "cancelled");
}

#[test]
fn late_transcript_after_cancel_is_rejected() {
    let (mut machine, session) = listening();
    machine
        .apply(Command::Stop { session: session.clone() })
        .expect("stop is accepted");
    machine
        .apply(Command::Cancel { session: session.clone() })
        .expect("cancel is accepted while finalizing");
    let error = machine
        .apply(Command::TranscriptReady { session, text: "stale result".to_owned() })
        .expect_err("cancelled work must not insert a late transcript");
    assert_eq!(error.category(), ErrorCategory::InvalidState);
    assert_eq!(machine.state().name(), "cancelled");
}

#[test]
fn old_session_result_cannot_complete_a_new_session() {
    let mut machine = SessionMachine::default();
    let first = start(&mut machine);
    machine
        .apply(Command::Cancel { session: first.clone() })
        .expect("first session is cancelled");

    let second = start(&mut machine);
    machine
        .apply(Command::CaptureReady { session: second.clone() })
        .expect("second capture becomes ready");
    machine
        .apply(Command::Stop { session: second.clone() })
        .expect("second stop is accepted");

    let error = machine
        .apply(Command::TranscriptReady { session: first, text: "stale result".to_owned() })
        .expect_err("a previous session cannot complete the active one");
    assert_eq!(error.category(), ErrorCategory::InvalidArgument);
    assert_eq!(machine.state().session(), Some(&second));

    let effect = machine
        .apply(Command::TranscriptReady {
            session: second.clone(),
            text: "current result".to_owned(),
        })
        .expect("current session transcript is accepted");
    assert_eq!(
        effect,
        CommandEffect::InsertText { session: second, text: "current result".to_owned() }
    );
}

#[test]
fn terminal_session_allows_next_start() {
    let mut machine = SessionMachine::default();
    let first = start(&mut machine);
    machine
        .apply(Command::Cancel { session: first })
        .expect("cancel is accepted");
    let second = start(&mut machine);
    assert_eq!(second.as_str(), "session-2");
}

#[test]
fn blank_transcript_is_refused_and_leaves_the_session_waiting() {
    let (mut machine, session) = listening();
    machine.apply(Command::Stop { session: session.clone() }).expect("stop");
    let error = machine
        .apply(Command::TranscriptReady { session: session.clone(), text: " \u{3000}\n".to_owned() })
        .expect_err("nothing was said");
    assert_eq!(error.code(), "transcript.empty");
    assert_eq!(error.category(), ErrorCategory::Protocol);
    assert_eq!(machine.state().name(), "finalizing");
}

#[test]
fn every_command_is_refused_outside_its_state() {
    let mut machine = SessionMachine::default();
    let stranger = SessionId::from_counter(9);
    for command in [
        Command::Stop { session: stranger.clone() },
        Command::Cancel { session: stranger.clone() },
        Command::CaptureReady { session: stranger.clone() },
        Command::CaptureStopped { session: stranger.clone() },
        Command::NoSpeech { session: stranger.clone() },
        Command::InsertionComplete { session: stranger.clone() },
        Command::Fail {
            session: stranger.clone(),
            error: VoxError::new(ErrorCategory::Internal, "x", "y"),
        },
    ] {
        let error = machine.apply(command).expect_err("nothing runs");
        assert_eq!(error.code(), "session.invalid_state");
        assert_eq!(machine.state().name(), "idle");
    }
    let session = start(&mut machine);
    let error = machine
        .apply(Command::CaptureReady { session: stranger })
        .expect_err("another session");
    assert_eq!(error.code(), "session.id_mismatch");
    let error = machine.apply(Command::Reset).expect_err("a session runs");
    assert_eq!(error.message(), "cannot reset an active session");
    machine
        .apply(Command::Fail {
            session,
            error: VoxError::new(ErrorCategory::Internal, "x", "y"),
        })
        .expect("a running session may fail");
    assert_eq!(machine.state().name(), "failed");
}

#[test]
fn a_recording_that_stops_by_itself_is_finalized_and_may_hold_no_speech() {
    let (mut machine, session) = listening();
    machine
        .apply(Command::CaptureStopped { session: session.clone() })
        .expect("capture ended");
    assert_eq!(machine.state().name(), "finalizing");
    machine.apply(Command::NoSpeech { session }).expect("no speech");
    assert_eq!(machine.state().name(), "completed");
}
