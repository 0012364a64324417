//! The configuration, the provider adapters and the daemon.

use std::sync::{Arc, Mutex, PoisonError};

use voxtype::adapters::{
    build_provider_registry, check_not_cancelled, command_may_run, command_output_failed,
    command_unstarted, command_wait_failed, ensure_not_cancelled, finish_command_output,
    provider_ids, recorded_pcm_capabilities, success_after_audio, success_without_transport,
    CommandExit, MockAdapter, MAX_COMMAND_OUTPUT_BYTES,
};
use voxtype::cancellation::CancellationToken;
use voxtype::config::{
    config_io, default_language, lookup_arguments, lookup_secret, parse_failure, secret_state,
    store_arguments, store_failure, AudioConfig, Config, DesktopConfig, InsertionBackend,
    ProfileConfig, ProviderConfig, ProviderQuotaConfig, ReplaySetting, SecretLookup,
    DEFAULT_CONFIG, DEFAULT_TIMEOUT_SECONDS,
};
use voxtype::controller::AppEvent;
use voxtype::curl::BoundedRead;
use voxtype::daemon::{
    analysis_failed, check_context_grammar, insertion_mode, map_error, profile_is_demo_only,
    recording_deadline_reached, render_outcome, trim_failed, worker_disconnected, worker_failed,
    DaemonError, Hearing, RecognitionJob, SharedCapture, SharedInsertion, ToggleStep,
    VoxTypeDaemon,
};
use voxtype::error::{ErrorCategory, VoxError};
use voxtype::fcitx::{FcitxContext, FcitxTarget};
use voxtype::json::{parse_json, Json};
use voxtype::ports::{
    CaptureAdapter, CaptureFrameMetrics, CaptureSession, CapturedAudio, InsertionAdapter,
    InsertionArm, InsertionMode, InsertionOutcome,
};
use voxtype::presentation::{
    cleanup_overlay_body, context_document, no_speech_guidance, Notice,
};
use voxtype::provider::{AudioAcceptance, ProviderId};
use voxtype::route::{
    run_recognition_route, ProviderRegistry, ProviderUsage, RecognitionInput, SharedAdapter,
};
use voxtype::routing::ReplayPolicy;
use voxtype::session::{Command, CommandEffect, SessionId, StartRequest, TriggerMode};
use voxtype::table::Table;
use voxtype::vad::VadResult;
use voxtype::wake::{wake_channel, WakeHandle};

const SECOND: u64 = 1_000_000_000;

fn text_of(table: &toml::Table, name: &str) -> Option<String> {
    table.get(name).and_then(|value| value.as_str()).map(str::to_owned)
}

fn number_of(table: &toml::Table, name: &str) -> Option<u64> {
    table
        .get(name)
        .and_then(|value| value.as_integer())
        .map(|number| u64::try_from(number).expect("a natural number"))
}

fn truth_of(table: &toml::Table, name: &str) -> Option<bool> {
    table.get(name).and_then(|value| value.as_bool())
}

fn texts_of(table: &toml::Table, name: &str) -> Vec<String> {
    match table.get(name).and_then(|value| value.as_array()) {
        Some(items) => {
            items.iter().map(|item| item.as_str().expect("text").to_owned()).collect()
        }
        None => Vec::new(),
    }
}

fn tables_of(table: &toml::Table, name: &str) -> Vec<(String, toml::Table)> {
    match table.get(name).and_then(|value| value.as_table()) {
        Some(rows) => rows
            .iter()
            .map(|(key, value)| (key.clone(), value.as_table().expect("table").clone()))
            .collect(),
        None => Vec::new(),
    }
}

fn provider_of(table: &toml::Table) -> ProviderConfig {
    let text = |name: &str| text_of(table, name).expect("text");
    let timeout_seconds = number_of(table, "timeout_seconds").unwrap_or(DEFAULT_TIMEOUT_SECONDS);
    match text("kind").as_str() {
        "mock" => ProviderConfig::Mock { text: text("text") },
        "command" => ProviderConfig::Command {
            program: text("program"),
            args: texts_of(table, "args"),
            timeout_seconds,
        },
        other => panic!("unexpected kind {other}"),
    }
}

fn parse_config(text: &str) -> Config {
    let root = toml::from_str::<toml::Table>(text).expect("config parses");
    let desktop = root["desktop"].as_table().expect("desktop").clone();
    let audio = root["audio"].as_table().expect("audio").clone();
    let mut config = Config {
        schema_version: u32::try_from(number_of(&root, "schema_version").expect("schema"))
            .expect("schema"),
        default_profile: text_of(&root, "default_profile").expect("default profile"),
        desktop: DesktopConfig::default(),
        audio: AudioConfig::default(),
        profiles: Table::new(),
        providers: Table::new(),
        quotas: Table::new(),
    };
    if let Some(value) = truth_of(&desktop, "restore_clipboard") {
        config.desktop.restore_clipboard = value;
    }
    if let Some(value) = truth_of(&desktop, "retain_recordings") {
        config.desktop.retain_recordings = value;
    }
    if let Some(value) = truth_of(&desktop, "transcript_history_enabled") {
        config.desktop.transcript_history_enabled = value;
    }
    if let Some(value) = truth_of(&audio, "vad_enabled") {
        config.audio.vad_enabled = value;
    }
    if let Some(value) = number_of(&audio, "minimum_duration_millis") {
        config.audio.minimum_duration_millis = value;
    }
    if let Some(value) = number_of(&audio, "maximum_duration_seconds") {
        config.audio.maximum_duration_seconds = value;
    }
    for (name, row) in tables_of(&root, "profiles") {
        config.profiles.set(
            name,
            ProfileConfig {
                primary: text_of(&row, "primary").expect("primary"),
                fallbacks: texts_of(&row, "fallbacks"),
                language: text_of(&row, "language").unwrap_or_else(default_language),
                replay: ReplaySetting::default(),
            },
        );
    }
    for (name, row) in tables_of(&root, "providers") {
        config.providers.set(name, provider_of(&row));
    }
    config
}

fn with_primary(config: &mut Config, primary: &str) {
    config.profiles.set(
        "test".to_owned(),
        ProfileConfig {
            primary: primary.to_owned(),
            fallbacks: Vec::new(),
            language: "zh".to_owned(),
            replay: ReplaySetting::Never,
        },
    );
}

#[test]
fn parses_default_configuration() {
    let config = parse_config(DEFAULT_CONFIG);
    config.validate().expect("default config validates");
    assert!(matches!(config.providers.get("mock"), Some(ProviderConfig::Mock { .. })));
}

#[test]
fn rejects_missing_provider_reference() {
    let mut config = parse_config(DEFAULT_CONFIG);
    with_primary(&mut config, "missing");
    assert!(config.validate().is_err());
}

#[test]
fn validates_recording_safety_limit() {
    let mut config = parse_config(DEFAULT_CONFIG);
    assert_eq!(config.audio.maximum_duration_seconds, 120);
    config.audio.maximum_duration_seconds = 4;
    assert!(config.validate().is_err());
    config.audio.maximum_duration_seconds = 3_601;
    assert!(config.validate().is_err());
    config.audio.maximum_duration_seconds = 3_600;
    assert!(config.validate().is_ok());
}

#[test]
fn transcript_history_is_private_by_default() {
    let config = parse_config(DEFAULT_CONFIG);
    assert!(!config.desktop.transcript_history_enabled);
    assert!(!DesktopConfig::default().transcript_history_enabled);
}

#[test]
fn rejects_relative_command_provider_program() {
    let mut config = parse_config(DEFAULT_CONFIG);
    config.providers.set(
        "local".to_owned(),
        ProviderConfig::Command {
            program: "whisper-wrapper".to_owned(),
            args: Vec::new(),
            timeout_seconds: 30,
        },
    );
    with_primary(&mut config, "local");
    assert!(config.validate().is_err());
}

#[test]
fn rejects_remote_plain_http_provider_endpoint() {
    let mut config = parse_config(DEFAULT_CONFIG);
    config.providers.set(
        "cloud".to_owned(),
        ProviderConfig::OpenaiCompatible {
            endpoint: "http://example.com/v1/audio/transcriptions".to_owned(),
            model: "test".to_owned(),
            secret: "test".to_owned(),
            timeout_seconds: 30,
        },
    );
    with_primary(&mut config, "cloud");
    assert!(config.validate().is_err());
}

#[test]
fn validates_positive_provider_quotas() {
    let mut config = parse_config(DEFAULT_CONFIG);
    let mut quota = ProviderQuotaConfig {
        request_limit: Some(100),
        audio_seconds_limit: Some(3_600),
        token_limit: Some(10_000),
    };
    config.quotas.set("mock".to_owned(), quota);
    config.validate().expect("positive quota validates");
    quota.token_limit = Some(0);
    config.quotas.set("mock".to_owned(), quota);
    assert!(config.validate().is_err());
}

#[test]
fn each_broken_setting_is_refused() {
    let mut config = parse_config(DEFAULT_CONFIG);
    config.schema_version = 2;
    assert!(config.validate().is_err());
    let mut config = parse_config(DEFAULT_CONFIG);
    config.default_profile = "none".to_owned();
    assert!(config.validate().is_err());
    let mut config = parse_config(DEFAULT_CONFIG);
    config.quotas.set("absent".to_owned(), ProviderQuotaConfig::default());
    assert!(config.validate().is_err());
    let config = parse_config(DEFAULT_CONFIG);
    assert_eq!(config.profile(None).map(|row| row.0), Some("test"));
    assert!(config.profile(Some("none")).is_none());
    assert_eq!(ReplaySetting::BufferedWithConsent.policy(), ReplayPolicy::BufferedWithConsent);
}

#[test]
fn secrets_are_looked_up_by_name() {
    assert!(lookup_arguments("cloud").contains(&"cloud".to_owned()));
    assert!(store_arguments("cloud").contains(&"cloud".to_owned()));
    let secret =
        lookup_secret("cloud", SecretLookup::Found(b"value\n".to_vec())).ok().expect("secret");
    assert_eq!(secret.expose(), "value");
    assert!(lookup_secret("cloud", SecretLookup::Missing).is_err());
    assert!(lookup_secret("cloud", SecretLookup::Unstarted("no tool".to_owned())).is_err());
    assert!(lookup_secret("cloud", SecretLookup::Found(Vec::new())).is_err());
    assert!(lookup_secret("cloud", SecretLookup::Found(vec![0xff])).is_err());
    assert!(store_failure(b"denied").message().contains("denied"));
    assert_ne!(secret_state(Some(true)), secret_state(Some(false)));
    assert_ne!(secret_state(None), secret_state(Some(true)));
    assert!(parse_failure("/c.toml", "bad").message().contains("/c.toml"));
    assert!(config_io("denied").message().contains("denied"));
}

fn mock(id: &str, text: &str) -> SharedAdapter {
    SharedAdapter {
        adapter: Arc::new(Box::new(MockAdapter {
            id: ProviderId::new(id).expect("ID"),
            text: text.to_owned(),
        })),
    }
}

#[test]
fn registry_composes_configured_providers() {
    let config = parse_config(
        r#"schema_version = 1
default_profile = "test"
[desktop]
[audio]
[profiles.test]
primary = "mock"
[providers.mock]
kind = "mock"
text = "test"
[providers.local]
kind = "command"
program = "/bin/true"
"#,
    );
    let ids = provider_ids(&config).expect("ids");
    let adapters = ids.iter().map(|id| mock(id.as_str(), "test")).collect::<Vec<_>>();
    assert_eq!(adapters.len(), config.providers.len());
    let registry = build_provider_registry(&config, &adapters).expect("registry");
    assert!(registry.contains(&ProviderId::new("mock").expect("mock ID")));
    assert!(registry.contains(&ProviderId::new("local").expect("local ID")));
    assert_eq!(registry.ids(), ["local", "mock"]);
}

#[test]
fn an_improper_provider_name_is_a_configuration_error() {
    let mut config = parse_config(INTEGRATION_CONFIG);
    config
        .providers
        .set("Not Proper".to_owned(), ProviderConfig::Mock { text: "test".to_owned() });
    let error = provider_ids(&config).expect_err("improper name");
    assert_eq!(error.category(), ErrorCategory::Configuration);
    assert_eq!(error.code(), "provider.invalid_id");
    let adapters = vec![mock("mock", "test"); config.providers.len()];
    let error = build_provider_registry(&config, &adapters).err().expect("improper name");
    assert_eq!(error.category(), ErrorCategory::Configuration);
}

#[test]
fn command_provider_returns_stdout() {
    let exit = CommandExit { success: true, status: "exit status: 0".to_owned() };
    let mut read = BoundedRead::new();
    read.retain("本地文本".as_bytes(), MAX_COMMAND_OUTPUT_BYTES);
    let text = finish_command_output(&exit, read).expect("command output");
    let output = success_after_audio(text, ProviderUsage::default());
    assert_eq!(output.transcript.text, "本地文本");
}

#[test]
fn command_provider_output_is_bounded() {
    let exit = CommandExit { success: true, status: "exit status: 0".to_owned() };
    let mut read = BoundedRead::new();
    read.retain(&vec![0_u8; 1_048_577], MAX_COMMAND_OUTPUT_BYTES);
    let error = finish_command_output(&exit, read).expect_err("oversized output");
    assert_eq!(error.error.code(), "provider.command_output_too_large");
}

#[test]
fn a_command_ends_at_its_deadline_or_when_cancelled() {
    assert!(command_may_run(1, 2, false).is_ok());
    let error = command_may_run(2, 2, false).expect_err("late");
    assert_eq!(error.error.code(), "provider.command_timeout");
    let error = command_may_run(1, 2, true).expect_err("cancelled");
    assert_eq!(error.error.category(), ErrorCategory::Cancelled);
    let exit = CommandExit { success: false, status: "exit status: 3".to_owned() };
    let error = finish_command_output(&exit, BoundedRead::new()).expect_err("failed");
    assert!(error.error.message().contains("exit status: 3"));
    let mut read = BoundedRead::new();
    read.retain(&[0xff], MAX_COMMAND_OUTPUT_BYTES);
    let exit = CommandExit { success: true, status: String::new() };
    assert!(finish_command_output(&exit, read).is_err());
    assert!(!command_unstarted("x").transport_started);
    assert!(command_wait_failed("x").error.message().contains('x'));
    let failure = command_output_failed(ErrorCategory::Internal, "x");
    assert_eq!(failure.error.category(), ErrorCategory::Internal);
}

#[test]
fn cancelled_work_is_refused_before_it_starts() {
    assert!(check_not_cancelled(false).is_ok());
    let token = CancellationToken::new();
    assert!(ensure_not_cancelled(&token).is_ok());
    token.cancel();
    let error = ensure_not_cancelled(&token).expect_err("cancelled");
    assert!(!error.transport_started);
    let plain = success_without_transport("x".to_owned(), ProviderUsage::default());
    assert_eq!(plain.audio_acceptance, AudioAcceptance::NotAccepted);
    assert!(!recorded_pcm_capabilities().streaming);
}

struct FakeCaptureAdapter;

struct FakeCaptureSession;

impl CaptureAdapter for FakeCaptureAdapter {
    fn start(&self, _device: Option<&str>) -> Result<Box<dyn CaptureSession>, VoxError> {
        Ok(Box::new(FakeCaptureSession))
    }
}

impl CaptureSession for FakeCaptureSession {
    fn stop(self: Box<Self>) -> Result<CapturedAudio, VoxError> {
        Ok(CapturedAudio {
            path: "/run/voxtype/fake.pcm".to_owned(),
            bytes: 32_000,
            duration_millis: 1_000,
            backend: "fake-capture",
        })
    }

    fn cancel(self: Box<Self>) {}

    fn drain_metrics(&mut self) -> Vec<CaptureFrameMetrics> {
        vec![CaptureFrameMetrics { frame: 0, rms: 2_000, peak: 3_000, clipped_samples: 32, samples: 320 }]
    }
}

struct BrokenCaptureAdapter;

impl CaptureAdapter for BrokenCaptureAdapter {
    fn start(&self, _device: Option<&str>) -> Result<Box<dyn CaptureSession>, VoxError> {
        Err(VoxError::new(ErrorCategory::Unavailable, "test.capture", "no microphone"))
    }
}

#[derive(Clone, Default)]
struct FakeInsertionAdapter {
    committed: Arc<Mutex<Vec<String>>>,
}

impl FakeInsertionAdapter {
    fn committed(&self) -> Vec<String> {
        self.committed.lock().unwrap_or_else(PoisonError::into_inner).clone()
    }
}

impl InsertionAdapter for FakeInsertionAdapter {
    fn arm(&self, _mode: InsertionMode, session: &SessionId) -> Result<InsertionArm, VoxError> {
        Ok(InsertionArm { session: session.clone(), backend: "fake-insertion" })
    }

    fn commit(&self, arm: &InsertionArm, text: &str) -> Result<InsertionOutcome, VoxError> {
        if arm.backend != "fake-insertion" {
            return Err(VoxError::new(
                ErrorCategory::InvalidState,
                "test.insertion_arm",
                "unexpected fake insertion arm",
            ));
        }
        self.committed
            .lock()
            .unwrap_or_else(PoisonError::into_inner)
            .push(text.to_owned());
        Ok(InsertionOutcome { backend: "fake-insertion", clipboard_restored: true })
    }

    fn cancel(&self, _arm: &InsertionArm) {}

    fn insert_diagnostic(&self, text: &str) -> Result<InsertionOutcome, VoxError> {
        self.committed
            .lock()
            .unwrap_or_else(PoisonError::into_inner)
            .push(text.to_owned());
        Ok(InsertionOutcome { backend: "fake-insertion", clipboard_restored: true })
    }
}

const INTEGRATION_CONFIG: &str = r#"schema_version = 1
default_profile = "test"
[desktop]
[audio]
vad_enabled = false
minimum_duration_millis = 50
[profiles.test]
primary = "mock"
[providers.mock]
kind = "mock"
text = "完整链路文本"
"#;

const EVENT_CONFIG: &str = r#"schema_version = 1
default_profile = "test"
[desktop]
[audio]
[profiles.test]
primary = "mock"
[providers.mock]
kind = "mock"
text = "test"
"#;

fn registry_of(config: &Config) -> ProviderRegistry {
    let mut adapters = Vec::new();
    for at in 0..config.providers.len() {
        if let ProviderConfig::Mock { text } = config.providers.value_at(at) {
            adapters.push(mock(config.providers.name_at(at), text));
        }
    }
    assert_eq!(adapters.len(), config.providers.len());
    build_provider_registry(config, &adapters).expect("provider registry")
}

fn daemon_of(
    text: &str,
    wake: WakeHandle,
    capture: Box<dyn CaptureAdapter>,
    insertion: FakeInsertionAdapter,
) -> VoxTypeDaemon {
    let config = parse_config(text);
    let registry = registry_of(&config);
    VoxTypeDaemon::compose(
        config,
        registry,
        wake,
        SharedCapture { adapter: Arc::new(capture) },
        SharedInsertion { adapter: Arc::new(Box::new(insertion)) },
    )
    .ok()
    .expect("compose daemon")
}

fn event_test_daemon() -> VoxTypeDaemon {
    daemon_of(
        EVENT_CONFIG,
        WakeHandle::disabled(),
        Box::new(FakeCaptureAdapter),
        FakeInsertionAdapter::default(),
    )
}

/// Brings a recorded session up to its recognition.
fn recognize(daemon: &mut VoxTypeDaemon, now: u64) -> (RecognitionJob, Result<bool, DaemonError>) {
    let session = daemon.active_session();
    let stopped = daemon.stop(&session).expect("stop");
    assert!(!daemon.is_recording());
    let Hearing::Speech { result, keep: _, audio_millis } =
        daemon.hear(&stopped.session, &stopped.audio, &[]).expect("hearing")
    else {
        panic!("speech expected");
    };
    assert_eq!(audio_millis, 1_000);
    let plan = daemon.plan_recognition(&stopped.session, now).expect("plan");
    let accepted = daemon.recognition_started(RecognitionJob {
        session: stopped.session.clone(),
        recording_path: stopped.audio.path.clone(),
        vad_result: result,
        audio_millis,
    });
    assert!(accepted.contains("result=processing"));
    assert!(daemon.is_recognizing());
    let received = run_recognition_route(
        &daemon.registry(),
        &plan.route,
        RecognitionInput { pcm_path: &stopped.audio.path, language: &plan.language },
        &CancellationToken::new(),
    );
    daemon.wake_handle().notify();
    daemon.poll_recognition(received, now).expect("a result for the waiting session")
}

#[test]
fn fake_capture_provider_and_insertion_complete_end_to_end() {
    let (wake, wake_receiver) = wake_channel();
    let insertion = FakeInsertionAdapter::default();
    let mut daemon =
        daemon_of(INTEGRATION_CONFIG, wake, Box::new(FakeCaptureAdapter), insertion.clone());

    let session = daemon.start("test", SECOND).expect("start");
    assert_eq!(daemon.status(), "listening");
    let (job, outcome) = recognize(&mut daemon, 2 * SECOND);
    assert!(outcome.expect("recognition finished"));
    assert_eq!(job.recording_path, "/run/voxtype/fake.pcm");
    assert!(daemon.removes_recordings());
    assert!(wake_receiver.try_recv().is_ok());

    assert_eq!(daemon.status(), "completed");
    assert_eq!(insertion.committed(), vec!["完整链路文本"]);
    let terminal = daemon.session_result(&session).expect("terminal result query");
    assert!(terminal.0);
    assert_eq!(terminal.1, "completed");
    assert_eq!(terminal.3, "fake-insertion");
    assert_eq!(terminal.4, 6);
}

fn begin(daemon: &mut VoxTypeDaemon) -> SessionId {
    let effect = daemon
        .apply_command(Command::Start(StartRequest { mode: TriggerMode::Toggle, profile: None }))
        .expect("start");
    let CommandEffect::BeginCapture { session, .. } = effect else {
        panic!("expected capture effect");
    };
    session
}

#[test]
fn daemon_emits_every_happy_path_state_in_order() {
    let mut daemon = event_test_daemon();
    let session = begin(&mut daemon);
    daemon
        .apply_command(Command::CaptureReady { session: session.clone() })
        .expect("capture ready");
    daemon.apply_command(Command::Stop { session: session.clone() }).expect("stop");
    daemon
        .apply_command(Command::TranscriptReady {
            session: session.clone(),
            text: "hello".to_owned(),
        })
        .expect("transcript");
    daemon
        .apply_command(Command::InsertionComplete { session: session.clone() })
        .expect("insertion");
    let inserted = InsertionOutcome { backend: "fcitx", clipboard_restored: false };
    daemon.record_completion(&session, "mock", "hello", &inserted, &None).expect("finish");

    let events = daemon.drain_events();
    let states = events
        .iter()
        .filter_map(|event| match event {
            AppEvent::StateChanged { state, .. } => Some(state.as_str()),
            AppEvent::SessionFinished { .. } => None,
        })
        .collect::<Vec<_>>();
    assert_eq!(
        states,
        ["idle", "preparing", "listening", "finalizing", "inserting", "completed"]
    );
    assert!(matches!(
        events.last(),
        Some(AppEvent::SessionFinished { outcome, backend, char_count: 5, .. })
            if outcome == "completed" && backend == "fcitx"
    ));
}

#[test]
fn cancellation_emits_terminal_metadata_after_state_change() {
    let mut daemon = event_test_daemon();
    let session = begin(&mut daemon);
    daemon.apply_command(Command::Cancel { session }).expect("cancel");
    let events = daemon.drain_events();
    assert!(matches!(
        events.as_slice(),
        [
            AppEvent::StateChanged { state: idle, .. },
            AppEvent::StateChanged { state: preparing, .. },
            AppEvent::StateChanged { state: cancelled, .. },
            AppEvent::SessionFinished { outcome, .. }
        ] if idle == "idle"
            && preparing == "preparing"
            && cancelled == "cancelled"
            && outcome == "cancelled"
    ));
}

#[test]
fn terminal_result_survives_signal_queue_drain() {
    let mut daemon = event_test_daemon();
    let session = SessionId::from_counter(42);
    let inserted = InsertionOutcome { backend: "fcitx", clipboard_restored: false };
    daemon
        .record_completion(&session, "mock", "twelve chars", &inserted, &None)
        .expect("finish");
    let _events = daemon.drain_events();

    let result = daemon.session_result(session.as_str()).expect("session result query");
    assert_eq!(
        result,
        (true, "completed".to_owned(), String::new(), "fcitx".to_owned(), 12)
    );
}

#[test]
fn provider_status_never_calls_an_unverified_route_healthy() {
    let daemon = event_test_daemon();
    let initial =
        parse_json(daemon.provider_status(SECOND).as_bytes()).expect("provider status json");
    assert_eq!(initial.get("schema").and_then(Json::as_unsigned), Some(1));
    let provider = initial
        .get("providers")
        .and_then(|providers| providers.get("mock"))
        .expect("mock provider");
    assert_eq!(provider.get("route_available").and_then(Json::as_bool), Some(true));
    assert_eq!(provider.get("verified").and_then(Json::as_bool), Some(false));
    assert_eq!(
        provider.get("verification_ttl_seconds").and_then(Json::as_unsigned),
        Some(900)
    );
}

#[test]
fn recording_deadline_is_inclusive() {
    assert!(!recording_deadline_reached(119 * SECOND, 120));
    assert!(recording_deadline_reached(120 * SECOND, 120));
}

#[test]
fn idle_wait_is_event_driven_and_recording_keeps_short_maintenance() {
    let mut daemon = event_test_daemon();
    assert_eq!(daemon.maintenance_wait(SECOND), 60 * SECOND);

    daemon.start("test", SECOND).expect("start");
    assert!(daemon.maintenance_wait(SECOND) <= SECOND / 10);
}

#[test]
fn no_speech_guidance_uses_real_vad_metrics() {
    let result = |peak, noise_floor, threshold, voiced_frames| VadResult {
        speech_detected: false,
        voiced_frames,
        total_frames: 20,
        peak,
        average_rms: noise_floor,
        noise_floor,
        adaptive_threshold: threshold,
        speech_start_frame: None,
        speech_end_frame: None,
        trim_start_frame: None,
        trim_end_frame: None,
    };

    assert_eq!(no_speech_guidance(&result(32_100, 100, 300, 0), 300, 2).0, "clipping");
    assert_eq!(no_speech_guidance(&result(2_000, 500, 900, 0), 300, 2).0, "high-noise");
    assert_eq!(no_speech_guidance(&result(400, 100, 300, 0), 300, 2).0, "too-quiet");
    assert_eq!(
        no_speech_guidance(&result(2_000, 100, 300, 1), 300, 2).0,
        "speech-too-short"
    );
}

#[test]
fn demo_only_profile_is_not_a_real_recognition_route() {
    let mut config = parse_config(
        r#"schema_version = 1
default_profile = "demo"
[desktop]
[audio]
[profiles.demo]
primary = "demo"
[providers.demo]
kind = "mock"
text = "fixed text"
"#,
    );
    let mut profile = ProfileConfig {
        primary: "demo".to_owned(),
        fallbacks: Vec::new(),
        language: default_language(),
        replay: ReplaySetting::default(),
    };
    assert_eq!(config.profiles.get("demo"), Some(&profile));
    assert!(profile_is_demo_only(&config, &profile));

    config.providers.set(
        "local".to_owned(),
        ProviderConfig::Command {
            program: "/usr/bin/true".to_owned(),
            args: Vec::new(),
            timeout_seconds: 30,
        },
    );
    profile.fallbacks.push("local".to_owned());
    assert!(!profile_is_demo_only(&config, &profile));
}

#[test]
fn one_session_runs_at_a_time() {
    let mut daemon = event_test_daemon();
    let session = daemon.start("test", SECOND).expect("start");
    assert!(daemon.start("test", SECOND).is_err());
    assert_eq!(daemon.active_session(), session);
    assert!(daemon.stop("session-99").is_err());
    assert!(daemon.check_idle().is_err());
    assert_eq!(daemon.state_snapshot().0, "listening");
}

#[test]
fn a_cancelled_session_awaits_nothing() {
    let mut daemon = event_test_daemon();
    let session = daemon.start("test", SECOND).expect("start");
    let job = daemon.cancel(&session).expect("cancel");
    assert!(job.is_none());
    assert_eq!(daemon.status(), "cancelled");
    assert!(!daemon.is_recording());
    assert!(!daemon.is_recognizing());
    assert!(daemon.poll_recognition(worker_disconnected(), SECOND).is_none());
    daemon.reset().expect("reset");
    assert_eq!(daemon.status(), "idle");
    assert!(daemon.check_idle().is_ok());
}

#[test]
fn a_lost_worker_fails_its_session() {
    let mut daemon = daemon_of(
        INTEGRATION_CONFIG,
        WakeHandle::disabled(),
        Box::new(FakeCaptureAdapter),
        FakeInsertionAdapter::default(),
    );
    let session = daemon.start("test", SECOND).expect("start");
    let stopped = daemon.stop("").expect("stop");
    daemon.plan_recognition(&stopped.session, SECOND).expect("plan");
    daemon.recognition_started(RecognitionJob {
        session: stopped.session,
        recording_path: stopped.audio.path,
        vad_result: None,
        audio_millis: 1_000,
    });
    let (_job, outcome) =
        daemon.poll_recognition(worker_disconnected(), SECOND).expect("a result");
    assert!(outcome.is_err());
    assert_eq!(daemon.status(), "failed");
    assert_eq!(daemon.session_result(&session).expect("result").1, "failed");
}

#[test]
fn a_microphone_that_does_not_start_fails_the_session() {
    let mut daemon = daemon_of(
        EVENT_CONFIG,
        WakeHandle::disabled(),
        Box::new(BrokenCaptureAdapter),
        FakeInsertionAdapter::default(),
    );
    let error = daemon.start("test", SECOND).expect_err("no microphone");
    assert!(error.to_text().contains("no microphone"));
    assert_eq!(daemon.status(), "failed");
    assert!(daemon.start("unknown-profile", SECOND).is_err());
}

#[test]
fn a_recording_ends_at_its_deadline() {
    let mut daemon = event_test_daemon();
    daemon.start("test", SECOND).expect("start");
    assert!(daemon.enforce_recording_deadline(2 * SECOND).expect("early").is_none());
    let stopped = daemon.enforce_recording_deadline(121 * SECOND).expect("late").expect("stopped");
    assert_eq!(stopped.audio.backend, "fake-capture");
    assert_eq!(daemon.status(), "finalizing");
    assert!(daemon.drain_notices().contains(&Notice::MaximumDuration));
}

#[test]
fn live_levels_are_shown_at_intervals() {
    let mut daemon = event_test_daemon();
    daemon.start("test", SECOND).expect("start");
    let (analysis, clipping) = daemon.poll_audio_telemetry(SECOND).expect("levels");
    assert_eq!(analysis.rms, 2_000);
    assert_eq!(clipping, 10);
    assert!(daemon.poll_audio_telemetry(SECOND + 1).is_none());
    assert!(daemon.poll_audio_telemetry(SECOND + SECOND / 10).is_some());
    assert_eq!(daemon.last_live_audio().map(|live| live.rms), Some(2_000));
}

#[test]
fn silence_and_short_recordings_are_not_recognized() {
    let mut daemon = event_test_daemon();
    daemon.start("test", SECOND).expect("start");
    let stopped = daemon.stop("").expect("stop");
    assert!(daemon.listens_to(&stopped.audio));
    let heard = daemon.hear(&stopped.session, &stopped.audio, &[0_u8; 32_000]).expect("heard");
    assert!(matches!(heard, Hearing::Nothing(_)));
    assert_eq!(daemon.status(), "completed");
    daemon.reset().expect("reset");
    daemon.start("test", SECOND).expect("start");
    let stopped = daemon.stop("").expect("stop");
    let short = CapturedAudio { bytes: 320, duration_millis: 10, ..stopped.audio };
    let heard = daemon.hear(&stopped.session, &short, &[]).expect("heard");
    assert!(matches!(heard, Hearing::Nothing(_)));
    assert!(daemon.drain_notices().contains(&Notice::TooShort));
}

#[test]
fn transcripts_are_kept_only_when_asked() {
    let mut daemon = daemon_of(
        INTEGRATION_CONFIG,
        WakeHandle::disabled(),
        Box::new(FakeCaptureAdapter),
        FakeInsertionAdapter::default(),
    );
    daemon.start("test", SECOND).expect("start");
    let (_job, outcome) = recognize(&mut daemon, SECOND);
    assert!(outcome.is_ok());
    assert!(daemon.transcript_history().is_empty());

    let mut config = parse_config(INTEGRATION_CONFIG);
    config.desktop.transcript_history_enabled = true;
    let registry = registry_of(&config);
    daemon.reset().expect("reset");
    daemon
        .reload_configuration(
            config,
            registry,
            SharedInsertion { adapter: Arc::new(Box::new(FakeInsertionAdapter::default())) },
        )
        .expect("reload");
    for _ in 0..25 {
        daemon.start("test", SECOND).expect("start");
        let (_job, outcome) = recognize(&mut daemon, SECOND);
        assert!(outcome.is_ok());
        daemon.reset().expect("reset");
    }
    assert_eq!(daemon.transcript_history().len(), 20);
    assert_eq!(daemon.last_transcript(), "完整链路文本");
    let review = daemon.check_last_grammar().expect("review");
    assert!(review.report.clean);
    daemon.clear_history();
    assert!(daemon.transcript_history().is_empty());
    assert!(daemon.check_last_grammar().is_err());
    let usage = parse_json(daemon.usage_status().as_bytes()).expect("usage");
    assert!(usage.get("providers").is_some());
}

#[test]
fn quitting_drops_the_waiting_job() {
    let mut daemon = event_test_daemon();
    assert!(!daemon.should_quit_value());
    assert!(daemon.quit().is_none());
    assert!(daemon.should_quit_value());
}

#[test]
fn diagnostics_go_through_the_insertion_adapter() {
    let insertion = FakeInsertionAdapter::default();
    let daemon = daemon_of(
        EVENT_CONFIG,
        WakeHandle::disabled(),
        Box::new(FakeCaptureAdapter),
        insertion.clone(),
    );
    let answer = daemon.insert_test("诊断").expect("inserted");
    assert!(answer.contains("fake-insertion"));
    assert_eq!(insertion.committed(), ["诊断"]);
}

struct NotingCaptureAdapter {
    devices: Arc<Mutex<Vec<Option<String>>>>,
}

impl CaptureAdapter for NotingCaptureAdapter {
    fn start(&self, device: Option<&str>) -> Result<Box<dyn CaptureSession>, VoxError> {
        self.devices
            .lock()
            .unwrap_or_else(PoisonError::into_inner)
            .push(device.map(str::to_owned));
        Ok(Box::new(FakeCaptureSession))
    }
}

#[test]
fn the_microphone_is_the_configured_one_and_its_audio_is_handed_on() {
    let devices = Arc::new(Mutex::new(Vec::new()));
    let mut daemon = daemon_of(
        EVENT_CONFIG,
        WakeHandle::disabled(),
        Box::new(NotingCaptureAdapter { devices: devices.clone() }),
        FakeInsertionAdapter::default(),
    );
    let device = parse_config(EVENT_CONFIG).audio.device;
    assert_eq!(daemon.toggle_step(), ToggleStep::Start);
    let session = daemon.start("test", 0).expect("started");
    assert_eq!(daemon.toggle_step(), ToggleStep::Stop);
    assert_eq!(*devices.lock().unwrap_or_else(PoisonError::into_inner), [Some(device)]);
    let stopped = daemon.stop(&session).expect("stopped");
    assert_eq!(stopped.audio.path, "/run/voxtype/fake.pcm");
    assert_eq!(stopped.audio.backend, "fake-capture");
}

#[test]
fn bus_errors_keep_their_kind() {
    let argument = VoxError::new(ErrorCategory::InvalidArgument, "x.y", "bad");
    assert_eq!(map_error(&argument), DaemonError::Failed("x.y: bad".to_owned()));
    assert_eq!(
        DaemonError::Failed("m".to_owned()).to_text(),
        "org.freedesktop.DBus.Error.Failed: m"
    );
    assert_eq!(
        DaemonError::InvalidArgs("m".to_owned()).to_text(),
        "org.freedesktop.DBus.Error.InvalidArgs: m"
    );
    assert!(analysis_failed("r").to_text().contains('r'));
    assert!(trim_failed("r").to_text().contains('r'));
    assert!(worker_failed("r").to_text().contains('r'));
    assert_eq!(insertion_mode(InsertionBackend::Copy), InsertionMode::Copy);
    let outcome = InsertionOutcome { backend: "fcitx", clipboard_restored: true };
    assert!(render_outcome(&outcome).contains("fcitx"));
}

#[test]
fn the_focused_text_is_reviewed() {
    let context = FcitxContext {
        target: FcitxTarget { program: "kate".to_owned(), frontend: "wayland".to_owned() },
        generation: 1,
        cursor: 12,
        anchor: 12,
        capabilities: Vec::new(),
        truncated: false,
        text: "hello  world".to_owned(),
    };
    let review = check_context_grammar(Ok(&context)).ok().expect("review");
    assert_eq!(review.report.suggested, "Hello world");
    let document = context_document(&review.report, &context);
    assert!(document.starts_with(
        "{\"clean\":false,\"edits\":[{\"confidence\":\"medium\",\"end_byte\":1,"
    ));
    assert!(document.ends_with(
        "\"source\":{\"frontend\":\"wayland\",\"generation\":1,\"kind\":\"fcitx\",\"program\":\"kate\",\"truncated\":false},\"suggested\":\"Hello world\"}"
    ));
    assert!(cleanup_overlay_body(&review.report, Some("kate")).contains("kate"));
    let error = VoxError::new(ErrorCategory::Permission, "fcitx.bridge_rejected", "secure");
    assert!(check_context_grammar(Err(&error)).is_err());
}
