//! The desktop helpers: shortcuts, diagnostics, tray, overlay, clean-up and settings.

use voxtype::cleanup::{report_name, validate_report};
use voxtype::client::{requested_session, split_parts, SessionResult};
use voxtype::config::{
    AudioConfig, Config, DesktopConfig, InsertionBackend, ProfileConfig, ProviderConfig,
    ProviderQuotaConfig, ReplaySetting,
};
use voxtype::doctor::{
    config_value, describe_audio, describe_config, describe_context, describe_provider,
    describe_result, describe_target, is_clipped, lookup_state, microphone_level_status,
    provider_kind, provider_secret, require_idle_daemon, require_idle_for, service_state,
    threshold_above_noise,
    typed_secret,
};
use voxtype::error::{ErrorCategory, VoxError};
use voxtype::fcitx::{FcitxContext, FcitxTarget};
use voxtype::json::{parse_json, render_json, Json};
use voxtype::overlay::{
    check_size, contains_bytes, hidden_state, is_overlay_command, legacy_request, show,
    validate_request, OverlayRequest,
};
use voxtype::presentation::{
    audio_metrics_payload, error_category_name, overlay_payload, quota_json, Notice,
};
use voxtype::settings::{
    authorize, calibration_answer, empty_usage, insertion_backend_name, is_settings_command,
    json_pointer_escape, process_in, route, save_general, save_provider, save_quota, save_secret,
    session_token, settings_state, usage_or_unavailable, Endpoint, GeneralUpdate, Request,
    RequestReader, Response, RestProviderUpdate,
};
use voxtype::shortcuts::{
    bound_shortcuts, classify_shortcut, diagnose_shortcut, expected_shortcuts, format_qt_shortcut,
    format_shortcuts, is_registered, other_shortcut_owners, overall_state, Inspection,
    KGlobalShortcutInfo, ShortcutState,
};
use voxtype::table::Table;
use voxtype::tray::{
    event, format_audio_duration, menu_children, menu_item_enabled, summarize_usage,
    usage_summary, MenuAction, TrayPresentation,
};
use voxtype::vad::{analyze_pcm, StreamingVad, VadConfig};

fn shortcut_info(action: &str, component: &str) -> KGlobalShortcutInfo {
    (
        action.to_owned(),
        String::new(),
        component.to_owned(),
        String::new(),
        "default".to_owned(),
        "Default Context".to_owned(),
        Vec::new(),
        Vec::new(),
    )
}

#[test]
fn formats_current_plasma_shortcuts() {
    assert_eq!(format_qt_shortcut(402_653_270), "Meta+Alt+V");
    assert_eq!(format_qt_shortcut(402_653_267), "Meta+Alt+S");
    assert_eq!(format_qt_shortcut(402_653_272), "Meta+Alt+X");
    assert_eq!(format_qt_shortcut(419_430_400), "Meta+Alt+Escape");
    assert_eq!(format_qt_shortcut(402_653_255), "Meta+Alt+G");
}

#[test]
fn diagnoses_every_packaged_voice_action() {
    let labels =
        expected_shortcuts().iter().map(|shortcut| shortcut.label).collect::<Vec<_>>();
    assert_eq!(labels, ["toggle", "cancel", "start", "stop", "grammar"]);
}

#[test]
fn formats_alternative_and_unbound_shortcuts() {
    assert_eq!(format_shortcuts(&[]), "none");
    assert_eq!(format_shortcuts(&[402_653_270, 0x0400_0044]), "Meta+Alt+V|Ctrl+D");
}

#[test]
fn excludes_the_expected_owner_from_conflicts() {
    let owners = vec![
        shortcut_info("_launch", "io.github.tinnci.VoxType.desktop"),
        shortcut_info("other", "org.example.Other.desktop"),
    ];
    let conflicts = other_shortcut_owners(
        &owners,
        "io.github.tinnci.VoxType.desktop",
        "_launch",
        402_653_270,
    );
    assert_eq!(conflicts, ["org.example.Other.desktop:other@Meta+Alt+V"]);
}

#[test]
fn classifies_inactive_conflict_and_unbound_states() {
    assert_eq!(classify_shortcut(false, &[1], &[]), ShortcutState::Inactive);
    assert_eq!(classify_shortcut(true, &[], &["owner".to_owned()]), ShortcutState::Conflict);
    assert_eq!(classify_shortcut(true, &[], &[]), ShortcutState::Unbound);
    assert_eq!(classify_shortcut(true, &[1], &[]), ShortcutState::Fine);
}

#[test]
fn shortcuts_are_diagnosed_step_by_step() {
    let expected = expected_shortcuts()[0];
    assert!(!is_registered(&vec!["other".to_owned()], &expected));
    assert!(is_registered(&vec![expected.component_path.to_owned()], &expected));
    let Inspection::Done(absent) = diagnose_shortcut(expected, None) else {
        panic!("nothing to ask");
    };
    assert_eq!(absent.state, ShortcutState::MissingComponent);
    assert_eq!(absent.state.as_str(), "missing-component");
    let Inspection::Done(missing) = diagnose_shortcut(expected, Some((true, Vec::new()))) else {
        panic!("nothing to ask");
    };
    assert_eq!(missing.state, ShortcutState::MissingAction);
    let mut info = shortcut_info(expected.action_id, expected.component_id);
    info.6 = vec![0, 402_653_270];
    let Inspection::Keys(pending) = diagnose_shortcut(expected, Some((true, vec![info]))) else {
        panic!("owners to ask");
    };
    assert_eq!(pending.keys(), &vec![402_653_270]);
    let owners =
        vec![(402_653_270, vec![shortcut_info(expected.action_id, expected.component_id)])];
    let diagnostic = pending.conclude(&owners);
    assert_eq!(diagnostic.state, ShortcutState::Fine);
    assert!(diagnostic.line().contains("Meta+Alt+V"));
    assert_eq!(bound_shortcuts(&[0, 3]), [3]);
    assert_eq!(overall_state(&vec![diagnostic]), "ok");
    assert_ne!(overall_state(&vec![absent]), "ok");
}

#[test]
fn classifies_audio_peak_for_actionable_diagnostics() {
    assert_eq!(microphone_level_status(100), "too-quiet");
    assert_eq!(microphone_level_status(2_000), "ok");
    assert_eq!(microphone_level_status(32_000), "clipping");
    assert!(is_clipped(32_000));
    assert!(!is_clipped(31_999));
}

fn config() -> Config {
    let mut config = Config {
        schema_version: 1,
        default_profile: "main".to_owned(),
        desktop: DesktopConfig::default(),
        audio: AudioConfig::default(),
        profiles: Table::new(),
        providers: Table::new(),
        quotas: Table::new(),
    };
    config.profiles.set(
        "main".to_owned(),
        ProfileConfig {
            primary: "cloud/primary".to_owned(),
            fallbacks: Vec::new(),
            language: "zh".to_owned(),
            replay: ReplaySetting::Never,
        },
    );
    config.providers.set(
        "cloud/primary".to_owned(),
        ProviderConfig::OpenaiCompatible {
            endpoint: "https://example.com/v1".to_owned(),
            model: "asr".to_owned(),
            secret: "cloud-key".to_owned(),
            timeout_seconds: 30,
        },
    );
    config.providers.set("fixed".to_owned(), ProviderConfig::Mock { text: "x".to_owned() });
    config
}

#[test]
fn diagnostics_describe_what_they_saw() {
    let config = config();
    assert!(describe_config("ok", &config).ends_with(" schema=1 profiles=1 providers=2"));
    let provider = config.providers.get("cloud/primary").expect("provider");
    assert_eq!(provider_secret(provider), Some("cloud-key"));
    assert_eq!(provider_secret(&ProviderConfig::Mock { text: String::new() }), None);
    assert_ne!(
        provider_kind(provider),
        provider_kind(&ProviderConfig::Mock { text: String::new() })
    );
    assert!(!describe_provider("cloud", provider, Some("stored")).is_empty());
    assert_ne!(
        lookup_state(None),
        lookup_state(Some(&VoxError::new(ErrorCategory::Authentication, "a.b", "m")))
    );
    let result = analyze_pcm(&[], VadConfig { rms_threshold: 300, minimum_voiced_frames: 2 });
    assert!(describe_audio("parec", 0, 0, &result).is_err());
    assert!(threshold_above_noise(100) > 100);
    assert_eq!(config_value("a = 1\n b = \"x\" \n", "a"), Some("1".to_owned()));
    assert_eq!(config_value("a = 1\n", "c"), None);
    assert!(require_idle_daemon("calibrate", "idle").is_ok());
    assert!(require_idle_daemon("calibrate", "listening").is_err());
    assert!(require_idle_for("fcitx focus probing", "idle").is_ok());
    assert_eq!(
        require_idle_for("fcitx focus probing", "listening").expect_err("busy"),
        "fcitx focus probing requires an idle daemon"
    );
    let target = FcitxTarget { program: "kate".to_owned(), frontend: "wayland".to_owned() };
    assert!(describe_target(&target).contains("kate"));
    let context = FcitxContext {
        target,
        generation: 1,
        cursor: 1,
        anchor: 0,
        capabilities: vec!["multiline".to_owned()],
        truncated: false,
        text: "abc".to_owned(),
    };
    assert!(describe_context(&context).contains("kate"));
    assert_eq!(service_state(Some(b"active\n")), "active");
    assert_eq!(typed_secret(b"value\n".to_vec()).expect("secret"), b"value");
    assert!(typed_secret(Vec::new()).is_err());
}

#[test]
fn client_answers_are_read() {
    assert_eq!(split_parts("a b c"), ["a", "b", "c"]);
    assert_eq!(requested_session("", "session=session-3 result=processing"), "session-3");
    assert_eq!(requested_session("session-1", "x"), "session-1");
    let result = SessionResult {
        session: "session-3".to_owned(),
        outcome: "completed".to_owned(),
        error_code: String::new(),
        backend: "fcitx".to_owned(),
        char_count: 4,
    };
    assert!(describe_result(&result).contains("session-3"));
}

#[test]
fn maps_each_user_visible_phase_to_a_distinct_presentation() {
    let idle = TrayPresentation::from_daemon_status("idle");
    let listening = TrayPresentation::from_daemon_status("listening");
    let processing = TrayPresentation::from_daemon_status("finalizing");
    let inserting = TrayPresentation::from_daemon_status("inserting");
    let completed = TrayPresentation::from_daemon_status("completed");
    let cancelled = TrayPresentation::from_daemon_status("cancelled");
    let failed = TrayPresentation::from_daemon_status("failed");

    assert_eq!(idle.status, "Active");
    assert_eq!(listening.status, "NeedsAttention");
    assert_ne!(idle.icon_name, listening.icon_name);
    assert_ne!(listening.icon_name, processing.icon_name);
    assert_ne!(processing.icon_name, inserting.icon_name);
    assert_eq!(completed.icon_name, "emblem-default");
    assert_eq!(cancelled.icon_name, "process-stop");
    assert_eq!(failed.status, "NeedsAttention");
}

#[test]
fn unavailable_daemon_is_visible_as_attention() {
    let state = TrayPresentation::from_daemon_status("unavailable");
    assert_eq!(state.status, "NeedsAttention");
    assert_eq!(state.icon_name, "dialog-error");
}

#[test]
fn menu_actions_follow_daemon_state() {
    let idle = TrayPresentation::from_daemon_status("idle");
    assert!(menu_item_enabled(1, &idle));
    assert!(!menu_item_enabled(2, &idle));
    assert!(!menu_item_enabled(3, &idle));

    let listening = TrayPresentation::from_daemon_status("listening");
    assert!(!menu_item_enabled(1, &listening));
    assert!(menu_item_enabled(2, &listening));
    assert!(menu_item_enabled(3, &listening));

    let processing = TrayPresentation::from_daemon_status("finalizing");
    assert!(!menu_item_enabled(1, &processing));
    assert!(!menu_item_enabled(2, &processing));
    assert!(menu_item_enabled(3, &processing));

    let unavailable = TrayPresentation::from_daemon_status("unavailable");
    assert!(!menu_item_enabled(1, &unavailable));
    assert_eq!(event(1, "clicked", &idle), MenuAction::Start);
    assert_eq!(event(1, "hovered", &idle), MenuAction::Nothing);
    assert_eq!(event(1, "clicked", &listening), MenuAction::Nothing);
    assert!(processing.is_busy());
    assert!(!idle.same(&listening));
    assert!(menu_children(&idle, None).iter().any(|item| item.id == 1 && item.enabled));
}

#[test]
fn summarizes_usage_without_inventing_tokens() {
    let status = r#"{"providers":{"cloud":{"usage":{"requests":2,"audio_millis":1500,"token_reports":0,"reported_tokens":0}}}}"#;
    let summary = usage_summary(status);
    assert!(summary.contains("cloud: 2 次 · 1.5s"));
    assert!(summary.contains("token 未报告"));
    assert_eq!(format_audio_duration(1_500), "1.5s");
    assert_eq!(summarize_usage(None), usage_summary("not json"));
}

fn overlay_request(body: &str) -> OverlayRequest {
    OverlayRequest {
        state: "done".to_owned(),
        title: "VoxType".to_owned(),
        body: body.to_owned(),
        timeout_ms: 2_000,
        rms: None,
        adaptive_threshold: None,
        speech_active: false,
        clipping_percent: 0,
    }
}

#[test]
fn rejects_oversized_overlay_text() {
    assert!(validate_request(&overlay_request(&"x".repeat(241))).is_err());
    assert!(validate_request(&overlay_request(&"x".repeat(240))).is_ok());
}

#[test]
fn overlay_states_follow_their_requests() {
    let state = show(&overlay_request("text"), 77).expect("shown");
    assert!(state.visible);
    assert_eq!((state.updated_ms, state.body.as_str()), (77, "text"));
    assert!(!hidden_state(78).visible);
    assert!(check_size(4_096).is_ok());
    assert!(check_size(4_097).is_err());
    let legacy =
        legacy_request("done".to_owned(), Some("T".to_owned()), Some("B".to_owned()), Some("500"))
            .expect("request");
    assert_eq!(legacy.timeout_ms, 500);
    assert!(contains_bytes(b"abcabd", b"abd"));
    assert!(!contains_bytes(b"ab", b"abc"));
    assert!(is_overlay_command(b"qml6\0/usr/share/voxtype/Overlay.qml\0"));
    assert!(!is_overlay_command(b"/usr/bin/other\0"));
}

#[test]
fn accepts_the_versioned_cleanup_contract() {
    let report = r#"{
        "schema":1,
        "clean":false,
        "suggested":"你好，世界！",
        "edits":[]
    }"#;
    assert!(validate_report(report).is_ok());
}

#[test]
fn rejects_legacy_text_and_unknown_schema() {
    assert!(validate_report("clean=false suggested=text").is_err());
    assert!(validate_report(r#"{"schema":2,"clean":true,"suggested":"","edits":[]}"#).is_err());
    assert!(validate_report(r#"{"schema":1,"clean":true,"edits":[]}"#).is_err());
    assert_ne!(report_name(1, 2), report_name(1, 3));
}

#[test]
fn escapes_json_pointer_segments() {
    assert_eq!(json_pointer_escape("a/b~c"), "a~1b~0c");
}

fn read(text: &[u8]) -> RequestReader {
    let mut reader = RequestReader::new();
    reader.take(text).expect("taken");
    reader
}

#[test]
fn requests_are_read_as_they_arrive() {
    let mut reader = RequestReader::new();
    reader.take(b"PUT /api/general HTTP/1.1\r\nContent-Le").expect("taken");
    assert!(reader.wants_more().expect("open"));
    reader.take(b"ngth: 4\r\nX-VoxType-Token: abc\r\n\r\nbo").expect("taken");
    assert!(reader.wants_more().expect("open"));
    reader.take(b"dy").expect("taken");
    assert!(!reader.wants_more().expect("complete"));
    assert_eq!(reader.body(), b"body");
    let request = reader.request().expect("request");
    assert_eq!((request.method.as_str(), request.path.as_str()), ("PUT", "/api/general"));
    reader.wipe();
    let bare = read(b"PUT\r\n\r\n").request().expect("request");
    assert_eq!((bare.method.as_str(), bare.path.as_str()), ("PUT", ""));
    assert!(RequestReader::new().request().is_err());
}

fn request(method: &str, path: &str, token: Option<&str>) -> Request {
    Request {
        method: method.to_owned(),
        path: path.to_owned(),
        token: token.map(str::to_owned),
    }
}

#[test]
fn only_the_session_token_opens_the_settings() {
    assert_eq!(
        authorize(&request("GET", "/state", Some("t")), "t").expect("open"),
        Endpoint::State
    );
    let refused = authorize(&request("GET", "/state", Some("u")), "t").expect_err("closed");
    assert_eq!(refused.status, 403);
    assert!(authorize(&request("GET", "/state", None), "t").is_err());
    assert_eq!(route(&request("GET", "/nowhere", None)).expect_err("unknown").status, 404);
    assert_eq!(session_token(&[0x0f, 0xa0]), "0fa0");
}

#[test]
fn settings_are_saved_only_when_valid() {
    let mut config = config();
    let update = |backend: &str| GeneralUpdate {
        default_profile: "main".to_owned(),
        insertion_backend: backend.to_owned(),
        restore_clipboard: false,
        retain_recordings: true,
        vad_enabled: true,
        vad_rms_threshold: 400,
        vad_minimum_voiced_frames: 3,
        minimum_duration_millis: 100,
    };
    save_general(&mut config, update("auto")).expect("saved");
    assert_eq!(config.desktop.insertion_backend, InsertionBackend::Auto);
    assert!(config.desktop.retain_recordings);
    assert!(save_general(&mut config, update("unknown")).is_err());
    assert_eq!(insertion_backend_name(InsertionBackend::Auto), "auto");
    let provider = |endpoint: &str| RestProviderUpdate {
        endpoint: endpoint.to_owned(),
        model: "asr-2".to_owned(),
        timeout_seconds: 20,
        smart_format: None,
    };
    save_provider(&mut config, "cloud/primary", provider("https://example.com/v2"))
        .expect("saved");
    assert!(save_provider(&mut config, "none", provider("https://example.com")).is_err());
    assert!(save_provider(&mut config, "fixed", provider("https://example.com")).is_err());
    let quota = ProviderQuotaConfig {
        request_limit: Some(5),
        audio_seconds_limit: None,
        token_limit: None,
    };
    save_quota(&mut config, "fixed", quota).expect("saved");
    assert!(save_quota(&mut config, "none", quota).is_err());
    assert_eq!(quota_json(&quota).get("request_limit").and_then(Json::as_unsigned), Some(5));
    assert!(save_secret(&config, "cloud-key", b"value").is_ok());
    assert!(save_secret(&config, "other", b"value").is_err());
    assert!(save_secret(&config, "cloud-key", b"").is_err());
}

#[test]
fn settings_show_the_configuration() {
    let config = config();
    let states = vec!["stored".to_owned(), "none".to_owned()];
    let state = settings_state(&config, "/c.toml", &empty_usage(), &states).expect("state");
    assert!(render_json(&state).contains("/c.toml"));
    assert!(usage_or_unavailable(None).is_object());
    let result = analyze_pcm(&[], VadConfig { rms_threshold: 300, minimum_voiced_frames: 2 });
    assert!(render_json(&calibration_answer(&result, "0.5".to_owned())).contains("\"speech_ratio\":0.5"));
    assert!(is_settings_command(b"/usr/bin/voxtype-settings\0"));
    assert_eq!(process_in("42\n"), Some(42));
    assert_eq!(process_in("x"), None);
    assert_eq!(Response::done().status, 200);
    assert!(Response::error(404, "gone").head().contains("404"));
    assert!(Response::saved(true).body.contains("true"));
    assert_eq!(Response::json(&Json::Null).body, "null");
}

#[test]
fn notices_have_their_own_words() {
    assert_ne!(Notice::Listening.overlay().state, Notice::Processing.overlay().state);
    assert!(matches!(
        Notice::RecognitionFailed("why".to_owned()).notification(),
        Some((_, "why"))
    ));
    assert!(Notice::Listening.overlay().title.len() > 1);
    assert_eq!(error_category_name(ErrorCategory::RateLimited), "rate-limited");
    let payload = parse_json(overlay_payload("done", "T", "B", 5).as_bytes()).expect("payload");
    assert_eq!(payload.get("timeout_ms").and_then(Json::as_unsigned), Some(5));
    let mut vad =
        StreamingVad::new(VadConfig { rms_threshold: 300, minimum_voiced_frames: 2 });
    let analysis = vad.process_level(420);
    let metrics = parse_json(audio_metrics_payload(&analysis, 2, 9).as_bytes()).expect("metrics");
    assert_eq!(metrics.get("rms").and_then(Json::as_unsigned), Some(420));
    assert_eq!(metrics.get("clipping_percent").and_then(Json::as_unsigned), Some(2));
}
