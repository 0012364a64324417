//! The Doubao provider: bootstrap, wire format, session protocol, socket rules and one attempt.

use voxtype::cancellation::CancellationToken;
use voxtype::curl::{cancelled_failure, CurlResponse};
use voxtype::doubao::bootstrap::{
    fetch_settings_token_http, finish_registration, finish_token, parse_device_registration,
    parse_settings_token, register_device_http, x_ss_stub, BootstrapHttpConfig,
    BootstrapRequestContext, DeviceIdentity, RegisteredDevice, RegistrationDocument,
};
use voxtype::doubao::driver::{
    DriverAction, DriverEvent, Moment, SessionDriver, Stage, WallClock,
};
use voxtype::doubao::framer::Pcm20msFramer;
use voxtype::doubao::managed::{
    managed_run, refreshes_token, request_id, ManagedCredentialBundle, ManagedDoubaoConfig,
    RawBundle,
};
use voxtype::doubao::opus::{finish_packet, frame_samples, OpusCodecError};
use voxtype::doubao::recognition::parse_recognition_event;
use voxtype::doubao::runner::{
    connect_failure, encoder_unavailable, prepare_run, read_pcm_frame, DoubaoRunConfig,
    DoubaoTranscription, PcmFile,
};
use voxtype::doubao::session::{
    DoubaoSessionProtocol, SessionEvent, SessionOutcome, SessionPhase,
};
use voxtype::doubao::websocket::{
    cancelled, connect_target, handshake_step, map_handshake_error, map_socket_error,
    plan_connection, poll_result, queue_result, validate_spec, FlushResult, HandshakeFault,
    PollResult, QueueBinaryResult, ReadOutcome, SocketEvent, SocketFault, TcpAttempts,
    WebSocketSpec, WebSocketTransportError, WriteOutcome,
};
use voxtype::doubao::wire::{
    decode_response, encode_request, write_bytes, write_varint, write_varint_field, FrameState,
    ResponseEnvelope,
};
use voxtype::error::{ErrorCategory, VoxError};
use voxtype::json::parse_json;
use voxtype::provider::{AudioAcceptance, ProviderAttemptFailure};
use voxtype::secret::SecretString;

const MILLI: u64 = 1_000_000;

fn response(
    request_id: &str,
    kind: &str,
    packet: Option<u64>,
    result: Option<&str>,
) -> Vec<u8> {
    let mut output = Vec::new();
    write_bytes(&mut output, 1, request_id.as_bytes());
    write_bytes(&mut output, 2, b"task-fixture");
    write_bytes(&mut output, 3, b"ASR");
    write_bytes(&mut output, 4, kind.as_bytes());
    if let Some(result) = result {
        write_bytes(&mut output, 7, result.as_bytes());
    }
    if let Some(packet) = packet {
        write_varint_field(&mut output, 9, packet);
    }
    output
}

fn token() -> SecretString {
    SecretString::try_new("token-fixture".to_owned()).ok().expect("token")
}

fn ready_protocol() -> (DoubaoSessionProtocol, SecretString) {
    let token = token();
    let mut protocol =
        DoubaoSessionProtocol::new("request-fixture".to_owned()).ok().expect("session");
    assert!(protocol.start_task(&token).is_ok());
    assert_eq!(
        protocol
            .handle_binary(&response("request-fixture", "TaskStarted", None, None))
            .expect("TaskStarted"),
        Some(SessionEvent::TaskStarted)
    );
    assert!(protocol
        .start_session(&token, br#"{"audio_info":{"sample_rate":16000}}"#)
        .is_ok());
    assert_eq!(
        protocol
            .handle_binary(&response("request-fixture", "SessionStarted", None, None))
            .expect("SessionStarted"),
        Some(SessionEvent::SessionStarted)
    );
    (protocol, token)
}

fn result_message(json: &str) -> Vec<u8> {
    response("request-fixture", "Result", None, Some(json))
}

#[test]
fn bootstrap_parses_ids_and_zeroizing_token() {
    let registered =
        parse_device_registration(br#"{"data":{"device_id":123456,"install_id":"654321"}}"#)
            .ok()
            .expect("registered device");
    assert_eq!(registered.device_id, "123456");
    assert_eq!(registered.install_id, "654321");
    assert!(!registered.redacted().contains("123456"));

    let token = parse_settings_token(
        br#"{"data":{"settings":{"asr_config":{"app_key":"secret-token"}}}}"#,
    )
    .ok()
    .expect("settings token");
    assert_eq!(token.expose(), "secret-token");
    assert_eq!(token.redacted(), "SecretString([redacted])");
}

#[test]
fn identifiers_are_positive() {
    for body in [
        &br#"{"device_id":-5}"#[..],
        br#"{"device_id":0.0}"#,
        br#"{"device_id":-0.5}"#,
        br#"{"device_id":"0"}"#,
        br#"{"device_id":"-5"}"#,
        br#"{"device_id":""}"#,
    ] {
        assert!(parse_device_registration(body).is_err());
    }
    let fallback =
        parse_device_registration(br#"{"device_id":-5,"data":{"device_id":"7"}}"#).ok().expect("id");
    assert_eq!(fallback.device_id, "7");
    let named = parse_device_registration(br#"{"device_id":"dev-0"}"#).ok().expect("named");
    assert_eq!(named.device_id, "dev-0");
    assert_eq!(named.install_id, "");
    let odd = parse_device_registration(br#"{"device_id":7,"install_id":"-1"}"#).ok().expect("odd");
    assert_eq!(odd.install_id, "-1");
    let number = parse_device_registration(br#"{"device_id":7,"install_id":-2}"#).ok().expect("odd");
    assert_eq!(number.install_id, "-2");
    let zero = parse_device_registration(br#"{"device_id":7,"install_id":0}"#).ok().expect("zero");
    assert_eq!(zero.install_id, "");
}

#[test]
fn frames_do_not_depend_on_the_chunks() {
    let stream = (0..2_000_usize).map(|i| (i % 251) as u8).collect::<Vec<_>>();
    for size in [1, 7, 639, 640, 641, 2_000] {
        let mut framer = Pcm20msFramer::default();
        let mut handed_out = Vec::new();
        for chunk in stream.chunks(size) {
            for frame in framer.push(chunk) {
                handed_out.extend_from_slice(&frame);
            }
        }
        assert_eq!(handed_out, stream[..1_920]);
        assert_eq!(framer.pending_bytes(), 80);
    }
}

#[test]
fn the_last_occurrence_of_a_field_wins() {
    let mut first = Vec::new();
    write_bytes(&mut first, 1, b"one");
    write_bytes(&mut first, 2, b"task");
    write_varint_field(&mut first, 5, 7);
    let mut second = Vec::new();
    write_bytes(&mut second, 1, b"two");
    write_varint_field(&mut second, 5, 0);
    let both = [first.clone(), second].concat();
    let response = decode_response(&both).expect("both");
    assert_eq!(response.request_id, "two");
    assert_eq!(response.task_id, "task");
    assert_eq!(response.status_code, 0);

    let mut unknown = Vec::new();
    write_varint_field(&mut unknown, 9, 1);
    write_bytes(&mut unknown, 77, b"skipped");
    write_varint(&mut unknown, 8 * 8 + 1);
    unknown.extend_from_slice(&[1; 8]);
    write_varint(&mut unknown, 8 * 8 + 5);
    unknown.extend_from_slice(&[1; 4]);
    write_varint_field(&mut unknown, 1, 3);
    let longer = [first.clone(), unknown].concat();
    assert_eq!(decode_response(&longer).expect("longer"), decode_response(&first).expect("first"));
}

#[test]
fn bootstrap_rejects_missing_ids_tokens_and_control_bytes() {
    assert!(parse_device_registration(br#"{"device_id":0}"#).is_err());
    assert!(parse_settings_token(br#"{"data":{}}"#).is_err());
    assert!(parse_settings_token(
        b"{\"data\":{\"settings\":{\"asr_config\":{\"app_key\":\"bad\\nkey\"}}}}"
    )
    .is_err());
    let identity = DeviceIdentity {
        client_udid: "client".to_owned(),
        open_udid: "bad\nvalue".to_owned(),
        cdid: "cdid".to_owned(),
    };
    assert!(identity.validate().is_err());
    assert!(!identity.redacted().contains("\"client\""));
}

#[test]
fn settings_stub_is_uppercase_md5_of_exact_body() {
    assert_eq!(x_ss_stub(b"body=null"), "46C03B52742B3F2615A3ABDF1636B754");
    assert_ne!(x_ss_stub(b"body=null"), x_ss_stub(b"body=null\n"));
}

#[test]
fn bootstrap_http_keeps_identity_out_of_debug_and_builds_exact_requests() {
    let config = BootstrapHttpConfig {
        registration_endpoint: "http://127.0.0.1:8081/register".to_owned(),
        settings_endpoint: "http://127.0.0.1:8081/settings".to_owned(),
        timeout_seconds: 3,
    };
    let context = BootstrapRequestContext {
        user_agent: "VoxType fixture/1".to_owned(),
        common_query: vec![
            ("aid".to_owned(), "fixture".to_owned()),
            ("locale".to_owned(), "zh CN".to_owned()),
            ("cdid".to_owned(), "cdid-secret".to_owned()),
        ],
    };
    let identity = DeviceIdentity {
        client_udid: "client-secret".to_owned(),
        open_udid: "open-secret".to_owned(),
        cdid: "cdid-secret".to_owned(),
    };
    let value = parse_json(
        br#"{"magic_tag":"fixture","header":{"model":"fixture-device"},"generated_at":1}"#,
    )
    .expect("registration JSON");
    let document = RegistrationDocument::from_json(&value).ok().expect("registration document");
    assert!(!context.redacted().contains("fixture/1"));
    assert!(!identity.redacted().contains("client-secret"));
    assert!(!document.redacted().contains("magic_tag"));

    let request = register_device_http(&config, &context, &document, &CancellationToken::new())
        .ok()
        .expect("registration request");
    let registration = request.private_config;
    assert!(registration
        .contains("http://127.0.0.1:8081/register?aid=fixture&locale=zh%20CN&cdid=cdid-secret\""));
    assert!(!registration.contains("client-secret"));
    assert!(!registration.contains("open-secret"));
    assert!(registration.contains("VoxType fixture/1"));
    assert!(registration.contains(r#"{\"generated_at\":1,"#));
    let registered = finish_registration(
        Ok(CurlResponse {
            http_status: 200,
            body: br#"{"data":{"device_id":123456,"install_id":"654321"}}"#.to_vec(),
        }),
        false,
    )
    .ok()
    .expect("device registration");

    let request =
        fetch_settings_token_http(&config, &context, &registered, &CancellationToken::new())
            .ok()
            .expect("settings request");
    assert_eq!(request.timeout_seconds, 3);
    let settings = request.private_config;
    assert!(settings.contains(
        "http://127.0.0.1:8081/settings?aid=fixture&locale=zh%20CN&cdid=cdid-secret&device_id=123456\""
    ));
    assert!(settings.contains("x-ss-stub: 46C03B52742B3F2615A3ABDF1636B754"));
    assert!(settings.contains("\"body=null\""));
    let token = finish_token(
        Ok(CurlResponse {
            http_status: 200,
            body: br#"{"data":{"settings":{"asr_config":{"app_key":"temporary-token"}}}}"#.to_vec(),
        }),
        false,
    )
    .ok()
    .expect("settings token");
    assert_eq!(token.expose(), "temporary-token");
}

#[test]
fn bootstrap_http_rejects_reserved_metadata_and_pre_cancelled_work() {
    let config = BootstrapHttpConfig {
        registration_endpoint: "http://127.0.0.1:1/register".to_owned(),
        settings_endpoint: "http://127.0.0.1:1/settings".to_owned(),
        timeout_seconds: 1,
    };
    let mut context = BootstrapRequestContext {
        user_agent: "fixture".to_owned(),
        common_query: vec![("device_id".to_owned(), "override".to_owned())],
    };
    let registered =
        RegisteredDevice { device_id: "123".to_owned(), install_id: String::new() };
    let error =
        fetch_settings_token_http(&config, &context, &registered, &CancellationToken::new())
            .err()
            .expect("reserved metadata must fail");
    assert_eq!(error.code(), "doubao.invalid_query_metadata");

    context.common_query.clear();
    let cancellation = CancellationToken::new();
    cancellation.cancel();
    let error = fetch_settings_token_http(&config, &context, &registered, &cancellation)
        .err()
        .expect("pre-cancelled bootstrap must fail");
    assert_eq!(error.category(), ErrorCategory::Cancelled);
    assert!(!error.to_text().contains("123"));
}

#[test]
fn bootstrap_answers_are_never_quoted() {
    let answer = CurlResponse { http_status: 200, body: b"{\"secret\":\"text\"}".to_vec() };
    let error = finish_registration(Ok(answer), false).err().expect("no identifiers");
    assert_eq!(error.code(), "doubao.invalid_registration_response");
    assert!(!error.to_text().contains("secret"));
    let answer = CurlResponse { http_status: 200, body: b"{}".to_vec() };
    let error = finish_token(Ok(answer), true).err().expect("cancelled after the answer");
    assert_eq!(error.code(), "doubao.bootstrap_cancelled");
    let error = finish_token(Err(cancelled_failure()), false).err().expect("cancelled before");
    assert_eq!(error.code(), "doubao.settings_http_failed");
    let array = parse_json(b"[]").expect("array");
    assert!(RegistrationDocument::from_json(&array).is_err());
}

#[test]
fn request_envelope_matches_independent_golden_bytes() {
    let encoded = encode_request("t", "M", &[], &[], "r", Some(FrameState::First));
    assert_eq!(
        encoded,
        [
            0x12, 0x01, b't', 0x1a, 0x03, b'A', b'S', b'R', 0x2a, 0x01, b'M', 0x42, 0x01, b'r',
            0x48, 0x01,
        ]
    );
}

#[test]
fn response_decoder_skips_unknown_fields() {
    let json = r#"{"extra":{"packet_number":7},"results":[{"text":"你好","is_interim":false,"is_vad_finished":true}]}"#.as_bytes();
    let mut message = Vec::new();
    write_bytes(&mut message, 1, b"request-1");
    write_bytes(&mut message, 4, b"SessionFinished");
    write_varint_field(&mut message, 5, 0);
    write_varint_field(&mut message, 9, 123);
    write_bytes(&mut message, 7, json);
    let response = decode_response(&message).expect("response");
    assert_eq!(response.request_id, "request-1");
    assert_eq!(response.message_type, "SessionFinished");
    let event = parse_recognition_event(&response)
        .expect("event JSON")
        .expect("recognition event");
    assert_eq!(event.text.as_deref(), Some("你好"));
    assert!(event.final_result);
    assert_eq!(event.packet_number, Some(7));
}

#[test]
fn nonstream_result_is_final_without_vad_finished() {
    let response = ResponseEnvelope {
        result_json: r#"{"results":[{"text":"完成","is_interim":true,"extra":{"nonstream_result":true}}]}"#.as_bytes().to_vec(),
        ..ResponseEnvelope::default()
    };
    assert!(
        parse_recognition_event(&response)
            .expect("event")
            .expect("result")
            .final_result
    );
}

#[test]
fn pcm_chunks_are_reassembled_and_final_frame_is_padded() {
    let mut framer = Pcm20msFramer::default();
    assert!(framer.push(&[1; 100]).is_empty());
    let completed = framer.push(&[2; 700]);
    assert_eq!(completed.len(), 1);
    assert_eq!(&completed[0][..100], &[1; 100]);
    assert_eq!(&completed[0][100..], &[2; 540]);
    assert_eq!(framer.pending_bytes(), 160);
    let final_frame = framer.finish_padded().expect("padded frame");
    assert_eq!(&final_frame[..160], &[2; 160]);
    assert!(final_frame[160..].iter().all(|byte| *byte == 0));
    assert!(framer.finish_padded().is_none());
}

#[test]
fn malformed_messages_are_rejected() {
    assert!(decode_response(&[0x3a, 0x05, 1]).is_err());
    let mut oversized_varint = vec![0x28];
    oversized_varint.extend_from_slice(&[0x80; 11]);
    assert!(decode_response(&oversized_varint).is_err());
    assert!(decode_response(&[0x0b]).is_err());
}

#[test]
fn numbers_and_texts_read_back_from_the_wire() {
    let mut message = Vec::new();
    write_varint_field(&mut message, 5, u64::from(u32::MAX));
    write_bytes(&mut message, 6, "状态".as_bytes());
    write_bytes(&mut message, 77, b"skipped");
    let response = decode_response(&message).expect("response");
    assert_eq!(response.status_message, "状态");
    let mut bytes = Vec::new();
    write_varint(&mut bytes, 300);
    assert_eq!(bytes, [0xac, 0x02]);
    assert_eq!(FrameState::First.wire_number(), 1);
}

#[test]
fn an_empty_token_is_left_out_of_a_request() {
    let encoded = encode_request("", "M", &[], &[], "r", None);
    assert_eq!(
        encoded,
        [0x1a, 0x03, b'A', b'S', b'R', 0x2a, 0x01, b'M', 0x42, 0x01, b'r']
    );
}

fn bundle() -> RawBundle {
    RawBundle {
        schema: 1,
        registration_endpoint: "https://registration.invalid/service".to_owned(),
        settings_endpoint: "https://settings.invalid/service".to_owned(),
        user_agent: "fixture-agent".to_owned(),
        common_query: vec![
            ("aid".to_owned(), "fixture".to_owned()),
            ("cdid".to_owned(), "secret-cdid".to_owned()),
        ],
        device_id: "secret-device-id".to_owned(),
        install_id: "secret-install-id".to_owned(),
        websocket_endpoint: "wss://websocket.invalid/session?device_id=secret-device-id"
            .to_owned(),
        websocket_headers: vec![
            ("proto-version".to_owned(), "1".to_owned()),
            ("x-custom-keepalive".to_owned(), "1".to_owned()),
        ],
        session: parse_json(br#"{"audio_info":{"sample_rate":16000,"format":"speech_opus"}}"#)
            .expect("session JSON"),
    }
}

#[test]
fn parses_versioned_bundle_without_debug_exposure() {
    let secret = SecretString::try_new("{\"schema\":1}".to_owned()).ok().expect("bundle secret");
    let bundle = ManagedCredentialBundle::parse(&secret, Some(bundle()))
        .ok()
        .expect("credential bundle");
    let debug = bundle.redacted();
    assert!(!debug.contains("secret-device-id"));
    assert!(!debug.contains("fixture-agent"));
    assert_eq!(bundle.registered().device_id, "secret-device-id");
    assert_eq!(bundle.context().user_agent, "fixture-agent");
    assert_eq!(bundle.bootstrap().settings_endpoint, "https://settings.invalid/service");
}

#[test]
fn rejects_unknown_schema_and_control_bytes() {
    let secret = SecretString::try_new("bundle".to_owned()).ok().expect("bundle secret");
    let mut unknown = bundle();
    unknown.schema = 2;
    assert_eq!(
        ManagedCredentialBundle::parse(&secret, Some(unknown))
            .err()
            .expect("unknown schema")
            .code(),
        "doubao.credential_bundle_schema"
    );

    let mut control = bundle();
    control.device_id = "bad\nvalue".to_owned();
    assert_eq!(
        ManagedCredentialBundle::parse(&secret, Some(control))
            .err()
            .expect("control byte")
            .code(),
        "doubao.credential_bundle_field"
    );
    assert_eq!(
        ManagedCredentialBundle::parse(&secret, None).err().expect("undecodable").category(),
        ErrorCategory::Configuration
    );
}

#[test]
fn a_managed_run_takes_its_names_from_the_bundle() {
    let secret = SecretString::try_new("bundle".to_owned()).ok().expect("bundle secret");
    let config = ManagedDoubaoConfig {
        credentials: ManagedCredentialBundle::parse(&secret, Some(bundle())).ok().expect("bundle"),
        phase_timeout_nanos: 4,
        total_timeout_nanos: 5,
        frame_interval_nanos: 6,
    };
    let id = request_id(WallClock::Millis(1_700), 3).ok().expect("request id");
    assert_eq!(id, "voxtype-1700-3");
    assert!(request_id(WallClock::BeforeEpoch, 3).is_err());
    let run = managed_run(&config, id);
    assert_eq!(run.websocket.headers.len(), 2);
    assert_eq!(run.websocket.connect_timeout_nanos, 4);
    assert_eq!(run.total_timeout_nanos, 5);
    assert!(!run.redacted().contains("voxtype-1700"));
    assert!(!run.websocket.redacted().contains("secret"));
}

#[test]
fn a_token_is_refreshed_once_and_only_before_audio() {
    let expired = || {
        VoxError::new(ErrorCategory::Authentication, "doubao.start_task_auth_failed", "expired")
    };
    let fresh =
        ProviderAttemptFailure::after_transport(expired(), AudioAcceptance::NotAccepted);
    assert!(refreshes_token(&fresh, false));
    assert!(!refreshes_token(&fresh, true));
    let sent = ProviderAttemptFailure::after_transport(expired(), AudioAcceptance::Accepted);
    assert!(!refreshes_token(&sent, false));
}

#[test]
fn lifecycle_requires_final_before_session_finished() {
    let (mut protocol, token) = ready_protocol();
    let first = protocol.audio_request(1_000, &[1, 2, 3]).expect("first frame");
    assert_eq!(protocol.audio_acceptance(), AudioAcceptance::NotAccepted);
    protocol.confirm_audio_sent().expect("audio written");
    assert_eq!(protocol.audio_acceptance(), AudioAcceptance::PossiblyAccepted);
    assert!(!first.windows(2).any(|part| part == [0x12, 0x00]));
    protocol.finish_audio(1_020).expect("last marker");
    assert!(protocol.finish_session(&token).is_ok());

    let final_json = r#"{"extra":{"packet_number":2},"results":[{"text":" 完成 ","is_interim":false,"is_vad_finished":true}]}"#;
    let event = protocol
        .handle_binary(&result_message(final_json))
        .expect("final result")
        .expect("recognition event");
    assert!(matches!(event, SessionEvent::Recognition(_)));
    assert_eq!(protocol.audio_acceptance(), AudioAcceptance::Accepted);

    let finished = protocol
        .handle_binary(&response("request-fixture", "SessionFinished", None, None))
        .expect("SessionFinished")
        .expect("finished event");
    let SessionEvent::Finished(outcome) = finished else {
        panic!("expected finished outcome");
    };
    assert_eq!(outcome.transcript, " 完成 ");
    assert_eq!(outcome.sent_audio_frames, 1);
    assert_eq!(outcome.last_packet_number, Some(2));
    assert_eq!(protocol.phase(), SessionPhase::Finished);
}

#[test]
fn token_requests_are_redacted_and_ambiguous_writes_block_replay() {
    let token = token();
    let mut initial =
        DoubaoSessionProtocol::new("request-fixture".to_owned()).ok().expect("session");
    let start = initial.start_task(&token).ok().expect("StartTask");
    assert!(!start.redacted().contains("token-fixture"));
    assert!(!start.as_bytes().is_empty());

    let (mut protocol, _) = ready_protocol();
    protocol.audio_request(1_000, &[1]).expect("audio");
    protocol.mark_audio_write_ambiguous().expect("ambiguous socket write");
    assert_eq!(protocol.audio_acceptance(), AudioAcceptance::PossiblyAccepted);
    assert_eq!(protocol.sent_audio_frames(), 0);

    let heartbeat = r#"{"extra":{"packet_number":1}}"#;
    protocol.handle_binary(&result_message(heartbeat)).expect("packet heartbeat");
    assert_eq!(protocol.audio_acceptance(), AudioAcceptance::PossiblyAccepted);
}

#[test]
fn task_request_uses_observed_timestamp_payload() {
    let (mut protocol, _) = ready_protocol();
    let request = protocol.audio_request(123_456, &[1]).expect("audio request");
    assert!(request
        .windows(br#"{"extra":{},"timestamp_ms":123456}"#.len())
        .any(|window| window == br#"{"extra":{},"timestamp_ms":123456}"#));
}

#[test]
fn duplicate_packet_cannot_overwrite_newer_final() {
    let (mut protocol, token) = ready_protocol();
    protocol.audio_request(1_000, &[1]).expect("audio");
    protocol.confirm_audio_sent().expect("audio written");
    let final_json = r#"{"extra":{"packet_number":8},"results":[{"text":"最终","is_interim":false,"is_vad_finished":true}]}"#;
    protocol.handle_binary(&result_message(final_json)).expect("final");
    let stale_json = r#"{"extra":{"packet_number":7},"results":[{"text":"旧文本","is_interim":false,"is_vad_finished":true}]}"#;
    assert_eq!(
        protocol.handle_binary(&result_message(stale_json)).expect("stale packet"),
        Some(SessionEvent::DuplicateIgnored)
    );
    protocol.finish_audio(1_020).expect("last marker");
    assert!(protocol.finish_session(&token).is_ok());
    let finished = protocol
        .handle_binary(&response("request-fixture", "SessionFinished", None, None))
        .expect("finished")
        .expect("outcome");
    assert!(
        matches!(finished, SessionEvent::Finished(SessionOutcome { transcript, .. }) if transcript == "最终")
    );
}

#[test]
fn mismatched_request_and_empty_final_are_terminal_errors() {
    let (mut protocol, _) = ready_protocol();
    let error = protocol
        .handle_binary(&response("another-request", "Result", None, Some("{}")))
        .expect_err("request mismatch");
    assert_eq!(error.code(), "doubao.response_request_mismatch");
    assert_eq!(protocol.phase(), SessionPhase::Failed);

    let (mut protocol, _) = ready_protocol();
    protocol.audio_request(1_000, &[1]).expect("audio");
    protocol.confirm_audio_sent().expect("audio written");
    let empty_final = r#"{"results":[{"text":" ","is_interim":false,"is_vad_finished":true}]}"#;
    let error = protocol.handle_binary(&result_message(empty_final)).expect_err("empty final");
    assert_eq!(error.code(), "doubao.empty_final_transcript");
    assert_eq!(protocol.phase(), SessionPhase::Failed);
}

#[test]
fn nonzero_status_and_explicit_failure_are_terminal() {
    let (mut protocol, _) = ready_protocol();
    let mut failed = response("request-fixture", "Result", None, None);
    write_varint_field(&mut failed, 5, 17);
    let error = protocol.handle_binary(&failed).expect_err("non-zero status must fail");
    assert_eq!(error.code(), "doubao.remote_status_failed");
    assert_eq!(protocol.phase(), SessionPhase::Failed);

    let (mut protocol, _) = ready_protocol();
    let error = protocol
        .handle_binary(&response("request-fixture", "SessionFailed", None, None))
        .expect_err("explicit failure must fail");
    assert_eq!(error.code(), "doubao.remote_session_failed");
    assert_eq!(protocol.phase(), SessionPhase::Failed);
}

#[test]
fn start_task_token_failure_is_authentication_without_raw_message() {
    let token = token();
    let mut protocol =
        DoubaoSessionProtocol::new("request-fixture".to_owned()).ok().expect("session");
    assert!(protocol.start_task(&token).is_ok());
    let mut failed = response("request-fixture", "TaskFailed", None, None);
    write_bytes(&mut failed, 6, b"app_key token expired: provider-secret-detail");
    let error = protocol.handle_binary(&failed).expect_err("expired token must fail");
    assert_eq!(error.category(), ErrorCategory::Authentication);
    assert_eq!(error.code(), "doubao.start_task_auth_failed");
    assert!(!error.message().contains("provider-secret-detail"));
    assert_eq!(protocol.phase(), SessionPhase::Failed);
}

#[test]
fn cancellation_is_terminal_and_session_finished_needs_final_text() {
    let (mut protocol, _token) = ready_protocol();
    protocol.audio_request(1_000, &[1]).expect("audio");
    protocol.confirm_audio_sent().expect("audio written");
    protocol.cancel();
    assert_eq!(protocol.phase(), SessionPhase::Cancelled);
    let error =
        protocol.handle_binary(&result_message("{}")).expect_err("late result after cancel");
    assert_eq!(error.code(), "doubao.session_not_receiving");
    assert_eq!(protocol.phase(), SessionPhase::Cancelled);

    let (mut protocol, token) = ready_protocol();
    protocol.audio_request(1_000, &[1]).expect("audio");
    protocol.confirm_audio_sent().expect("audio written");
    protocol.finish_audio(1_020).expect("last marker");
    assert!(protocol.finish_session(&token).is_ok());
    let error = protocol
        .handle_binary(&response("request-fixture", "SessionFinished", None, None))
        .expect_err("missing final");
    assert_eq!(error.code(), "doubao.missing_final_transcript");
    assert_eq!(protocol.phase(), SessionPhase::Failed);
}

#[test]
fn multiple_results_aggregate_terminal_flags() {
    let response = ResponseEnvelope {
        result_json: r#"{"results":[{"text":"候选","is_interim":false},{"text":"最后","is_vad_finished":true,"extra":{"nonstream_result":true}}]}"#
            .as_bytes()
            .to_vec(),
        ..ResponseEnvelope::default()
    };
    let event = parse_recognition_event(&response)
        .expect("valid JSON")
        .expect("recognition event");
    assert_eq!(event.text.as_deref(), Some("最后"));
    assert!(!event.interim);
    assert!(event.vad_finished);
    assert!(event.final_result);
}

fn fixture_spec(endpoint: &str) -> WebSocketSpec {
    WebSocketSpec {
        endpoint: endpoint.to_owned(),
        headers: vec![
            ("User-Agent".to_owned(), "VoxType fixture".to_owned()),
            ("proto-version".to_owned(), "1".to_owned()),
            ("x-custom-keepalive".to_owned(), "1".to_owned()),
        ],
        connect_timeout_nanos: 2_000 * MILLI,
        poll_interval_nanos: 2 * MILLI,
    }
}

#[test]
fn validates_endpoint_and_redacts_handshake() {
    let spec = fixture_spec("ws://example.com/private?device_id=secret");
    let error = validate_spec(&spec).err().expect("remote plain WS must fail");
    assert_eq!(error.code(), "doubao.websocket_insecure_endpoint");
    assert!(!spec.redacted().contains("secret"));

    let mut reserved = fixture_spec("ws://127.0.0.1:1/socket");
    reserved.headers.push(("Host".to_owned(), "override".to_owned()));
    assert_eq!(
        validate_spec(&reserved).err().expect("reserved header").code(),
        "doubao.websocket_invalid_header"
    );
}

#[test]
fn an_endpoint_leads_to_a_host_and_a_port() {
    let parts = validate_spec(&fixture_spec("wss://Example.com/socket?x=1")).ok().expect("secure");
    let (host, port) = connect_target(parts).ok().expect("target");
    assert_eq!((host.as_str(), port), ("Example.com", 443));
    let parts = validate_spec(&fixture_spec("ws://127.0.0.1/socket")).ok().expect("loopback");
    assert_eq!(connect_target(parts).ok().expect("target").1, 80);
    let parts = validate_spec(&fixture_spec("ws://127.0.0.1:9000/x")).ok().expect("loopback");
    assert_eq!(connect_target(parts).ok().expect("target").1, 9_000);
    assert!(validate_spec(&fixture_spec("wss://exa mple.com/")).is_err());
    let spec = fixture_spec("wss://example.com/");
    let parts = validate_spec(&spec).ok().expect("secure");
    let plan = plan_connection(&spec, parts, 10, false).expect("plan");
    assert_eq!((plan.host.as_str(), plan.port), ("example.com", 443));
    assert_eq!(plan.deadline_nanos, 10 + 2_000 * MILLI);
    let parts = validate_spec(&spec).ok().expect("secure");
    let error = plan_connection(&spec, parts, 10, true).expect_err("cancelled before it begins");
    assert_eq!(error.category(), ErrorCategory::Cancelled);
}

#[test]
fn connection_attempts_end_in_time() {
    assert!(TcpAttempts::new(None).is_err());
    assert!(TcpAttempts::new(Some(0)).is_err());
    let mut attempts = TcpAttempts::new(Some(2)).ok().expect("two addresses");
    assert!(attempts.next_attempt(0, 1_000 * MILLI, false).is_ok());
    attempts.attempt_failed(false);
    let error = attempts.next_attempt(0, 1_000 * MILLI, true).err().expect("cancelled");
    assert_eq!(error.category(), ErrorCategory::Cancelled);
    assert!(handshake_step(5, 10, false).is_ok());
    assert_eq!(
        handshake_step(10, 10, false).err().expect("too late").category(),
        ErrorCategory::Timeout
    );
    assert_eq!(
        handshake_step(5, 10, true).err().expect("cancelled").category(),
        ErrorCategory::Cancelled
    );
}

#[test]
fn socket_outcomes_are_told_apart() {
    assert_eq!(queue_result(WriteOutcome::Written).ok(), Some(QueueBinaryResult::Queued));
    assert!(matches!(
        queue_result(WriteOutcome::Full(vec![1])),
        Ok(QueueBinaryResult::Full(bytes)) if bytes == [1]
    ));
    assert!(matches!(
        poll_result(ReadOutcome::Binary(vec![4, 5, 6])),
        Ok(PollResult::Event(SocketEvent::Binary(bytes))) if bytes == [4, 5, 6]
    ));
    assert!(matches!(poll_result(ReadOutcome::WouldBlock), Ok(PollResult::Idle)));
    let error = map_socket_error(SocketFault::Protocol, "doubao.websocket_read_failed");
    assert_eq!(error.category(), ErrorCategory::Protocol);
    let error = map_handshake_error(HandshakeFault::Http(401));
    assert_eq!(error.category(), ErrorCategory::Authentication);
    assert_eq!(cancelled().into_vox_error().category(), ErrorCategory::Cancelled);
    let failure = connect_failure(cancelled());
    assert!(failure.transport_started);
    assert_eq!(failure.audio_acceptance, AudioAcceptance::NotAccepted);
}

#[test]
fn opus_packets_are_checked() {
    let mut pcm = [0_u8; 640];
    pcm[0] = 0x34;
    pcm[1] = 0x12;
    pcm[639] = 0x80;
    let samples = frame_samples(&pcm);
    assert_eq!(samples.len(), 320);
    assert_eq!(samples[0], 0x1234);
    assert_eq!(samples[319], i16::MIN);
    let mut buffer = vec![0_u8; 1275];
    buffer[0] = 1;
    buffer[1] = 2;
    buffer[2] = 3;
    assert_eq!(finish_packet(buffer, 3).expect("packet"), [1, 2, 3]);
    assert!(finish_packet(vec![0_u8; 1275], 0).is_err());
    assert!(finish_packet(vec![0_u8; 1275], 1276).is_err());
    assert_eq!(OpusCodecError::new("x").message(), "x");
    assert_eq!(encoder_unavailable().error.code(), "doubao.opus_unavailable");
}

/// A far end that answers as the service does.
struct FarEnd {
    inbox: Vec<Vec<u8>>,
    task_requests: u64,
    silent: bool,
}

fn request_method(message: &[u8]) -> String {
    let mut cursor = 0;
    while cursor < message.len() {
        let key = read_varint(message, &mut cursor);
        let field = key >> 3;
        let wire = key & 7;
        if wire == 2 {
            let length = usize::try_from(read_varint(message, &mut cursor)).expect("length");
            let end = cursor + length;
            if field == 5 {
                return String::from_utf8(message[cursor..end].to_vec()).expect("method UTF-8");
            }
            cursor = end;
        } else if wire == 0 {
            let _ = read_varint(message, &mut cursor);
        } else {
            panic!("unexpected fixture wire type");
        }
    }
    String::new()
}

fn read_varint(message: &[u8], cursor: &mut usize) -> u64 {
    let mut value = 0_u64;
    for shift in (0..70).step_by(7) {
        let byte = message[*cursor];
        *cursor += 1;
        value |= u64::from(byte & 0x7f) << shift;
        if byte & 0x80 == 0 {
            return value;
        }
    }
    panic!("invalid fixture varint")
}

impl FarEnd {
    fn take(&mut self, message: &[u8]) {
        if self.silent {
            return;
        }
        let answer = |kind: &str, result: Option<&str>| {
            response("request-runner", kind, None, result)
        };
        match request_method(message).as_str() {
            "StartTask" => self.inbox.push(answer("TaskStarted", None)),
            "StartSession" => self.inbox.push(answer("SessionStarted", None)),
            "TaskRequest" => {
                self.task_requests += 1;
                if self.task_requests == 1 {
                    self.inbox.push(answer(
                        "Result",
                        Some(r#"{"extra":{"packet_number":1,"vad_start":true},"results":[{"text":"部","is_interim":true}]}"#),
                    ));
                }
            }
            "FinishSession" => {
                self.inbox.push(answer(
                    "Result",
                    Some(r#"{"extra":{"packet_number":2},"results":[{"text":"完整结果","is_interim":false,"is_vad_finished":true}]}"#),
                ));
                self.inbox.push(answer("SessionFinished", None));
            }
            method => panic!("unexpected method {method}"),
        }
    }
}

fn run(
    config: &DoubaoRunConfig,
    pcm: &[u8],
    far_end: &mut FarEnd,
    cancel_at: Option<u64>,
) -> Result<DoubaoTranscription, ProviderAttemptFailure> {
    let token = token();
    let protocol = prepare_run(config, PcmFile::Bytes(pcm.len() as u64))?;
    let mut now: u64 = 0;
    let mut driver = SessionDriver::new(protocol, config, now);
    let mut event = DriverEvent::Begin;
    let mut at = 0;
    let mut framer_end = false;
    loop {
        assert!(driver.expects(&event));
        let moment = Moment {
            now_nanos: now,
            is_cancelled: cancel_at.is_some_and(|limit| now >= limit),
        };
        let action = match driver.advance(config, &token, event, moment) {
            Ok(action) => action,
            Err(error) => {
                assert_eq!(driver.stage(), Stage::Failed);
                return Err(driver.conclude(error));
            }
        };
        event = match action {
            DriverAction::Queue(payload) => {
                far_end.take(&payload);
                DriverEvent::Queued(Ok(QueueBinaryResult::Queued))
            }
            DriverAction::Flush => DriverEvent::Flushed(Ok(FlushResult::Flushed)),
            DriverAction::Poll => DriverEvent::Polled(Ok(if far_end.inbox.is_empty() {
                PollResult::Idle
            } else {
                PollResult::Event(SocketEvent::Binary(far_end.inbox.remove(0)))
            })),
            DriverAction::Rest(nanos) => {
                now += nanos.max(1);
                DriverEvent::Rested
            }
            DriverAction::ReadClock => DriverEvent::Clock(WallClock::Millis(1_000)),
            DriverAction::ReadFrame => {
                assert!(!framer_end || at >= pcm.len());
                let end = pcm.len().min(at + 640);
                let frame = read_pcm_frame(Some(&pcm[at..end]));
                framer_end = end - at < 640;
                at = end;
                DriverEvent::Frame(frame)
            }
            DriverAction::Encode(frame) => {
                DriverEvent::Encoded(Ok(vec![frame[0], frame[1], 7]))
            }
            DriverAction::Finish(transcription) => return Ok(transcription),
        };
    }
}

fn run_config(request_id: &str, phase_timeout_nanos: u64) -> DoubaoRunConfig {
    DoubaoRunConfig {
        websocket: WebSocketSpec {
            endpoint: "ws://127.0.0.1:9000/session".to_owned(),
            headers: vec![("User-Agent".to_owned(), "fixture".to_owned())],
            connect_timeout_nanos: 2_000 * MILLI,
            poll_interval_nanos: MILLI,
        },
        request_id: request_id.to_owned(),
        session_json: br#"{"audio_info":{"sample_rate":16000}}"#.to_vec(),
        phase_timeout_nanos,
        total_timeout_nanos: 5_000 * MILLI,
        frame_interval_nanos: 0,
    }
}

#[test]
fn loopback_runs_full_duplex_session_with_partial_tail() {
    let mut pcm = vec![1_u8; 640 * 2 + 100];
    pcm[640] = 2;
    let mut far_end = FarEnd { inbox: Vec::new(), task_requests: 0, silent: false };
    let transcription =
        run(&run_config("request-runner", 2_000 * MILLI), &pcm, &mut far_end, None)
            .ok()
            .expect("full runner session");
    assert_eq!(transcription.text, "完整结果");
    assert_eq!(transcription.sent_audio_millis, 60);
    assert_eq!(transcription.partial_results, 1);
    assert!(transcription.provider_vad_started);
    assert!(transcription.provider_vad_finished);
    assert_eq!(far_end.task_requests, 4);
}

#[test]
fn phase_timeout_retains_not_accepted_evidence() {
    let mut far_end = FarEnd { inbox: Vec::new(), task_requests: 0, silent: true };
    let error = run(&run_config("request-timeout", 100 * MILLI), &[1_u8; 640], &mut far_end, None)
        .err()
        .expect("TaskStarted timeout");
    assert_eq!(error.error.category(), ErrorCategory::Timeout);
    assert_eq!(error.audio_acceptance, AudioAcceptance::NotAccepted);
    assert!(error.transport_started);
}

#[test]
fn a_cancelled_attempt_stops_before_its_next_message() {
    let mut far_end = FarEnd { inbox: Vec::new(), task_requests: 0, silent: true };
    let error = run(
        &run_config("request-cancel", 2_000 * MILLI),
        &[1_u8; 640],
        &mut far_end,
        Some(20 * MILLI),
    )
    .err()
    .expect("cancelled");
    assert_eq!(error.error.category(), ErrorCategory::Cancelled);
    assert_eq!(far_end.task_requests, 0);
}

#[test]
fn an_attempt_is_checked_before_it_connects() {
    let mut config = run_config("request", 2_000 * MILLI);
    let error = prepare_run(&config, PcmFile::Bytes(3)).err().expect("odd length");
    assert_eq!(error.error.code(), "doubao.invalid_pcm");
    assert!(!error.transport_started);
    let error = prepare_run(&config, PcmFile::Unopened).err().expect("unopened");
    assert_eq!(error.error.code(), "doubao.pcm_open_failed");
    config.session_json = b"[]".to_vec();
    assert!(prepare_run(&config, PcmFile::Bytes(640)).is_err());
    config.session_json = b"{}".to_vec();
    config.request_id = String::new();
    let error = prepare_run(&config, PcmFile::Bytes(640)).err().expect("no request id");
    assert_eq!(error.audio_acceptance, AudioAcceptance::NotAccepted);
    assert!(read_pcm_frame(None).is_err());
    assert_eq!(read_pcm_frame(Some(&[])).expect("end"), None);
    let frame = read_pcm_frame(Some(&[5; 100])).expect("tail").expect("padded");
    assert_eq!((frame[99], frame[100]), (5, 0));
}

#[test]
fn socket_errors_keep_their_evidence() {
    let error: WebSocketTransportError =
        map_handshake_error(HandshakeFault::Io);
    assert!(error.is_retryable());
    assert!(!error.message().is_empty());
    assert!(!error.code().is_empty());
}
