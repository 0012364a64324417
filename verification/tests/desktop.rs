//! The input-method bridge, text insertion and the clipboard.

use voxtype::desktop::{paste_chord, ClipboardInserter, RestoreStep};
use voxtype::error::{ErrorCategory, VoxError};
use voxtype::fcitx::{
    encode_message, expect_dispatched, expect_dispatched_for, expect_ok, parse_arm_response,
    parse_context_response, retry_message, runtime_unavailable, transport_failed, CommitStep,
    FcitxBridge, FcitxContext, FcitxTarget, RetryStep,
};
use voxtype::insertion::{
    arms_fcitx, clipboard_outcome, fcitx_outcome, may_auto_fallback_from_fcitx, CommitRoute,
    DesktopInsertionAdapter,
};
use voxtype::ports::InsertionMode;
use voxtype::session::SessionId;

#[test]
fn parses_secure_context_error() {
    let error = expect_ok(b"ERR\0secure-context").expect_err("must reject");
    assert_eq!(error.category(), ErrorCategory::Permission);
}

#[test]
fn accepts_ok_response() {
    expect_ok(b"OK\0armed").expect("OK response");
}

#[test]
fn commit_requires_final_dispatch_confirmation() {
    expect_dispatched(b"OK\0dispatched").expect("confirmed dispatch");
    expect_dispatched(b"OK\0committed").expect("accept previous addon during upgrade");
    let error = expect_dispatched(b"OK\0queued").expect_err("queued is not dispatched");
    assert_eq!(error.code(), "fcitx.dispatch_unconfirmed");
}

#[test]
fn commit_ack_must_echo_request_id() {
    expect_dispatched_for(b"OK\0dispatched\0req-1", "req-1").expect("matching request id");
    let error = expect_dispatched_for(b"OK\0dispatched\0req-2", "req-1")
        .expect_err("mismatched request id");
    assert_eq!(error.code(), "fcitx.dispatch_unconfirmed");
}

#[test]
fn rejects_oversized_bridge_message_before_send() {
    let text = vec![b'x'; 60 * 1024];
    let error = encode_message(&[b"PING", text.as_slice()]).expect_err("must reject");
    assert_eq!(error.code(), "fcitx.message_too_large");
}

#[test]
fn transport_retry_reuses_the_same_commit_request_id() {
    let message =
        encode_message(&[b"COMMIT2", b"req-test", b"session-1", b"hello"]).expect("message");
    let mut attempts = Vec::new();
    let mut send = |attempt: &[u8]| {
        attempts.push(attempt.to_vec());
        if attempts.len() == 1 {
            Err(VoxError::new(
                ErrorCategory::Unavailable,
                "fcitx.transport_failed",
                "simulated lost ACK",
            ))
        } else {
            Ok(b"OK\0dispatched\0req-test".to_vec())
        }
    };
    let response = match retry_message(send(&message)) {
        RetryStep::Answered(response) => response,
        RetryStep::SendAgain => send(&message).expect("retry succeeds"),
        RetryStep::Failed(error) => panic!("{error:?}"),
    };
    expect_dispatched_for(&response, "req-test").expect("matching retry ack");
    assert_eq!(attempts.len(), 2);
    assert_eq!(attempts[0], attempts[1]);
}

#[test]
fn only_a_lost_transport_is_tried_again() {
    assert!(matches!(retry_message(Ok(vec![1])), RetryStep::Answered(bytes) if bytes == [1]));
    let rejected = VoxError::new(ErrorCategory::Permission, "fcitx.bridge_rejected", "no");
    assert!(matches!(
        retry_message(Err(rejected)),
        RetryStep::Failed(error) if error.code() == "fcitx.bridge_rejected"
    ));
}

#[test]
fn parses_armed_target() {
    let target = parse_arm_response(b"OK\0armed\0kate\0wayland").expect("target response");
    assert_eq!(target.program, "kate");
    assert_eq!(target.frontend, "wayland");
}

#[test]
fn parses_bounded_context_and_selection() {
    let response = encode_message(&[
        b"OK",
        b"context",
        b"kate",
        b"wayland",
        b"42",
        b"3",
        b"1",
        b"surrounding-text,multiline",
        b"0",
        "abc中".as_bytes(),
    ])
    .expect("response encoding");
    let context = parse_context_response(&response).expect("context response");
    assert_eq!(context.generation, 42);
    assert_eq!(context.cursor, 3);
    assert_eq!(context.anchor, 1);
    assert_eq!(context.review_text(), "bc");
    assert_eq!(context.text, "abc中");
    assert!(context.capabilities.contains(&"multiline".to_owned()));
}

#[test]
fn context_without_selection_returns_text_before_cursor() {
    let context = FcitxContext {
        target: FcitxTarget { program: "kate".to_owned(), frontend: "wayland".to_owned() },
        generation: 1,
        cursor: 4,
        anchor: 4,
        capabilities: vec!["surrounding-text".to_owned()],
        truncated: false,
        text: "前文内容后文".to_owned(),
    };
    assert_eq!(context.review_text(), "前文内容");
}

#[test]
fn normalizes_empty_target_identity() {
    let target = parse_arm_response(b"OK\0armed\0\0wayland").expect("target response");
    assert_eq!(target.program, "unknown");
    assert_eq!(target.frontend, "wayland");
}

#[test]
fn rejects_empty_diagnostic_commit() {
    let error = FcitxBridge
        .commit_test("  ")
        .expect_err("empty diagnostic commit must fail locally");
    assert_eq!(error.code(), "fcitx.empty_test");
}

#[test]
fn bridge_messages_are_parts_between_zeros() {
    assert_eq!(FcitxBridge.ping().expect("ping"), b"PING");
    let session = SessionId::from_counter(7);
    assert_eq!(FcitxBridge.arm(&session).expect("arm"), b"ARM\0session-7");
    assert_eq!(FcitxBridge.cancel(&session).expect("cancel"), b"CANCEL\0session-7");
    let message = FcitxBridge.commit("req", &session, "hi").expect("commit");
    assert_eq!(message, b"COMMIT2\0req\0session-7\0hi");
    assert_eq!(FcitxBridge.commit_plain(&session, "hi").expect("plain"), b"COMMIT\0session-7\0hi");
    assert_ne!(FcitxBridge.request_id(1, 2), FcitxBridge.request_id(1, 3));
}

#[test]
fn an_older_bridge_is_asked_in_its_own_words() {
    assert_eq!(
        FcitxBridge.finish_commit(b"OK\0dispatched\0req", "req").expect("confirmed"),
        CommitStep::Committed
    );
    assert_eq!(
        FcitxBridge.finish_commit(b"ERR\0unknown-command", "req").expect("older"),
        CommitStep::TryPlain
    );
    assert!(FcitxBridge.finish_commit(b"ERR\0secure-context", "req").is_err());
}

#[test]
fn broken_context_answers_are_refused() {
    assert!(parse_context_response(b"OK\0context\0kate").is_err());
    assert!(parse_context_response(b"ERR\0no-focus").is_err());
    assert!(FcitxBridge.arm_target(Err(transport_failed("x"))).is_err());
    assert_eq!(runtime_unavailable().category(), ErrorCategory::Unavailable);
}

#[test]
fn automatic_fallback_never_bypasses_focus_or_security_rejection() {
    let secure =
        VoxError::new(ErrorCategory::Permission, "fcitx.bridge_rejected", "secure context");
    let missing_focus =
        VoxError::new(ErrorCategory::InvalidState, "fcitx.bridge_rejected", "no focused context");
    let unavailable =
        VoxError::new(ErrorCategory::Unavailable, "fcitx.transport_failed", "socket unavailable");
    assert!(!may_auto_fallback_from_fcitx(&secure));
    assert!(!may_auto_fallback_from_fcitx(&missing_focus));
    assert!(may_auto_fallback_from_fcitx(&unavailable));
}

#[test]
fn a_rejected_target_is_never_pasted_into() {
    let adapter = DesktopInsertionAdapter::new(true);
    let session = SessionId::from_counter(1);
    let rejected =
        || VoxError::new(ErrorCategory::Permission, "fcitx.bridge_rejected", "secure context");
    assert!(adapter.arm(InsertionMode::Auto, &session, Err(rejected())).is_err());
    assert!(adapter.arm(InsertionMode::Fcitx, &session, Err(rejected())).is_err());
    let lost = || transport_failed("gone");
    let arm = adapter.arm(InsertionMode::Auto, &session, Err(lost())).expect("fallback");
    assert_eq!(adapter.commit(&arm).expect("route"), CommitRoute::Copy);
    assert!(!adapter.cancel(&arm));
    let arm = adapter.arm(InsertionMode::Fcitx, &session, Ok(())).expect("armed");
    assert_eq!(adapter.commit(&arm).expect("route"), CommitRoute::Fcitx);
    assert!(adapter.cancel(&arm));
    let arm = adapter.arm(InsertionMode::Clipboard, &session, Ok(())).expect("armed");
    assert_eq!(adapter.commit(&arm).expect("route"), CommitRoute::Paste);
    assert!(arms_fcitx(InsertionMode::Auto));
    assert!(!arms_fcitx(InsertionMode::Copy));
    assert_eq!(fcitx_outcome().backend, "fcitx5");
}

#[test]
fn clipboard_outcomes_keep_their_route() {
    let inserter = ClipboardInserter::default();
    let outcome = clipboard_outcome(CommitRoute::Paste, Ok(inserter.inserted(true))).expect("paste");
    assert!(outcome.clipboard_restored);
    let copied = inserter.copy("text").expect("copied");
    let outcome = clipboard_outcome(CommitRoute::Copy, Ok(copied)).expect("copy");
    assert!(!outcome.clipboard_restored);
    assert!(clipboard_outcome(CommitRoute::Copy, Err("no clipboard")).is_err());
}

#[test]
fn default_restore_delay_allows_paste_consumer_to_read() {
    assert!(ClipboardInserter::default().restore_delay_millis() >= 100);
}

#[test]
fn the_clipboard_is_put_back_as_it_was() {
    let inserter = ClipboardInserter::default();
    assert!(inserter.insert("").is_err());
    assert!(inserter.insert("x").is_ok());
    assert_eq!(inserter.restore_step(Some(vec![1, 2])), RestoreStep::Write(vec![1, 2]));
    assert_eq!(inserter.restore_step(None), RestoreStep::Clear);
    let keeping = inserter.with_restore(false);
    assert_eq!(keeping.restore_step(Some(vec![1])), RestoreStep::Leave);
    assert!(!paste_chord().is_empty());
}

#[test]
fn runtime_has_a_program_name() {
    for (has_lib, has_libexec) in [(true, true), (false, true), (false, false)] {
        assert!(!voxtype::desktop::runtime(None, has_lib, has_libexec).is_empty());
    }
    assert_eq!(voxtype::desktop::runtime(Some("/opt/qml"), false, false), "/opt/qml");
}
