//! Strict provider-session lifecycle independent of the WebSocket implementation.

use crate::doubao::recognition::{
    recognition_in, recognition_of, RecognitionEvent, RecognitionModel,
};
use crate::doubao::wire::{
    decode_response, decoded, encode_request, request_bytes, EnvelopeModel, FrameState,
    ResponseEnvelope,
};
use crate::error::ErrorCategory;
use crate::json::{json_document, optional_model, parse_json, Json, JsonModel};
use crate::provider::AudioAcceptance;
use crate::secret::{lacks_control_bytes, no_control_bytes, SecretRequest, SecretString};
use crate::text::{
    blank, contains, contains_text, decimal, first_chars, is_blank, join3, lower_unicode_text,
    same_text, take_chars, unicode_lowered, write_number,
};
use vstd::prelude::*;
use vstd::string::*;
use vstd::utf8::*;

verus! {

pub const MAX_REQUEST_ID_BYTES: usize = 128;

pub const MAX_SESSION_JSON_BYTES: usize = 262_144;

pub const MAX_OPUS_PACKET_BYTES: usize = 1275;

pub const LAST_FRAME_MARKER_BYTES: usize = 100;

#[derive(Clone, Copy, Debug, Eq, PartialEq, Structural)]
pub enum SessionPhase {
    Disconnected,
    TaskStarting,
    TaskStarted,
    SessionStarting,
    Streaming,
    Finishing,
    Finished,
    Failed,
    Cancelled,
}

/// How far the audio of the session has come.
#[derive(Clone, Copy, Debug, Eq, PartialEq, Structural)]
pub enum InputState {
    Open,
    AudioRequestPending,
    Finished,
}

#[derive(Debug, Eq, PartialEq)]
pub struct SessionOutcome {
    pub transcript: String,
    pub task_id: Option<String>,
    pub sent_audio_frames: u64,
    pub last_packet_number: Option<u64>,
    pub provider_vad_started: bool,
    pub provider_vad_finished: bool,
}

#[derive(Debug, Eq, PartialEq)]
pub enum SessionEvent {
    TaskStarted,
    SessionStarted,
    Recognition(RecognitionEvent),
    DuplicateIgnored,
    Finished(SessionOutcome),
}

/// What an outcome says.
pub struct OutcomeModel {
    pub transcript: Seq<char>,
    pub task_id: Option<Seq<char>>,
    pub sent_audio_frames: u64,
    pub last_packet_number: Option<u64>,
    pub provider_vad_started: bool,
    pub provider_vad_finished: bool,
}

/// What an event says.
pub enum EventModel {
    TaskStarted,
    SessionStarted,
    Recognition(RecognitionModel),
    DuplicateIgnored,
    Finished(OutcomeModel),
}

pub open spec fn opt_view(text: Option<String>) -> Option<Seq<char>> {
    match text {
        Some(text) => Some(text@),
        None => None,
    }
}

impl SessionOutcome {
    pub open spec fn view(&self) -> OutcomeModel {
        OutcomeModel {
            transcript: self.transcript@,
            task_id: opt_view(self.task_id),
            sent_audio_frames: self.sent_audio_frames,
            last_packet_number: self.last_packet_number,
            provider_vad_started: self.provider_vad_started,
            provider_vad_finished: self.provider_vad_finished,
        }
    }
}

impl SessionEvent {
    pub open spec fn view(&self) -> EventModel {
        match self {
            SessionEvent::TaskStarted => EventModel::TaskStarted,
            SessionEvent::SessionStarted => EventModel::SessionStarted,
            SessionEvent::Recognition(event) => EventModel::Recognition(event@),
            SessionEvent::DuplicateIgnored => EventModel::DuplicateIgnored,
            SessionEvent::Finished(outcome) => EventModel::Finished(outcome@),
        }
    }
}

/// A session that did not follow its lifecycle.
#[derive(Clone, Copy, Debug, Eq, PartialEq)]
pub struct SessionProtocolError {
    category: ErrorCategory,
    code: &'static str,
    message: &'static str,
}

impl SessionProtocolError {
    pub closed spec fn kind(self) -> ErrorCategory {
        self.category
    }

    pub closed spec fn code_text(self) -> Seq<char> {
        self.code@
    }

    pub closed spec fn message_text(self) -> Seq<char> {
        self.message@
    }

    /// The error says exactly this.
    pub open spec fn says(
        self,
        category: ErrorCategory,
        code: Seq<char>,
        message: Seq<char>,
    ) -> bool {
        self.kind() == category && self.code_text() == code && self.message_text() == message
    }

    fn with_category(
        category: ErrorCategory,
        code: &'static str,
        message: &'static str,
    ) -> (error: Self)
        ensures
            error.says(category, code@, message@),
    {
        SessionProtocolError { category, code, message }
    }

    pub fn category(self) -> (r: ErrorCategory)
        ensures
            r == self.kind(),
    {
        self.category
    }

    pub fn code(self) -> (r: &'static str)
        ensures
            r@ == self.code_text(),
    {
        self.code
    }

    pub fn message(self) -> (r: &'static str)
        ensures
            r@ == self.message_text(),
    {
        self.message
    }
}

/// What the protocol knows of its session.
pub struct SessionModel {
    pub request_id: Seq<char>,
    pub phase: SessionPhase,
    pub task_id: Option<Seq<char>>,
    pub sent_audio_frames: u64,
    pub input: InputState,
    pub audio_acceptance: AudioAcceptance,
    pub last_packet_number: Option<u64>,
    pub final_transcript: Option<Seq<char>>,
    pub provider_vad_started: bool,
    pub provider_vad_finished: bool,
}

/// Why something is refused: its code and its message.
pub type Complaint = (Seq<char>, Seq<char>);

/// A session that has not been connected yet.
pub open spec fn new_session(request_id: Seq<char>) -> SessionModel {
    SessionModel {
        request_id,
        phase: SessionPhase::Disconnected,
        task_id: None,
        sent_audio_frames: 0,
        input: InputState::Open,
        audio_acceptance: AudioAcceptance::NotAccepted,
        last_packet_number: None,
        final_transcript: None,
        provider_vad_started: false,
        provider_vad_finished: false,
    }
}

/// A request id has one to 128 bytes and no control bytes.
pub open spec fn proper_request_id(bytes: Seq<u8>) -> bool {
    0 < bytes.len() <= MAX_REQUEST_ID_BYTES && no_control_bytes(bytes)
}

/// The session after a failure, which is terminal; a cancelled session stays cancelled.
pub open spec fn broken(session: SessionModel) -> SessionModel {
    SessionModel {
        phase: if session.phase == SessionPhase::Cancelled {
            SessionPhase::Cancelled
        } else {
            SessionPhase::Failed
        },
        ..session
    }
}

/// The complaint about a step in the wrong phase.
pub open spec fn wrong_phase(code: Seq<char>) -> Complaint {
    (code, "Doubao session lifecycle transition is invalid"@)
}

/// Why no audio request is built.
pub open spec fn audio_complaint(session: SessionModel, packet_bytes: nat) -> Option<Complaint> {
    if session.phase != SessionPhase::Streaming {
        Some(wrong_phase("doubao.session_not_streaming"@))
    } else if session.input == InputState::Finished {
        Some(("doubao.audio_already_finished"@, "Doubao audio input is already finished"@))
    } else if session.input == InputState::AudioRequestPending {
        Some(
            (
                "doubao.audio_request_pending"@,
                "Doubao audio request must be confirmed before building another frame"@,
            ),
        )
    } else if packet_bytes == 0 || packet_bytes > MAX_OPUS_PACKET_BYTES {
        Some(("doubao.invalid_opus_packet"@, "Doubao audio packet is empty or oversized"@))
    } else {
        None
    }
}

/// Why the audio is not finished.
pub open spec fn finish_complaint(session: SessionModel) -> Option<Complaint> {
    if session.phase != SessionPhase::Streaming {
        Some(wrong_phase("doubao.session_not_streaming"@))
    } else if session.input == InputState::Finished {
        Some(("doubao.audio_already_finished"@, "Doubao audio input is already finished"@))
    } else if session.input == InputState::AudioRequestPending {
        Some(
            (
                "doubao.audio_request_pending"@,
                "Doubao audio request must be confirmed before finishing input"@,
            ),
        )
    } else if session.sent_audio_frames == 0 {
        Some(
            (
                "doubao.no_audio_frames"@,
                "Doubao session cannot finish before a real audio frame"@,
            ),
        )
    } else {
        None
    }
}

/// Why a pending audio request is not taken note of.
pub open spec fn pending_complaint(session: SessionModel, message: Seq<char>) -> Option<
    Complaint,
> {
    if session.phase != SessionPhase::Streaming {
        Some(wrong_phase("doubao.session_not_streaming"@))
    } else if session.input != InputState::AudioRequestPending {
        Some(("doubao.no_pending_audio_request"@, message))
    } else {
        None
    }
}

/// Why the session is not finished.
pub open spec fn finish_session_complaint(session: SessionModel) -> Option<Complaint> {
    if session.phase != SessionPhase::Streaming {
        Some(wrong_phase("doubao.session_not_streaming"@))
    } else if session.input != InputState::Finished {
        Some(("doubao.audio_not_finished"@, "Doubao audio must finish before FinishSession"@))
    } else {
        None
    }
}

/// A session description is a JSON object of at most 256 KiB.
pub open spec fn proper_description(bytes: nat, document: Option<JsonModel>) -> bool {
    bytes <= MAX_SESSION_JSON_BYTES && document is Some && document->0 is Object
}

/// The JSON that goes with an audio frame.
pub open spec fn timestamp_text(timestamp_millis: nat) -> Seq<char> {
    "{\"extra\":{},\"timestamp_ms\":"@ + decimal(timestamp_millis) + "}"@
}

/// Whether a reply reads like a rejected credential.
pub open spec fn reads_like_auth(text: Seq<char>) -> bool {
    ||| contains_text(text, "token"@)
    ||| contains_text(text, "auth"@)
    ||| contains_text(text, "credential"@)
    ||| contains_text(text, "app_key"@)
    ||| contains_text(text, "unauthorized"@)
    ||| contains_text(text, "forbidden"@)
}

/// A response that says that the credential was rejected.
pub open spec fn auth_like(response: EnvelopeModel) -> bool {
    ||| response.status_code == 401
    ||| response.status_code == 403
    ||| reads_like_auth(unicode_lowered(first_chars(response.status_message, 1024)))
}

/// What a message from the provider leads to.
pub enum Reply {
    Refused(ErrorCategory, Seq<char>, Seq<char>),
    Nothing,
    Event(EventModel),
}

/// The session fails with a protocol error.
pub open spec fn fails(session: SessionModel, code: Seq<char>, message: Seq<char>) -> (
    SessionModel,
    Reply,
) {
    (broken(session), Reply::Refused(ErrorCategory::Protocol, code, message))
}

/// The session fails because the credential was rejected.
pub open spec fn rejects_credential(session: SessionModel) -> (SessionModel, Reply) {
    (
        broken(session),
        Reply::Refused(
            ErrorCategory::Authentication,
            "doubao.start_task_auth_failed"@,
            "Doubao rejected the StartTask credential"@,
        ),
    )
}

/// A packet that was overtaken by a newer one.
pub open spec fn outdated(session: SessionModel, event: RecognitionModel) -> bool {
    &&& event.packet_number is Some
    &&& session.last_packet_number is Some
    &&& event.packet_number->0 <= session.last_packet_number->0
}

/// The session with what a result says of packets, speech and audio.
pub open spec fn noted(session: SessionModel, event: RecognitionModel) -> SessionModel {
    SessionModel {
        last_packet_number: if event.packet_number is Some {
            event.packet_number
        } else {
            session.last_packet_number
        },
        provider_vad_started: session.provider_vad_started || event.vad_started,
        provider_vad_finished: session.provider_vad_finished || event.vad_finished,
        audio_acceptance: if event.vad_started || event.text is Some || event.final_result {
            AudioAcceptance::Accepted
        } else {
            session.audio_acceptance
        },
        ..session
    }
}

/// What a recognition result leads to.
pub open spec fn on_result(session: SessionModel, event: RecognitionModel) -> (
    SessionModel,
    Reply,
) {
    if outdated(session, event) {
        (session, Reply::Event(EventModel::DuplicateIgnored))
    } else if event.final_result && (event.text is None || blank(event.text->0)) {
        fails(
            noted(session, event),
            "doubao.empty_final_transcript"@,
            "Doubao returned an empty final transcript"@,
        )
    } else {
        (
            SessionModel {
                final_transcript: if event.final_result {
                    event.text
                } else {
                    session.final_transcript
                },
                ..noted(session, event)
            },
            Reply::Event(EventModel::Recognition(event)),
        )
    }
}

/// What a response leads to that carries no lifecycle message.
pub open spec fn on_data(
    session: SessionModel,
    response: EnvelopeModel,
    document: Option<JsonModel>,
) -> (SessionModel, Reply) {
    if response.result_json.len() == 0 {
        (session, Reply::Nothing)
    } else if session.phase != SessionPhase::Streaming && session.phase
        != SessionPhase::Finishing {
        fails(
            session,
            "doubao.result_before_session_started"@,
            "Doubao returned recognition data before the session started"@,
        )
    } else if document is None {
        fails(
            session,
            "doubao.invalid_result_json"@,
            "Doubao returned malformed recognition result JSON"@,
        )
    } else {
        on_result(session, recognition_of(document->0))
    }
}

/// What the end of the session leads to.
pub open spec fn on_finished(session: SessionModel) -> (SessionModel, Reply) {
    if session.phase != SessionPhase::Finishing {
        let why = wrong_phase("doubao.unexpected_session_finished"@);
        fails(session, why.0, why.1)
    } else if session.final_transcript is None {
        fails(
            session,
            "doubao.missing_final_transcript"@,
            "Doubao finished the session without a final transcript"@,
        )
    } else {
        (
            SessionModel { phase: SessionPhase::Finished, ..session },
            Reply::Event(
                EventModel::Finished(
                    OutcomeModel {
                        transcript: session.final_transcript->0,
                        task_id: session.task_id,
                        sent_audio_frames: session.sent_audio_frames,
                        last_packet_number: session.last_packet_number,
                        provider_vad_started: session.provider_vad_started,
                        provider_vad_finished: session.provider_vad_finished,
                    },
                ),
            ),
        )
    }
}

/// What a decoded response leads to, with the document that its result holds.
pub open spec fn responded(
    session: SessionModel,
    response: EnvelopeModel,
    document: Option<JsonModel>,
) -> (SessionModel, Reply) {
    let starting = session.phase == SessionPhase::TaskStarting;
    if response.request_id != session.request_id {
        fails(
            session,
            "doubao.response_request_mismatch"@,
            "Doubao response request ID does not match the active session"@,
        )
    } else if response.service.len() > 0 && response.service != "ASR"@ {
        fails(
            session,
            "doubao.response_service_mismatch"@,
            "Doubao response service does not match ASR"@,
        )
    } else if response.status_code != 0 {
        if starting && auth_like(response) {
            rejects_credential(session)
        } else {
            fails(
                session,
                "doubao.remote_status_failed"@,
                "Doubao returned a non-zero protocol status"@,
            )
        }
    } else if response.message_type == "TaskFailed"@ && starting && auth_like(response) {
        rejects_credential(session)
    } else if response.message_type == "TaskFailed"@ || response.message_type
        == "SessionFailed"@ {
        fails(
            session,
            "doubao.remote_session_failed"@,
            "Doubao rejected the recognition session"@,
        )
    } else if response.message_type == "TaskStarted"@ {
        if starting {
            (
                SessionModel {
                    phase: SessionPhase::TaskStarted,
                    task_id: if response.task_id.len() > 0 {
                        Some(response.task_id)
                    } else {
                        session.task_id
                    },
                    ..session
                },
                Reply::Event(EventModel::TaskStarted),
            )
        } else {
            let why = wrong_phase("doubao.unexpected_task_started"@);
            fails(session, why.0, why.1)
        }
    } else if response.message_type == "SessionStarted"@ {
        if session.phase == SessionPhase::SessionStarting {
            (
                SessionModel { phase: SessionPhase::Streaming, ..session },
                Reply::Event(EventModel::SessionStarted),
            )
        } else {
            let why = wrong_phase("doubao.unexpected_session_started"@);
            fails(session, why.0, why.1)
        }
    } else if response.message_type == "SessionFinished"@ {
        on_finished(session)
    } else {
        on_data(session, response, document)
    }
}

/// The phase in which the provider may send something.
pub open spec fn receiving(phase: SessionPhase) -> bool {
    &&& phase != SessionPhase::Finished
    &&& phase != SessionPhase::Failed
    &&& phase != SessionPhase::Cancelled
    &&& phase != SessionPhase::Disconnected
}

/// What a binary message leads to.
pub open spec fn received(session: SessionModel, message: Seq<u8>) -> (SessionModel, Reply) {
    if !receiving(session.phase) {
        (
            session,
            Reply::Refused(
                ErrorCategory::Protocol,
                "doubao.session_not_receiving"@,
                "Doubao session is not accepting provider responses"@,
            ),
        )
    } else {
        match decoded(message) {
            Err(_) => fails(
                session,
                "doubao.invalid_response_envelope"@,
                "Doubao returned a malformed response envelope"@,
            ),
            Ok(response) => responded(session, response, json_document(response.result_json)),
        }
    }
}

/// `r` is the reply.
pub open spec fn replies(
    r: Result<Option<SessionEvent>, SessionProtocolError>,
    reply: Reply,
) -> bool {
    match reply {
        Reply::Refused(category, code, message) => r matches Err(error) && error.says(
            category,
            code,
            message,
        ),
        Reply::Nothing => r matches Ok(event) && event is None,
        Reply::Event(model) => r matches Ok(Some(event)) && event@ == model,
    }
}

/// Pure protocol state machine used by the WebSocket worker.
#[derive(Debug)]
pub struct DoubaoSessionProtocol {
    request_id: String,
    phase: SessionPhase,
    task_id: Option<String>,
    sent_audio_frames: u64,
    input_state: InputState,
    audio_acceptance: AudioAcceptance,
    last_packet_number: Option<u64>,
    final_transcript: Option<String>,
    provider_vad_started: bool,
    provider_vad_finished: bool,
}

impl DoubaoSessionProtocol {
    pub closed spec fn view(&self) -> SessionModel {
        SessionModel {
            request_id: self.request_id@,
            phase: self.phase,
            task_id: opt_view(self.task_id),
            sent_audio_frames: self.sent_audio_frames,
            input: self.input_state,
            audio_acceptance: self.audio_acceptance,
            last_packet_number: self.last_packet_number,
            final_transcript: opt_view(self.final_transcript),
            provider_vad_started: self.provider_vad_started,
            provider_vad_finished: self.provider_vad_finished,
        }
    }

    /// Creates a disconnected protocol instance for one unique request id.
    ///
    /// An empty, oversized, or control-containing request id is rejected before any network
    /// activity.
    pub fn new(request_id: String) -> (r: Result<Self, SessionProtocolError>)
        ensures
            match r {
                Ok(session) => proper_request_id(encode_utf8(request_id@)) && session@
                    == new_session(request_id@),
                Err(error) => !proper_request_id(encode_utf8(request_id@)) && error.says(
                    ErrorCategory::Protocol,
                    "doubao.invalid_request_id"@,
                    "Doubao request ID is invalid"@,
                ),
            },
    {
        let bytes = request_id.as_str().as_bytes();
        if bytes.len() == 0 || bytes.len() > MAX_REQUEST_ID_BYTES || !lacks_control_bytes(bytes) {
            return Err(
                SessionProtocolError::with_category(
                    ErrorCategory::Protocol,
                    "doubao.invalid_request_id",
                    "Doubao request ID is invalid",
                ),
            );
        }
        Ok(
            DoubaoSessionProtocol {
                request_id,
                phase: SessionPhase::Disconnected,
                task_id: None,
                sent_audio_frames: 0,
                input_state: InputState::Open,
                audio_acceptance: AudioAcceptance::NotAccepted,
                last_packet_number: None,
                final_transcript: None,
                provider_vad_started: false,
                provider_vad_finished: false,
            },
        )
    }

    pub fn phase(&self) -> (r: SessionPhase)
        ensures
            r == self@.phase,
    {
        self.phase
    }

    pub fn audio_acceptance(&self) -> (r: AudioAcceptance)
        ensures
            r == self@.audio_acceptance,
    {
        self.audio_acceptance
    }

    pub fn sent_audio_frames(&self) -> (r: u64)
        ensures
            r == self@.sent_audio_frames,
    {
        self.sent_audio_frames
    }

    fn fail_with_category(
        &mut self,
        category: ErrorCategory,
        code: &'static str,
        message: &'static str,
    ) -> (error: SessionProtocolError)
        ensures
            error.says(category, code@, message@),
            final(self)@ == broken(old(self)@),
    {
        if self.phase != SessionPhase::Cancelled {
            self.phase = SessionPhase::Failed;
        }
        SessionProtocolError::with_category(category, code, message)
    }

    fn fail(&mut self, code: &'static str, message: &'static str) -> (error: SessionProtocolError)
        ensures
            error.says(ErrorCategory::Protocol, code@, message@),
            final(self)@ == broken(old(self)@),
    {
        self.fail_with_category(ErrorCategory::Protocol, code, message)
    }

    fn require_phase(&mut self, expected: SessionPhase, code: &'static str) -> (r: Result<
        (),
        SessionProtocolError,
    >)
        ensures
            match r {
                Ok(_) => old(self)@.phase == expected && *final(self) == *old(self),
                Err(error) => {
                    &&& old(self)@.phase != expected
                    &&& error.says(
                        ErrorCategory::Protocol,
                        wrong_phase(code@).0,
                        wrong_phase(code@).1,
                    )
                    &&& final(self)@ == broken(old(self)@)
                },
            },
    {
        if self.phase == expected {
            Ok(())
        } else {
            Err(self.fail(code, "Doubao session lifecycle transition is invalid"))
        }
    }

    /// Begins the remote task. Audio has not been accepted at this phase.
    pub fn start_task(&mut self, token: &SecretString) -> (r: Result<
        SecretRequest,
        SessionProtocolError,
    >)
        ensures
            match r {
                Ok(request) => {
                    &&& old(self)@.phase == SessionPhase::Disconnected
                    &&& request@ == request_bytes(
                        token@,
                        "StartTask"@,
                        Seq::empty(),
                        Seq::empty(),
                        old(self)@.request_id,
                        None,
                    )
                    &&& final(self)@ == (SessionModel {
                        phase: SessionPhase::TaskStarting,
                        ..old(self)@
                    })
                },
                Err(error) => {
                    let why = wrong_phase("doubao.task_already_started"@);
                    &&& old(self)@.phase != SessionPhase::Disconnected
                    &&& error.says(ErrorCategory::Protocol, why.0, why.1)
                    &&& final(self)@ == broken(old(self)@)
                },
            },
    {
        match self.require_phase(SessionPhase::Disconnected, "doubao.task_already_started") {
            Ok(_) => {},
            Err(error) => {
                return Err(error);
            },
        }
        self.phase = SessionPhase::TaskStarting;
        let nothing: Vec<u8> = Vec::new();
        Ok(
            SecretRequest::new(
                encode_request(
                    token.expose(),
                    "StartTask",
                    &nothing,
                    &nothing,
                    self.request_id.as_str(),
                    None,
                ),
            ),
        )
    }

    /// Builds the `StartSession` message after `TaskStarted` from a description that was parsed
    /// to `document`.
    pub fn start_described_session(
        &mut self,
        token: &SecretString,
        session_json: &[u8],
        document: &Option<Json>,
    ) -> (r: Result<SecretRequest, SessionProtocolError>)
        ensures
            match r {
                Ok(request) => {
                    &&& old(self)@.phase == SessionPhase::TaskStarted
                    &&& proper_description(session_json@.len(), optional_model(*document))
                    &&& request@ == request_bytes(
                        token@,
                        "StartSession"@,
                        session_json@,
                        Seq::empty(),
                        old(self)@.request_id,
                        None,
                    )
                    &&& final(self)@ == (SessionModel {
                        phase: SessionPhase::SessionStarting,
                        ..old(self)@
                    })
                },
                Err(error) => {
                    &&& final(self)@ == broken(old(self)@)
                    &&& if old(self)@.phase != SessionPhase::TaskStarted {
                        let why = wrong_phase("doubao.task_not_started"@);
                        error.says(ErrorCategory::Protocol, why.0, why.1)
                    } else {
                        &&& !proper_description(session_json@.len(), optional_model(*document))
                        &&& error.says(
                            ErrorCategory::Protocol,
                            "doubao.invalid_session_json"@,
                            "Doubao StartSession payload must be a bounded JSON object"@,
                        )
                    }
                },
            },
    {
        match self.require_phase(SessionPhase::TaskStarted, "doubao.task_not_started") {
            Ok(_) => {},
            Err(error) => {
                return Err(error);
            },
        }
        let described = match document {
            Some(value) => value.is_object(),
            None => false,
        };
        if session_json.len() > MAX_SESSION_JSON_BYTES || !described {
            return Err(
                self.fail(
                    "doubao.invalid_session_json",
                    "Doubao StartSession payload must be a bounded JSON object",
                ),
            );
        }
        self.phase = SessionPhase::SessionStarting;
        let nothing: Vec<u8> = Vec::new();
        Ok(
            SecretRequest::new(
                encode_request(
                    token.expose(),
                    "StartSession",
                    session_json,
                    &nothing,
                    self.request_id.as_str(),
                    None,
                ),
            ),
        )
    }

    /// Builds the bounded `StartSession` message after `TaskStarted`.
    ///
    /// An invalid phase or a malformed, non-object or oversized JSON body is refused.
    pub fn start_session(&mut self, token: &SecretString, session_json: &[u8]) -> (r: Result<
        SecretRequest,
        SessionProtocolError,
    >)
        ensures
            match r {
                Ok(request) => {
                    &&& old(self)@.phase == SessionPhase::TaskStarted
                    &&& proper_description(session_json@.len(), json_document(session_json@))
                    &&& request@ == request_bytes(
                        token@,
                        "StartSession"@,
                        session_json@,
                        Seq::empty(),
                        old(self)@.request_id,
                        None,
                    )
                    &&& final(self)@ == (SessionModel {
                        phase: SessionPhase::SessionStarting,
                        ..old(self)@
                    })
                },
                Err(error) => {
                    &&& final(self)@ == broken(old(self)@)
                    &&& if old(self)@.phase != SessionPhase::TaskStarted {
                        let why = wrong_phase("doubao.task_not_started"@);
                        error.says(ErrorCategory::Protocol, why.0, why.1)
                    } else {
                        &&& !proper_description(session_json@.len(), json_document(session_json@))
                        &&& error.says(
                            ErrorCategory::Protocol,
                            "doubao.invalid_session_json"@,
                            "Doubao StartSession payload must be a bounded JSON object"@,
                        )
                    }
                },
            },
    {
        let document = parse_json(session_json);
        self.start_described_session(token, session_json, &document)
    }

    /// Builds one `TaskRequest` for a real independently encoded Opus packet.
    ///
    /// [`Self::confirm_audio_sent`] is to be called only after the complete binary message has
    /// been written to the socket.
    pub fn audio_request(&mut self, timestamp_millis: u64, opus_packet: &[u8]) -> (r: Result<
        Vec<u8>,
        SessionProtocolError,
    >)
        ensures
            match r {
                Ok(request) => {
                    &&& audio_complaint(old(self)@, opus_packet@.len()) is None
                    &&& request@ == request_bytes(
                        Seq::empty(),
                        "TaskRequest"@,
                        encode_utf8(timestamp_text(timestamp_millis as nat)),
                        opus_packet@,
                        old(self)@.request_id,
                        Some(
                            if old(self)@.sent_audio_frames == 0 {
                                FrameState::First
                            } else {
                                FrameState::Middle
                            },
                        ),
                    )
                    &&& final(self)@ == (SessionModel {
                        input: InputState::AudioRequestPending,
                        ..old(self)@
                    })
                },
                Err(error) => {
                    &&& audio_complaint(old(self)@, opus_packet@.len()) matches Some(why)
                    &&& error.says(ErrorCategory::Protocol, why.0, why.1)
                    &&& final(self)@ == broken(old(self)@)
                },
            },
    {
        match self.require_streaming_input() {
            Ok(_) => {},
            Err(error) => {
                return Err(error);
            },
        }
        if self.input_state == InputState::AudioRequestPending {
            return Err(
                self.fail(
                    "doubao.audio_request_pending",
                    "Doubao audio request must be confirmed before building another frame",
                ),
            );
        }
        if opus_packet.len() == 0 || opus_packet.len() > MAX_OPUS_PACKET_BYTES {
            return Err(
                self.fail(
                    "doubao.invalid_opus_packet",
                    "Doubao audio packet is empty or oversized",
                ),
            );
        }
        let state = if self.sent_audio_frames == 0 {
            FrameState::First
        } else {
            FrameState::Middle
        };
        let json = timestamp_json(timestamp_millis);
        let request = encode_request(
            "",
            "TaskRequest",
            json.as_str().as_bytes(),
            opus_packet,
            self.request_id.as_str(),
            Some(state),
        );
        proof {
            reveal_strlit("");
            assert(""@ =~= Seq::<char>::empty());
        }
        self.input_state = InputState::AudioRequestPending;
        Ok(request)
    }

    fn require_streaming_input(&mut self) -> (r: Result<(), SessionProtocolError>)
        ensures
            match r {
                Ok(_) => {
                    &&& old(self)@.phase == SessionPhase::Streaming
                    &&& old(self)@.input != InputState::Finished
                    &&& *final(self) == *old(self)
                },
                Err(error) => {
                    &&& final(self)@ == broken(old(self)@)
                    &&& if old(self)@.phase != SessionPhase::Streaming {
                        let why = wrong_phase("doubao.session_not_streaming"@);
                        error.says(ErrorCategory::Protocol, why.0, why.1)
                    } else {
                        &&& old(self)@.input == InputState::Finished
                        &&& error.says(
                            ErrorCategory::Protocol,
                            "doubao.audio_already_finished"@,
                            "Doubao audio input is already finished"@,
                        )
                    }
                },
            },
    {
        match self.require_phase(SessionPhase::Streaming, "doubao.session_not_streaming") {
            Ok(_) => {},
            Err(error) => {
                return Err(error);
            },
        }
        if self.input_state == InputState::Finished {
            return Err(
                self.fail(
                    "doubao.audio_already_finished",
                    "Doubao audio input is already finished",
                ),
            );
        }
        Ok(())
    }

    /// Confirms that the pending real audio request was fully written.
    ///
    /// This is the precise boundary at which automatic cross-provider replay may no longer be
    /// safe.
    pub fn confirm_audio_sent(&mut self) -> (r: Result<(), SessionProtocolError>)
        ensures
            ({
                let complaint = pending_complaint(
                    old(self)@,
                    "Doubao has no pending audio request to confirm"@,
                );
                match r {
                    Ok(_) => {
                        &&& complaint is None
                        &&& final(self)@ == (SessionModel {
                            input: InputState::Open,
                            sent_audio_frames: if old(self)@.sent_audio_frames < u64::MAX {
                                (old(self)@.sent_audio_frames + 1) as u64
                            } else {
                                u64::MAX
                            },
                            audio_acceptance: AudioAcceptance::PossiblyAccepted,
                            ..old(self)@
                        })
                    },
                    Err(error) => {
                        &&& complaint matches Some(why)
                        &&& error.says(ErrorCategory::Protocol, why.0, why.1)
                        &&& final(self)@ == broken(old(self)@)
                    },
                }
            }),
    {
        match self.require_phase(SessionPhase::Streaming, "doubao.session_not_streaming") {
            Ok(_) => {},
            Err(error) => {
                return Err(error);
            },
        }
        if self.input_state != InputState::AudioRequestPending {
            return Err(
                self.fail(
                    "doubao.no_pending_audio_request",
                    "Doubao has no pending audio request to confirm",
                ),
            );
        }
        self.input_state = InputState::Open;
        self.sent_audio_frames = self.sent_audio_frames.saturating_add(1);
        self.audio_acceptance = AudioAcceptance::PossiblyAccepted;
        Ok(())
    }

    /// Records that a pending audio message may have been partially written.
    ///
    /// The frame is not counted as fully sent, but replay becomes unsafe. This is used when a
    /// flush fails after the message was taken into the write buffer.
    pub fn mark_audio_write_ambiguous(&mut self) -> (r: Result<(), SessionProtocolError>)
        ensures
            ({
                let complaint = pending_complaint(
                    old(self)@,
                    "Doubao has no pending audio request to mark ambiguous"@,
                );
                match r {
                    Ok(_) => {
                        &&& complaint is None
                        &&& final(self)@ == (SessionModel {
                            audio_acceptance: AudioAcceptance::PossiblyAccepted,
                            ..old(self)@
                        })
                    },
                    Err(error) => {
                        &&& complaint matches Some(why)
                        &&& error.says(ErrorCategory::Protocol, why.0, why.1)
                        &&& final(self)@ == broken(old(self)@)
                    },
                }
            }),
    {
        match self.require_phase(SessionPhase::Streaming, "doubao.session_not_streaming") {
            Ok(_) => {},
            Err(error) => {
                return Err(error);
            },
        }
        if self.input_state != InputState::AudioRequestPending {
            return Err(
                self.fail(
                    "doubao.no_pending_audio_request",
                    "Doubao has no pending audio request to mark ambiguous",
                ),
            );
        }
        self.audio_acceptance = AudioAcceptance::PossiblyAccepted;
        Ok(())
    }

    /// Builds the last-frame marker, which holds only zeros.
    pub fn finish_audio(&mut self, timestamp_millis: u64) -> (r: Result<
        Vec<u8>,
        SessionProtocolError,
    >)
        ensures
            match r {
                Ok(request) => {
                    &&& finish_complaint(old(self)@) is None
                    &&& request@ == request_bytes(
                        Seq::empty(),
                        "TaskRequest"@,
                        encode_utf8(timestamp_text(timestamp_millis as nat)),
                        Seq::new(LAST_FRAME_MARKER_BYTES as nat, |i: int| 0u8),
                        old(self)@.request_id,
                        Some(FrameState::Last),
                    )
                    &&& final(self)@ == (SessionModel { input: InputState::Finished, ..old(self)@ })
                },
                Err(error) => {
                    &&& finish_complaint(old(self)@) matches Some(why)
                    &&& error.says(ErrorCategory::Protocol, why.0, why.1)
                    &&& final(self)@ == broken(old(self)@)
                },
            },
    {
        match self.require_streaming_input() {
            Ok(_) => {},
            Err(error) => {
                return Err(error);
            },
        }
        if self.input_state == InputState::AudioRequestPending {
            return Err(
                self.fail(
                    "doubao.audio_request_pending",
                    "Doubao audio request must be confirmed before finishing input",
                ),
            );
        }
        if self.sent_audio_frames == 0 {
            return Err(
                self.fail(
                    "doubao.no_audio_frames",
                    "Doubao session cannot finish before a real audio frame",
                ),
            );
        }
        let marker: Vec<u8> = vec![0u8; LAST_FRAME_MARKER_BYTES];
        let json = timestamp_json(timestamp_millis);
        let request = encode_request(
            "",
            "TaskRequest",
            json.as_str().as_bytes(),
            &marker,
            self.request_id.as_str(),
            Some(FrameState::Last),
        );
        proof {
            reveal_strlit("");
            assert(""@ =~= Seq::<char>::empty());
            assert(marker@ =~= Seq::new(LAST_FRAME_MARKER_BYTES as nat, |i: int| 0u8));
        }
        self.input_state = InputState::Finished;
        Ok(request)
    }

    /// Builds `FinishSession` after the last-frame marker.
    pub fn finish_session(&mut self, token: &SecretString) -> (r: Result<
        SecretRequest,
        SessionProtocolError,
    >)
        ensures
            match r {
                Ok(request) => {
                    &&& finish_session_complaint(old(self)@) is None
                    &&& request@ == request_bytes(
                        token@,
                        "FinishSession"@,
                        Seq::empty(),
                        Seq::empty(),
                        old(self)@.request_id,
                        None,
                    )
                    &&& final(self)@ == (SessionModel {
                        phase: SessionPhase::Finishing,
                        ..old(self)@
                    })
                },
                Err(error) => {
                    &&& finish_session_complaint(old(self)@) matches Some(why)
                    &&& error.says(ErrorCategory::Protocol, why.0, why.1)
                    &&& final(self)@ == broken(old(self)@)
                },
            },
    {
        match self.require_phase(SessionPhase::Streaming, "doubao.session_not_streaming") {
            Ok(_) => {},
            Err(error) => {
                return Err(error);
            },
        }
        if self.input_state != InputState::Finished {
            return Err(
                self.fail(
                    "doubao.audio_not_finished",
                    "Doubao audio must finish before FinishSession",
                ),
            );
        }
        self.phase = SessionPhase::Finishing;
        let nothing: Vec<u8> = Vec::new();
        Ok(
            SecretRequest::new(
                encode_request(
                    token.expose(),
                    "FinishSession",
                    &nothing,
                    &nothing,
                    self.request_id.as_str(),
                    None,
                ),
            ),
        )
    }

    /// Consumes one binary provider response and advances the lifecycle.
    ///
    /// Malformed envelopes, mismatched request ids, non-zero status, invalid phase transitions,
    /// remote failure messages, malformed result JSON, and `SessionFinished` without a non-empty
    /// final transcript are refused and end the session.
    pub fn handle_binary(&mut self, message: &[u8]) -> (r: Result<
        Option<SessionEvent>,
        SessionProtocolError,
    >)
        ensures
            final(self)@ == received(old(self)@, message@).0,
            replies(r, received(old(self)@, message@).1),
    {
        match self.phase {
            SessionPhase::Finished
            | SessionPhase::Failed
            | SessionPhase::Cancelled
            | SessionPhase::Disconnected => {
                return Err(
                    SessionProtocolError::with_category(
                        ErrorCategory::Protocol,
                        "doubao.session_not_receiving",
                        "Doubao session is not accepting provider responses",
                    ),
                );
            },
            _ => {},
        }
        match decode_response(message) {
            Err(_) => Err(
                self.fail(
                    "doubao.invalid_response_envelope",
                    "Doubao returned a malformed response envelope",
                ),
            ),
            Ok(response) => {
                let document = parse_json(&response.result_json);
                self.handle_response(response, document)
            },
        }
    }

    /// Advances the lifecycle by a decoded response and the document that its result holds.
    pub fn handle_response(&mut self, response: ResponseEnvelope, document: Option<Json>) -> (r:
        Result<Option<SessionEvent>, SessionProtocolError>)
        ensures
            final(self)@ == responded(old(self)@, response@, optional_model(document)).0,
            replies(r, responded(old(self)@, response@, optional_model(document)).1),
    {
        if !same_text(response.request_id.as_str(), self.request_id.as_str()) {
            return Err(
                self.fail(
                    "doubao.response_request_mismatch",
                    "Doubao response request ID does not match the active session",
                ),
            );
        }
        if response.service.as_str().unicode_len() > 0 && !same_text(
            response.service.as_str(),
            "ASR",
        ) {
            return Err(
                self.fail(
                    "doubao.response_service_mismatch",
                    "Doubao response service does not match ASR",
                ),
            );
        }
        let starting = self.phase == SessionPhase::TaskStarting;
        if response.status_code != 0 {
            if starting && auth_like_response(&response) {
                return Err(self.reject_credential());
            }
            return Err(
                self.fail(
                    "doubao.remote_status_failed",
                    "Doubao returned a non-zero protocol status",
                ),
            );
        }
        let kind = response.message_type.as_str();
        let task_failed = same_text(kind, "TaskFailed");
        if task_failed && starting && auth_like_response(&response) {
            return Err(self.reject_credential());
        }
        if task_failed || same_text(kind, "SessionFailed") {
            return Err(
                self.fail(
                    "doubao.remote_session_failed",
                    "Doubao rejected the recognition session",
                ),
            );
        }
        if same_text(kind, "TaskStarted") {
            match self.require_phase(
                SessionPhase::TaskStarting,
                "doubao.unexpected_task_started",
            ) {
                Ok(_) => {},
                Err(error) => {
                    return Err(error);
                },
            }
            if response.task_id.as_str().unicode_len() > 0 {
                self.task_id = Some(response.task_id);
            }
            self.phase = SessionPhase::TaskStarted;
            return Ok(Some(SessionEvent::TaskStarted));
        }
        if same_text(kind, "SessionStarted") {
            match self.require_phase(
                SessionPhase::SessionStarting,
                "doubao.unexpected_session_started",
            ) {
                Ok(_) => {},
                Err(error) => {
                    return Err(error);
                },
            }
            self.phase = SessionPhase::Streaming;
            return Ok(Some(SessionEvent::SessionStarted));
        }
        if same_text(kind, "SessionFinished") {
            return self.handle_session_finished();
        }
        self.handle_result(&response, document)
    }

    fn reject_credential(&mut self) -> (error: SessionProtocolError)
        ensures
            final(self)@ == rejects_credential(old(self)@).0,
            error.says(
                ErrorCategory::Authentication,
                "doubao.start_task_auth_failed"@,
                "Doubao rejected the StartTask credential"@,
            ),
    {
        self.fail_with_category(
            ErrorCategory::Authentication,
            "doubao.start_task_auth_failed",
            "Doubao rejected the StartTask credential",
        )
    }

    /// Makes cancellation terminal. Late provider messages cannot revive the session or produce
    /// text for insertion.
    pub fn cancel(&mut self)
        ensures
            final(self)@ == (SessionModel {
                phase: if old(self)@.phase == SessionPhase::Finished || old(self)@.phase
                    == SessionPhase::Failed {
                    old(self)@.phase
                } else {
                    SessionPhase::Cancelled
                },
                ..old(self)@
            }),
    {
        match self.phase {
            SessionPhase::Finished | SessionPhase::Failed => {},
            _ => {
                self.phase = SessionPhase::Cancelled;
            },
        }
    }

    fn handle_result(&mut self, response: &ResponseEnvelope, document: Option<Json>) -> (r: Result<
        Option<SessionEvent>,
        SessionProtocolError,
    >)
        ensures
            final(self)@ == on_data(old(self)@, response@, optional_model(document)).0,
            replies(r, on_data(old(self)@, response@, optional_model(document)).1),
    {
        if response.result_json.len() == 0 {
            return Ok(None);
        }
        if self.phase != SessionPhase::Streaming && self.phase != SessionPhase::Finishing {
            return Err(
                self.fail(
                    "doubao.result_before_session_started",
                    "Doubao returned recognition data before the session started",
                ),
            );
        }
        let event = match document {
            None => {
                return Err(
                    self.fail(
                        "doubao.invalid_result_json",
                        "Doubao returned malformed recognition result JSON",
                    ),
                );
            },
            Some(document) => recognition_in(&document),
        };
        let outdated = match (event.packet_number, self.last_packet_number) {
            (Some(packet), Some(previous)) => packet <= previous,
            _ => false,
        };
        if outdated {
            return Ok(Some(SessionEvent::DuplicateIgnored));
        }
        if event.packet_number.is_some() {
            self.last_packet_number = event.packet_number;
        }
        self.provider_vad_started = self.provider_vad_started || event.vad_started;
        self.provider_vad_finished = self.provider_vad_finished || event.vad_finished;
        if event.vad_started || event.text.is_some() || event.final_result {
            self.audio_acceptance = AudioAcceptance::Accepted;
        }
        if event.final_result {
            let usable = match &event.text {
                Some(text) => !is_blank(text.as_str()),
                None => false,
            };
            if !usable {
                return Err(
                    self.fail(
                        "doubao.empty_final_transcript",
                        "Doubao returned an empty final transcript",
                    ),
                );
            }
            self.final_transcript = clone_text(&event.text);
        }
        Ok(Some(SessionEvent::Recognition(event)))
    }

    fn handle_session_finished(&mut self) -> (r: Result<
        Option<SessionEvent>,
        SessionProtocolError,
    >)
        ensures
            final(self)@ == on_finished(old(self)@).0,
            replies(r, on_finished(old(self)@).1),
    {
        match self.require_phase(
            SessionPhase::Finishing,
            "doubao.unexpected_session_finished",
        ) {
            Ok(_) => {},
            Err(error) => {
                return Err(error);
            },
        }
        let transcript = match &self.final_transcript {
            Some(text) => text.clone(),
            None => {
                return Err(
                    self.fail(
                        "doubao.missing_final_transcript",
                        "Doubao finished the session without a final transcript",
                    ),
                );
            },
        };
        self.phase = SessionPhase::Finished;
        Ok(
            Some(
                SessionEvent::Finished(
                    SessionOutcome {
                        transcript,
                        task_id: clone_text(&self.task_id),
                        sent_audio_frames: self.sent_audio_frames,
                        last_packet_number: self.last_packet_number,
                        provider_vad_started: self.provider_vad_started,
                        provider_vad_finished: self.provider_vad_finished,
                    },
                ),
            ),
        )
    }
}

fn clone_text(text: &Option<String>) -> (r: Option<String>)
    ensures
        opt_view(r) == opt_view(*text),
{
    match text {
        Some(text) => Some(text.clone()),
        None => None,
    }
}

fn auth_like_response(response: &ResponseEnvelope) -> (r: bool)
    ensures
        r == auth_like(response@),
{
    if response.status_code == 401 || response.status_code == 403 {
        return true;
    }
    let start = take_chars(response.status_message.as_str(), 1024);
    let lowered = lower_unicode_text(start.as_str());
    let text = lowered.as_str();
    contains(text, "token") || contains(text, "auth") || contains(text, "credential") || contains(
        text,
        "app_key",
    ) || contains(text, "unauthorized") || contains(text, "forbidden")
}

fn timestamp_json(timestamp_millis: u64) -> (r: String)
    ensures
        r@ == timestamp_text(timestamp_millis as nat),
{
    let number = write_number(timestamp_millis);
    join3("{\"extra\":{},\"timestamp_ms\":", number.as_str(), "}")
}

/// A session that is over takes nothing from the provider any more: no message changes it or
/// yields an event.
pub proof fn law_terminal_session_ignores_the_provider(session: SessionModel, message: Seq<u8>)
    requires
        !receiving(session.phase),
    ensures
        received(session, message).0 == session,
        received(session, message).1 is Refused,
{
}

/// Only a final result changes the transcript, and it is never replaced by an older packet.
pub proof fn law_old_packet_never_replaces_a_transcript(
    session: SessionModel,
    event: RecognitionModel,
)
    ensures
        outdated(session, event) ==> on_result(session, event).0 == session,
        on_result(session, event).0.final_transcript != session.final_transcript
            ==> event.final_result && !outdated(session, event),
{
}

/// A session finishes only with the transcript of a final result, and that is not blank.
pub proof fn law_outcome_is_the_final_transcript(
    session: SessionModel,
    response: EnvelopeModel,
    document: Option<JsonModel>,
    outcome: OutcomeModel,
)
    requires
        responded(session, response, document).1 == Reply::Event(EventModel::Finished(outcome)),
    ensures
        session.phase == SessionPhase::Finishing,
        session.final_transcript == Some(outcome.transcript),
{
}

/// A transcript that the session keeps is never blank.
pub proof fn law_kept_transcript_is_never_blank(
    session: SessionModel,
    response: EnvelopeModel,
    document: Option<JsonModel>,
)
    requires
        session.final_transcript is Some ==> !blank(session.final_transcript->0),
    ensures
        ({
            let after = responded(session, response, document).0;
            after.final_transcript is Some ==> !blank(after.final_transcript->0)
        }),
{
}

/// Audio that may have been accepted stays so: no message takes that back.
pub proof fn law_accepted_audio_stays_accepted(
    session: SessionModel,
    response: EnvelopeModel,
    document: Option<JsonModel>,
)
    requires
        session.audio_acceptance.may_have_left(),
    ensures
        responded(session, response, document).0.audio_acceptance.may_have_left(),
{
}

/// Text that is shown to people never comes from the provider: the message of every refusal is
/// one of this library.
pub proof fn law_refusal_hides_the_provider_message(
    session: SessionModel,
    a: EnvelopeModel,
    b: EnvelopeModel,
    document: Option<JsonModel>,
)
    requires
        a.request_id == b.request_id,
        a.service == b.service,
        a.status_code == b.status_code,
        a.message_type == b.message_type,
        a.result_json == b.result_json,
        a.task_id == b.task_id,
        auth_like(a) == auth_like(b),
    ensures
        responded(session, a, document) == responded(session, b, document),
{
}

/// A response of this session that carries a recognition result and no word of the lifecycle.
pub open spec fn carries_result(session: SessionModel, response: EnvelopeModel) -> bool {
    &&& session.phase == SessionPhase::Streaming || session.phase == SessionPhase::Finishing
    &&& response.request_id == session.request_id
    &&& response.service.len() == 0 || response.service == "ASR"@
    &&& response.status_code == 0
    &&& response.message_type != "TaskFailed"@
    &&& response.message_type != "SessionFailed"@
    &&& response.message_type != "TaskStarted"@
    &&& response.message_type != "SessionStarted"@
    &&& response.message_type != "SessionFinished"@
    &&& response.result_json.len() > 0
}

/// A result that is not overtaken by a newer packet is taken over: a final one with a text makes
/// that text the transcript, whatever transcript there was; one that is not final leaves the
/// transcript as it is. Its packet number is remembered, what it says of speech is added, and a
/// sign of recognition means that audio was accepted.
pub proof fn law_newer_result_is_taken_over(
    session: SessionModel,
    response: EnvelopeModel,
    document: JsonModel,
)
    requires
        carries_result(session, response),
    ensures
        ({
            let event = recognition_of(document);
            let (after, reply) = responded(session, response, Some(document));
            let newer = event.packet_number is None || session.last_packet_number is None
                || event.packet_number->0 > session.last_packet_number->0;
            let said = event.text is Some && !blank(event.text->0);
            &&& newer && event.final_result && said ==> after.final_transcript == event.text
            &&& newer && !event.final_result ==> after.final_transcript
                == session.final_transcript
            &&& newer && (said || !event.final_result) ==> {
                &&& reply == Reply::Event(EventModel::Recognition(event))
                &&& after.phase == session.phase
            }
            &&& newer && event.final_result && !said ==> {
                &&& reply is Refused
                &&& after.phase == SessionPhase::Failed
                &&& after.final_transcript == session.final_transcript
            }
            &&& newer && event.packet_number is Some ==> after.last_packet_number
                == event.packet_number
            &&& event.packet_number is None ==> after.last_packet_number
                == session.last_packet_number
            &&& newer ==> {
                &&& after.provider_vad_started == (session.provider_vad_started
                    || event.vad_started)
                &&& after.provider_vad_finished == (session.provider_vad_finished
                    || event.vad_finished)
            }
            &&& newer && (event.vad_started || event.text is Some || event.final_result)
                ==> after.audio_acceptance == AudioAcceptance::Accepted
            &&& newer && !event.vad_started && event.text is None && !event.final_result
                ==> after.audio_acceptance == session.audio_acceptance
            &&& !newer ==> {
                &&& after == session
                &&& reply == Reply::Event(EventModel::DuplicateIgnored)
            }
            &&& after.sent_audio_frames == session.sent_audio_frames
            &&& after.input == session.input
            &&& after.task_id == session.task_id
            &&& after.request_id == session.request_id
        }),
{
}

/// After any results the transcript is the text of the last final one that was not overtaken.
/// `states[i]` is the session before `events[i]`; `k` is that last final result.
pub proof fn law_last_final_text_is_the_transcript(
    states: Seq<SessionModel>,
    events: Seq<RecognitionModel>,
    k: int,
)
    requires
        states.len() == events.len() + 1,
        forall|i: int|
            0 <= i < events.len() ==> states[i + 1] == on_result(#[trigger] states[i], events[i]).0,
        0 <= k < events.len(),
        events[k].final_result,
        events[k].text is Some,
        !blank(events[k].text->0),
        events[k].packet_number is None || states[k].last_packet_number is None
            || events[k].packet_number->0 > states[k].last_packet_number->0,
        forall|j: int|
            k < j < events.len() ==> !(#[trigger] events[j]).final_result || (
            events[j].packet_number is Some && states[j].last_packet_number is Some
                && events[j].packet_number->0 <= states[j].last_packet_number->0),
    ensures
        states.last().final_transcript == events[k].text,
    decreases events.len(),
{
    let n = events.len() - 1;
    assert(states[n + 1] == on_result(states[n], events[n]).0);
    if k < n {
        let before = events.drop_last();
        let earlier = states.drop_last();
        assert forall|i: int| 0 <= i < before.len() implies earlier[i + 1] == on_result(
            #[trigger] earlier[i],
            before[i],
        ).0 by {
            assert(states[i + 1] == on_result(states[i], events[i]).0);
        }
        assert(earlier[k] == states[k] && before[k] == events[k]);
        assert forall|j: int| k < j < before.len() implies !(#[trigger] before[j]).final_result || (
        before[j].packet_number is Some && earlier[j].last_packet_number is Some
            && before[j].packet_number->0 <= earlier[j].last_packet_number->0) by {
            assert(before[j] == events[j] && earlier[j] == states[j]);
        }
        law_last_final_text_is_the_transcript(earlier, before, k);
        assert(earlier.last() == states[n]);
        assert(!events[n].final_result || (events[n].packet_number is Some
            && states[n].last_packet_number is Some && events[n].packet_number->0
            <= states[n].last_packet_number->0));
    } else {
        assert(states[k + 1] == on_result(states[k], events[k]).0);
    }
}

/// Where packets come in the order of their numbers, none is overtaken: each final one replaces the
/// transcript, and the newest number is remembered.
pub proof fn law_ordered_packets_all_count(
    session: SessionModel,
    first: RecognitionModel,
    second: RecognitionModel,
)
    requires
        first.final_result && second.final_result,
        first.text is Some && !blank(first.text->0),
        second.text is Some && !blank(second.text->0),
        first.packet_number is Some && second.packet_number is Some,
        session.last_packet_number is Some ==> session.last_packet_number->0
            < first.packet_number->0,
        first.packet_number->0 < second.packet_number->0,
    ensures
        ({
            let middle = on_result(session, first).0;
            let last = on_result(middle, second).0;
            let again = on_result(last, first);
            &&& middle.final_transcript == first.text
            &&& last.final_transcript == second.text
            &&& last.last_packet_number == second.packet_number
            &&& again.0 == last
            &&& again.1 == Reply::Event(EventModel::DuplicateIgnored)
        }),
{
}

/// The end of a session that is finishing hands out its transcript and what was counted; without a
/// transcript, or before the session is finishing, the end is a failure.
pub proof fn law_finished_session_hands_out_its_transcript(
    session: SessionModel,
    response: EnvelopeModel,
    document: Option<JsonModel>,
)
    requires
        response.request_id == session.request_id,
        response.service.len() == 0 || response.service == "ASR"@,
        response.status_code == 0,
        response.message_type == "SessionFinished"@,
    ensures
        ({
            let (after, reply) = responded(session, response, document);
            if session.phase == SessionPhase::Finishing && session.final_transcript is Some {
                &&& reply matches Reply::Event(EventModel::Finished(outcome))
                &&& outcome.transcript == session.final_transcript->0
                &&& outcome.task_id == session.task_id
                &&& outcome.sent_audio_frames == session.sent_audio_frames
                &&& outcome.last_packet_number == session.last_packet_number
                &&& outcome.provider_vad_started == session.provider_vad_started
                &&& outcome.provider_vad_finished == session.provider_vad_finished
                &&& after.phase == SessionPhase::Finished
            } else {
                &&& reply is Refused
                &&& after.phase == SessionPhase::Failed || after.phase == SessionPhase::Cancelled
            }
        }),
{
    reveal_strlit("SessionFinished");
    reveal_strlit("TaskFailed");
    reveal_strlit("SessionFailed");
    reveal_strlit("TaskStarted");
    reveal_strlit("SessionStarted");
    assert("SessionFinished"@.len() == 15);
    assert("SessionFinished"@[7] != "SessionStarted"@[7]);
    assert("SessionFinished"@[0] != "TaskFailed"@[0]);
    assert("SessionFinished"@[0] != "TaskStarted"@[0]);
    assert("SessionFailed"@.len() == 13);
}

/// The task and the session start in their order: each word of the provider moves a session on that
/// waits for it, and fails any other one.
pub proof fn law_sessions_start_in_order(
    session: SessionModel,
    response: EnvelopeModel,
    document: Option<JsonModel>,
)
    requires
        response.request_id == session.request_id,
        response.service.len() == 0 || response.service == "ASR"@,
        response.status_code == 0,
        response.message_type == "TaskStarted"@ || response.message_type == "SessionStarted"@,
    ensures
        ({
            let (after, reply) = responded(session, response, document);
            let task = response.message_type == "TaskStarted"@;
            if task && session.phase == SessionPhase::TaskStarting {
                &&& reply == Reply::Event(EventModel::TaskStarted)
                &&& after.phase == SessionPhase::TaskStarted
                &&& response.task_id.len() > 0 ==> after.task_id == Some(response.task_id)
                &&& response.task_id.len() == 0 ==> after.task_id == session.task_id
            } else if !task && session.phase == SessionPhase::SessionStarting {
                &&& reply == Reply::Event(EventModel::SessionStarted)
                &&& after.phase == SessionPhase::Streaming
                &&& after.task_id == session.task_id
            } else {
                &&& reply is Refused
                &&& after.phase == SessionPhase::Failed || after.phase == SessionPhase::Cancelled
                &&& after.task_id == session.task_id
            }
        }),
        responded(session, response, document).0.final_transcript == session.final_transcript,
        responded(session, response, document).0.audio_acceptance == session.audio_acceptance,
        responded(session, response, document).0.sent_audio_frames == session.sent_audio_frames,
{
    reveal_strlit("TaskFailed");
    reveal_strlit("SessionFailed");
    reveal_strlit("TaskStarted");
    reveal_strlit("SessionStarted");
    assert("TaskStarted"@.len() == 11 && "SessionStarted"@.len() == 14);
    assert("TaskFailed"@.len() == 10 && "SessionFailed"@.len() == 13);
}

/// A response that is not for this session, that reports a failure or a status that is not zero ends
/// the session, without a transcript or anything else taken from it.
pub proof fn law_bad_response_ends_the_session(
    session: SessionModel,
    response: EnvelopeModel,
    document: Option<JsonModel>,
)
    requires
        response.request_id != session.request_id || (response.service.len() > 0
            && response.service != "ASR"@) || response.status_code != 0 || response.message_type
            == "TaskFailed"@ || response.message_type == "SessionFailed"@,
    ensures
        ({
            let (after, reply) = responded(session, response, document);
            &&& reply is Refused
            &&& after == (SessionModel {
                phase: if session.phase == SessionPhase::Cancelled {
                    SessionPhase::Cancelled
                } else {
                    SessionPhase::Failed
                },
                ..session
            })
            &&& reply->Refused_0 == ErrorCategory::Authentication ==> session.phase
                == SessionPhase::TaskStarting
            &&& session.phase == SessionPhase::TaskStarting && response.request_id
                == session.request_id && response.service.len() == 0 && (response.status_code
                == 401 || response.status_code == 403) ==> reply->Refused_0
                == ErrorCategory::Authentication
        }),
{
}

/// Audio is taken while the session streams, no request is open and the input is not finished, in
/// packets of one to 1275 bytes. The input ends only behind audio, and the session only behind the
/// end of the input.
pub proof fn law_audio_has_its_order(session: SessionModel, bytes: nat, message: Seq<char>)
    ensures
        audio_complaint(session, bytes) is None <==> session.phase == SessionPhase::Streaming
            && session.input == InputState::Open && 1 <= bytes <= 1_275,
        finish_complaint(session) is None <==> session.phase == SessionPhase::Streaming
            && session.input == InputState::Open && session.sent_audio_frames > 0,
        pending_complaint(session, message) is None <==> session.phase == SessionPhase::Streaming
            && session.input == InputState::AudioRequestPending,
        finish_session_complaint(session) is None <==> session.phase == SessionPhase::Streaming
            && session.input == InputState::Finished,
{
}

/// A session that is over is in one of these phases, and every other one takes messages.
pub proof fn law_phases_that_receive(phase: SessionPhase)
    ensures
        receiving(phase) <==> phase == SessionPhase::TaskStarting || phase
            == SessionPhase::TaskStarted || phase == SessionPhase::SessionStarting || phase
            == SessionPhase::Streaming || phase == SessionPhase::Finishing,
{
}

/// A refusal at the start of the task is one of the credential exactly where the status says so or the
/// beginning of the message, in lower case, speaks of one; at any later time it is none.
pub proof fn law_refused_credential_is_recognized(
    session: SessionModel,
    response: EnvelopeModel,
    document: Option<JsonModel>,
)
    requires
        response.request_id == session.request_id,
        response.service.len() == 0 || response.service == "ASR"@,
        response.status_code != 0 || response.message_type == "TaskFailed"@,
    ensures
        ({
            let said = unicode_lowered(
                if response.status_message.len() <= 1_024 {
                    response.status_message
                } else {
                    response.status_message.take(1_024)
                },
            );
            let speaks = contains_text(said, "token"@) || contains_text(said, "auth"@)
                || contains_text(said, "credential"@) || contains_text(said, "app_key"@)
                || contains_text(said, "unauthorized"@) || contains_text(said, "forbidden"@);
            let reply = responded(session, response, document).1;
            &&& reply is Refused
            &&& reply->Refused_0 == ErrorCategory::Authentication <==> session.phase
                == SessionPhase::TaskStarting && (response.status_code == 401
                || response.status_code == 403 || speaks)
            &&& reply->Refused_0 == ErrorCategory::Authentication ==> reply->Refused_1
                == "doubao.start_task_auth_failed"@
        }),
{
}

/// A message that cannot be read fails a session that takes messages, and nothing else changes.
pub proof fn law_unreadable_message_fails_the_session(session: SessionModel, message: Seq<u8>)
    requires
        session.phase == SessionPhase::TaskStarting || session.phase == SessionPhase::TaskStarted
            || session.phase == SessionPhase::SessionStarting || session.phase
            == SessionPhase::Streaming || session.phase == SessionPhase::Finishing,
        decoded(message) is Err,
    ensures
        received(session, message).0 == (SessionModel { phase: SessionPhase::Failed, ..session }),
        received(session, message).1 is Refused,
{
}

} // verus!
