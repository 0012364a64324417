//! The order of a recognition attempt: what to send, flush, poll, read and encode next.

use crate::doubao::opus::OpusCodecError;
use crate::doubao::runner::{
    closed_fault, connection_closed, protocol_fault, protocol_vox_error, reports,
    DoubaoRunConfig, DoubaoTranscription, TranscriptionModel, MAX_INBOUND_PER_TICK,
};
use crate::doubao::session::{
    audio_complaint, broken, finish_complaint, finish_session_complaint, pending_complaint,
    proper_description, received, timestamp_text, DoubaoSessionProtocol, EventModel, InputState,
    OutcomeModel, Reply, SessionEvent, SessionModel, SessionOutcome, SessionPhase,
};
use crate::doubao::websocket::{
    deadline_after, transport_fault, FlushResult, PollResult, QueueBinaryResult, SocketEvent,
    TransportModel, WebSocketTransportError,
};
use crate::doubao::wire::{request_bytes, FrameState};
use crate::error::{ErrorCategory, VoxError};
use crate::json::json_document;
use crate::provider::{AudioAcceptance, ProviderAttemptFailure};
use crate::secret::SecretString;
use vstd::prelude::*;
use vstd::slice::slice_to_vec;
use vstd::utf8::*;

verus! {

/// A message of the attempt.
#[derive(Clone, Copy, Debug, Eq, PartialEq, Structural)]
pub enum Sending {
    StartTask,
    StartSession,
    Audio,
    /// The last-frame marker.
    Marker,
    FinishSession,
}

/// Where the attempt stands; times are in nanoseconds from an arbitrary moment.
#[derive(Clone, Copy, Debug, Eq, PartialEq, Structural)]
pub enum Stage {
    Ready,
    /// The message is being queued.
    Queueing(Sending, u64),
    /// The write buffer was full and is being flushed.
    Unblocking(Sending, u64),
    /// The socket is polled before the message is queued again.
    Refilling(Sending, u64),
    /// The message is queued and being flushed.
    Flushing(Sending, u64),
    /// The socket is polled because the flush would block.
    FlushPolling(Sending, u64),
    FlushResting(Sending, u64),
    /// The socket is polled until the session reaches a phase.
    WaitPolling(SessionPhase, u64),
    WaitResting(SessionPhase, u64),
    /// The wall clock is being read.
    Dating,
    /// A frame is being read.
    Reading,
    /// The socket is polled, at most so many more times, until the time of the frame has come.
    SlotPolling(u64, u8),
    SlotResting(u64),
    /// The frame is being encoded.
    Encoding,
    /// The socket is polled, at most so many more times, before the next frame.
    Draining(u8),
    Done,
    Failed,
}

/// What the wall clock says.
#[derive(Clone, Copy, Debug, Eq, PartialEq, Structural)]
pub enum WallClock {
    BeforeEpoch,
    Millis(u128),
}

/// What came of the last action.
#[derive(Debug)]
pub enum DriverEvent {
    Begin,
    Queued(Result<QueueBinaryResult, WebSocketTransportError>),
    Flushed(Result<FlushResult, WebSocketTransportError>),
    Polled(Result<PollResult, WebSocketTransportError>),
    Rested,
    Clock(WallClock),
    Frame(Result<Option<[u8; 640]>, VoxError>),
    Encoded(Result<Vec<u8>, OpusCodecError>),
}

/// What to do next.
#[derive(Debug)]
pub enum DriverAction {
    Queue(Vec<u8>),
    Flush,
    Poll,
    /// Rest for so many nanoseconds.
    Rest(u64),
    ReadClock,
    ReadFrame,
    Encode([u8; 640]),
    Finish(DoubaoTranscription),
}

/// What an action says.
pub enum ActionModel {
    Queue(Seq<u8>),
    Flush,
    Poll,
    Rest(u64),
    ReadClock,
    ReadFrame,
    Encode(Seq<u8>),
    Finish(TranscriptionModel),
}

impl DriverAction {
    pub open spec fn view(&self) -> ActionModel {
        match self {
            DriverAction::Queue(payload) => ActionModel::Queue(payload@),
            DriverAction::Flush => ActionModel::Flush,
            DriverAction::Poll => ActionModel::Poll,
            DriverAction::Rest(nanos) => ActionModel::Rest(*nanos),
            DriverAction::ReadClock => ActionModel::ReadClock,
            DriverAction::ReadFrame => ActionModel::ReadFrame,
            DriverAction::Encode(frame) => ActionModel::Encode(frame@),
            DriverAction::Finish(transcription) => ActionModel::Finish(transcription@),
        }
    }
}

/// The moment at which a decision is made.
#[derive(Clone, Copy, Debug, Eq, PartialEq, Structural)]
pub struct Moment {
    pub now_nanos: u64,
    pub is_cancelled: bool,
}

/// The attempt as far as it has come.
pub struct DriverModel {
    pub session: SessionModel,
    pub partial_results: u64,
    pub outcome: Option<OutcomeModel>,
    pub stage: Stage,
    /// The message that a full write buffer handed back.
    pub held: Seq<u8>,
    /// The frame whose turn is next.
    pub frame: Seq<u8>,
    pub started_at: u64,
    pub timestamp_base: u64,
    pub total_deadline: u64,
}

/// What stays the same during an attempt.
pub struct Settings {
    pub token: Seq<char>,
    pub session_json: Seq<u8>,
    pub phase_timeout: u64,
    pub poll_interval: u64,
    pub frame_interval: u64,
}

pub open spec fn settings_of(config: DoubaoRunConfig, token: Seq<char>) -> Settings {
    Settings {
        token,
        session_json: config.session_json@,
        phase_timeout: config.phase_timeout_nanos,
        poll_interval: config.websocket.poll_interval_nanos,
        frame_interval: config.frame_interval_nanos,
    }
}

/// The attempt after a decision, and what to do or why to give up.
pub type Decision = (DriverModel, Result<ActionModel, TransportModel>);

pub open spec fn saturated(n: int) -> u64 {
    if n > u64::MAX {
        u64::MAX
    } else {
        n as u64
    }
}

pub open spec fn gives_up(driver: DriverModel, fault: TransportModel) -> Decision {
    (DriverModel { stage: Stage::Failed, ..driver }, Err(fault))
}

pub open spec fn goes_on(driver: DriverModel, stage: Stage, action: ActionModel) -> Decision {
    (DriverModel { stage, ..driver }, Ok(action))
}

/// The attempt is given up because the session broke.
pub open spec fn breaks(driver: DriverModel, code: Seq<char>) -> Decision {
    gives_up(
        DriverModel { session: broken(driver.session), ..driver },
        protocol_fault(code),
    )
}

/// Why nothing may be done at this moment.
pub open spec fn time_fault(total_deadline: u64, deadline: u64, moment: Moment) -> Option<
    TransportModel,
> {
    if moment.is_cancelled {
        Some(
            transport_fault(
                ErrorCategory::Cancelled,
                false,
                "doubao.session_cancelled"@,
                "Doubao recognition session was cancelled"@,
            ),
        )
    } else if moment.now_nanos >= total_deadline {
        Some(
            transport_fault(
                ErrorCategory::Timeout,
                true,
                "doubao.total_timeout"@,
                "Doubao recognition exceeded its total timeout"@,
            ),
        )
    } else if moment.now_nanos >= deadline {
        Some(
            transport_fault(
                ErrorCategory::Timeout,
                true,
                "doubao.phase_timeout"@,
                "Doubao recognition phase timed out"@,
            ),
        )
    } else {
        None
    }
}

/// The end of a phase that begins now.
pub open spec fn phase_end(driver: DriverModel, settings: Settings, moment: Moment) -> u64 {
    let end = deadline_after(moment.now_nanos, settings.phase_timeout);
    if end < driver.total_deadline {
        end
    } else {
        driver.total_deadline
    }
}

pub open spec fn queues(
    driver: DriverModel,
    sending: Sending,
    deadline: u64,
    payload: Seq<u8>,
    moment: Moment,
) -> Decision {
    match time_fault(driver.total_deadline, deadline, moment) {
        Some(fault) => gives_up(driver, fault),
        None => goes_on(
            driver,
            Stage::Queueing(sending, deadline),
            ActionModel::Queue(payload),
        ),
    }
}

/// A new message is sent.
pub open spec fn sends(
    driver: DriverModel,
    settings: Settings,
    sending: Sending,
    payload: Seq<u8>,
    moment: Moment,
) -> Decision {
    queues(driver, sending, phase_end(driver, settings, moment), payload, moment)
}

pub open spec fn flushes(
    driver: DriverModel,
    sending: Sending,
    deadline: u64,
    moment: Moment,
) -> Decision {
    match time_fault(driver.total_deadline, deadline, moment) {
        Some(fault) => gives_up(driver, fault),
        None => goes_on(driver, Stage::Flushing(sending, deadline), ActionModel::Flush),
    }
}

/// The message came back from a full buffer.
pub open spec fn unblocks(
    driver: DriverModel,
    sending: Sending,
    deadline: u64,
    payload: Seq<u8>,
    moment: Moment,
) -> Decision {
    match time_fault(driver.total_deadline, deadline, moment) {
        Some(fault) => gives_up(driver, fault),
        None => goes_on(
            DriverModel { held: payload, ..driver },
            Stage::Unblocking(sending, deadline),
            ActionModel::Flush,
        ),
    }
}

/// What the session sent so far is worth in milliseconds.
pub open spec fn audio_millis(frames: u64) -> u64 {
    saturated(frames * 20)
}

/// The time stamp of the next frame.
pub open spec fn next_timestamp(driver: DriverModel) -> u64 {
    saturated(driver.timestamp_base + audio_millis(driver.session.sent_audio_frames))
}

/// When the next frame may be sent.
pub open spec fn next_slot(driver: DriverModel, settings: Settings) -> u64 {
    let frames: u64 = if driver.session.sent_audio_frames > u32::MAX {
        u32::MAX as u64
    } else {
        driver.session.sent_audio_frames
    };
    saturated(driver.started_at + saturated(settings.frame_interval * frames))
}

/// The session has reached the phase that was waited for.
pub open spec fn reaches(
    driver: DriverModel,
    settings: Settings,
    phase: SessionPhase,
    moment: Moment,
) -> Decision {
    if phase == SessionPhase::TaskStarted {
        if !proper_description(
            settings.session_json.len(),
            json_document(settings.session_json),
        ) {
            breaks(driver, "doubao.invalid_session_json"@)
        } else {
            sends(
                DriverModel {
                    session: SessionModel {
                        phase: SessionPhase::SessionStarting,
                        ..driver.session
                    },
                    ..driver
                },
                settings,
                Sending::StartSession,
                request_bytes(
                    settings.token,
                    "StartSession"@,
                    settings.session_json,
                    Seq::empty(),
                    driver.session.request_id,
                    None,
                ),
                moment,
            )
        }
    } else if phase == SessionPhase::Streaming {
        goes_on(
            DriverModel { started_at: moment.now_nanos, ..driver },
            Stage::Dating,
            ActionModel::ReadClock,
        )
    } else {
        match driver.outcome {
            None => gives_up(
                driver,
                transport_fault(
                    ErrorCategory::Protocol,
                    false,
                    "doubao.missing_session_outcome"@,
                    "Doubao session finished without a retained outcome"@,
                ),
            ),
            Some(outcome) => goes_on(
                DriverModel { outcome: None, ..driver },
                Stage::Done,
                ActionModel::Finish(
                    TranscriptionModel {
                        text: outcome.transcript,
                        sent_audio_millis: audio_millis(outcome.sent_audio_frames),
                        partial_results: driver.partial_results,
                        provider_vad_started: outcome.provider_vad_started,
                        provider_vad_finished: outcome.provider_vad_finished,
                    },
                ),
            ),
        }
    }
}

pub open spec fn waits(
    driver: DriverModel,
    settings: Settings,
    phase: SessionPhase,
    deadline: u64,
    moment: Moment,
) -> Decision {
    if driver.session.phase == phase {
        reaches(driver, settings, phase, moment)
    } else {
        match time_fault(driver.total_deadline, deadline, moment) {
            Some(fault) => gives_up(driver, fault),
            None => goes_on(driver, Stage::WaitPolling(phase, deadline), ActionModel::Poll),
        }
    }
}

/// A message was written as a whole.
pub open spec fn has_sent(
    driver: DriverModel,
    settings: Settings,
    sending: Sending,
    moment: Moment,
) -> Decision {
    let deadline = phase_end(driver, settings, moment);
    match sending {
        Sending::StartTask => waits(
            driver,
            settings,
            SessionPhase::TaskStarted,
            deadline,
            moment,
        ),
        Sending::StartSession => waits(
            driver,
            settings,
            SessionPhase::Streaming,
            deadline,
            moment,
        ),
        Sending::Audio => goes_on(driver, Stage::Draining(8), ActionModel::Poll),
        Sending::Marker => match finish_session_complaint(driver.session) {
            Some(why) => breaks(driver, why.0),
            None => sends(
                DriverModel {
                    session: SessionModel { phase: SessionPhase::Finishing, ..driver.session },
                    ..driver
                },
                settings,
                Sending::FinishSession,
                request_bytes(
                    settings.token,
                    "FinishSession"@,
                    Seq::empty(),
                    Seq::empty(),
                    driver.session.request_id,
                    None,
                ),
                moment,
            ),
        },
        Sending::FinishSession => waits(
            driver,
            settings,
            SessionPhase::Finished,
            deadline,
            moment,
        ),
    }
}

/// What a polled message leads to, and whether there was one.
pub open spec fn pumped(
    driver: DriverModel,
    polled: Result<PollResult, WebSocketTransportError>,
) -> (DriverModel, Result<bool, TransportModel>) {
    match polled {
        Err(error) => (driver, Err(error@)),
        Ok(PollResult::Idle) => (driver, Ok(false)),
        Ok(PollResult::Closed) => (driver, Err(closed_fault())),
        Ok(PollResult::Event(SocketEvent::Close)) => (driver, Err(closed_fault())),
        Ok(PollResult::Event(SocketEvent::Ping(_))) => (driver, Ok(true)),
        Ok(PollResult::Event(SocketEvent::Pong)) => (driver, Ok(true)),
        Ok(PollResult::Event(SocketEvent::Binary(message))) => {
            let (session, reply) = received(driver.session, message@);
            let after = DriverModel { session, ..driver };
            match reply {
                Reply::Refused(_, code, _) => (after, Err(protocol_fault(code))),
                Reply::Event(EventModel::Recognition(event)) => if event.interim {
                    (
                        DriverModel {
                            partial_results: saturated(driver.partial_results + 1),
                            ..after
                        },
                        Ok(true),
                    )
                } else {
                    (after, Ok(true))
                },
                Reply::Event(EventModel::Finished(outcome)) => (
                    DriverModel { outcome: Some(outcome), ..after },
                    Ok(true),
                ),
                _ => (after, Ok(true)),
            }
        },
    }
}

/// The frame is encoded if its time has come.
pub open spec fn takes_slot(
    driver: DriverModel,
    settings: Settings,
    slot: u64,
    moment: Moment,
) -> Decision {
    if moment.now_nanos >= slot {
        goes_on(driver, Stage::Encoding, ActionModel::Encode(driver.frame))
    } else {
        match time_fault(driver.total_deadline, driver.total_deadline, moment) {
            Some(fault) => gives_up(driver, fault),
            None => goes_on(driver, Stage::SlotPolling(slot, 8), ActionModel::Poll),
        }
    }
}

/// How long to rest before the slot is looked at again.
pub open spec fn slot_rest(settings: Settings, slot: u64, moment: Moment) -> u64 {
    let remaining = if slot > moment.now_nanos {
        (slot - moment.now_nanos) as u64
    } else {
        0
    };
    if remaining < settings.poll_interval {
        remaining
    } else {
        settings.poll_interval
    }
}

/// The session knows that the audio may have left.
pub open spec fn marked(session: SessionModel) -> SessionModel {
    SessionModel { audio_acceptance: AudioAcceptance::PossiblyAccepted, ..session }
}

/// The session counts the pending frame as sent.
pub open spec fn counted(session: SessionModel) -> SessionModel {
    SessionModel {
        input: InputState::Open,
        sent_audio_frames: saturated(session.sent_audio_frames + 1),
        ..marked(session)
    }
}

pub open spec fn ambiguous_complaint(session: SessionModel) -> Option<(Seq<char>, Seq<char>)> {
    pending_complaint(session, "Doubao has no pending audio request to mark ambiguous"@)
}

pub open spec fn confirm_complaint(session: SessionModel) -> Option<(Seq<char>, Seq<char>)> {
    pending_complaint(session, "Doubao has no pending audio request to confirm"@)
}

/// The socket took the message, handed it back or failed.
pub open spec fn on_queued(
    driver: DriverModel,
    sending: Sending,
    deadline: u64,
    queued: Result<QueueBinaryResult, WebSocketTransportError>,
    moment: Moment,
) -> Decision {
    match queued {
        Ok(QueueBinaryResult::Full(payload)) => unblocks(
            driver,
            sending,
            deadline,
            payload@,
            moment,
        ),
        _ => if sending == Sending::Audio && ambiguous_complaint(driver.session) is Some {
            breaks(driver, (ambiguous_complaint(driver.session)->0).0)
        } else {
            let noted = if sending == Sending::Audio {
                DriverModel { session: marked(driver.session), ..driver }
            } else {
                driver
            };
            match queued {
                Err(error) => gives_up(noted, error@),
                _ => flushes(noted, sending, deadline, moment),
            }
        },
    }
}

/// The queued message was flushed or not.
pub open spec fn on_flushed(
    driver: DriverModel,
    settings: Settings,
    sending: Sending,
    deadline: u64,
    flushed: Result<FlushResult, WebSocketTransportError>,
    moment: Moment,
) -> Decision {
    match flushed {
        Err(error) => gives_up(driver, error@),
        Ok(FlushResult::Closed) => gives_up(driver, closed_fault()),
        Ok(FlushResult::Pending) => goes_on(
            driver,
            Stage::FlushPolling(sending, deadline),
            ActionModel::Poll,
        ),
        Ok(FlushResult::Flushed) => if sending == Sending::Audio {
            match confirm_complaint(driver.session) {
                Some(why) => breaks(driver, why.0),
                None => has_sent(
                    DriverModel { session: counted(driver.session), ..driver },
                    settings,
                    sending,
                    moment,
                ),
            }
        } else {
            has_sent(driver, settings, sending, moment)
        },
    }
}

/// What follows a poll that did not fail.
pub open spec fn after_poll(
    driver: DriverModel,
    settings: Settings,
    more: bool,
    moment: Moment,
) -> Decision {
    match driver.stage {
        Stage::Refilling(sending, deadline) => queues(
            DriverModel { held: Seq::empty(), ..driver },
            sending,
            deadline,
            driver.held,
            moment,
        ),
        Stage::FlushPolling(sending, deadline) => goes_on(
            driver,
            Stage::FlushResting(sending, deadline),
            ActionModel::Rest(settings.poll_interval),
        ),
        Stage::WaitPolling(phase, deadline) => goes_on(
            driver,
            Stage::WaitResting(phase, deadline),
            ActionModel::Rest(settings.poll_interval),
        ),
        Stage::SlotPolling(slot, left) => if more && left > 1 {
            goes_on(driver, Stage::SlotPolling(slot, (left - 1) as u8), ActionModel::Poll)
        } else {
            goes_on(
                driver,
                Stage::SlotResting(slot),
                ActionModel::Rest(slot_rest(settings, slot, moment)),
            )
        },
        Stage::Draining(left) => if more && left > 1 {
            goes_on(driver, Stage::Draining((left - 1) as u8), ActionModel::Poll)
        } else {
            goes_on(driver, Stage::Reading, ActionModel::ReadFrame)
        },
        _ => (driver, Ok(ActionModel::Poll)),
    }
}

pub open spec fn on_polled(
    driver: DriverModel,
    settings: Settings,
    polled: Result<PollResult, WebSocketTransportError>,
    moment: Moment,
) -> Decision {
    let (after, more) = pumped(driver, polled);
    match more {
        Err(fault) => gives_up(after, fault),
        Ok(more) => after_poll(after, settings, more, moment),
    }
}

pub open spec fn on_clock(driver: DriverModel, clock: WallClock) -> Decision {
    match clock {
        WallClock::BeforeEpoch => gives_up(
            driver,
            transport_fault(
                ErrorCategory::Internal,
                false,
                "doubao.system_clock_invalid"@,
                "System clock is before the Unix epoch"@,
            ),
        ),
        WallClock::Millis(millis) => if millis > u64::MAX {
            gives_up(
                driver,
                transport_fault(
                    ErrorCategory::Internal,
                    false,
                    "doubao.system_clock_overflow"@,
                    "System clock timestamp is too large"@,
                ),
            )
        } else {
            goes_on(
                DriverModel { timestamp_base: millis as u64, ..driver },
                Stage::Reading,
                ActionModel::ReadFrame,
            )
        },
    }
}

pub open spec fn fault_of(error: VoxError) -> TransportModel {
    transport_fault(error.kind(), error.retry(), error.code_text(), error.message_text())
}

pub open spec fn on_frame(
    driver: DriverModel,
    settings: Settings,
    frame: Result<Option<[u8; 640]>, VoxError>,
    moment: Moment,
) -> Decision {
    match frame {
        Err(error) => gives_up(driver, fault_of(error)),
        Ok(Some(frame)) => takes_slot(
            DriverModel { frame: frame@, ..driver },
            settings,
            next_slot(driver, settings),
            moment,
        ),
        Ok(None) => match finish_complaint(driver.session) {
            Some(why) => breaks(driver, why.0),
            None => sends(
                DriverModel {
                    session: SessionModel { input: InputState::Finished, ..driver.session },
                    ..driver
                },
                settings,
                Sending::Marker,
                request_bytes(
                    Seq::empty(),
                    "TaskRequest"@,
                    encode_utf8(timestamp_text(next_timestamp(driver) as nat)),
                    Seq::new(100, |i: int| 0u8),
                    driver.session.request_id,
                    Some(FrameState::Last),
                ),
                moment,
            ),
        },
    }
}

pub open spec fn on_encoded(
    driver: DriverModel,
    settings: Settings,
    encoded: Result<Vec<u8>, OpusCodecError>,
    moment: Moment,
) -> Decision {
    match encoded {
        Err(_) => gives_up(
            driver,
            transport_fault(
                ErrorCategory::Internal,
                false,
                "doubao.opus_encode_failed"@,
                "Could not encode a Doubao Opus frame"@,
            ),
        ),
        Ok(packet) => match audio_complaint(driver.session, packet@.len()) {
            Some(why) => breaks(driver, why.0),
            None => sends(
                DriverModel {
                    session: SessionModel {
                        input: InputState::AudioRequestPending,
                        ..driver.session
                    },
                    ..driver
                },
                settings,
                Sending::Audio,
                request_bytes(
                    Seq::empty(),
                    "TaskRequest"@,
                    encode_utf8(timestamp_text(next_timestamp(driver) as nat)),
                    packet@,
                    driver.session.request_id,
                    Some(
                        if driver.session.sent_audio_frames == 0 {
                            FrameState::First
                        } else {
                            FrameState::Middle
                        },
                    ),
                ),
                moment,
            ),
        },
    }
}

pub open spec fn begins_task(driver: DriverModel, settings: Settings, moment: Moment) -> Decision {
    if driver.session.phase != SessionPhase::Disconnected {
        breaks(driver, "doubao.task_already_started"@)
    } else {
        sends(
            DriverModel {
                session: SessionModel { phase: SessionPhase::TaskStarting, ..driver.session },
                ..driver
            },
            settings,
            Sending::StartTask,
            request_bytes(
                settings.token,
                "StartTask"@,
                Seq::empty(),
                Seq::empty(),
                driver.session.request_id,
                None,
            ),
            moment,
        )
    }
}

/// The event answers what the attempt asked for.
pub open spec fn fits(stage: Stage, event: DriverEvent) -> bool {
    match event {
        DriverEvent::Begin => stage is Ready,
        DriverEvent::Queued(_) => stage is Queueing,
        DriverEvent::Flushed(_) => stage is Unblocking || stage is Flushing,
        DriverEvent::Polled(_) => stage is Refilling || stage is FlushPolling
            || stage is WaitPolling || stage is SlotPolling || stage is Draining,
        DriverEvent::Rested => stage is FlushResting || stage is WaitResting
            || stage is SlotResting,
        DriverEvent::Clock(_) => stage is Dating,
        DriverEvent::Frame(_) => stage is Reading,
        DriverEvent::Encoded(_) => stage is Encoding,
    }
}

/// What the attempt does next.
pub open spec fn advanced(
    driver: DriverModel,
    settings: Settings,
    event: DriverEvent,
    moment: Moment,
) -> Decision {
    match (driver.stage, event) {
        (Stage::Ready, DriverEvent::Begin) => begins_task(driver, settings, moment),
        (Stage::Queueing(sending, deadline), DriverEvent::Queued(queued)) => on_queued(
            driver,
            sending,
            deadline,
            queued,
            moment,
        ),
        (Stage::Unblocking(sending, deadline), DriverEvent::Flushed(flushed)) => match flushed {
            Err(error) => gives_up(driver, error@),
            Ok(FlushResult::Closed) => gives_up(driver, closed_fault()),
            Ok(_) => goes_on(driver, Stage::Refilling(sending, deadline), ActionModel::Poll),
        },
        (Stage::Flushing(sending, deadline), DriverEvent::Flushed(flushed)) => on_flushed(
            driver,
            settings,
            sending,
            deadline,
            flushed,
            moment,
        ),
        (_, DriverEvent::Polled(polled)) => on_polled(driver, settings, polled, moment),
        (Stage::FlushResting(sending, deadline), DriverEvent::Rested) => flushes(
            driver,
            sending,
            deadline,
            moment,
        ),
        (Stage::WaitResting(phase, deadline), DriverEvent::Rested) => waits(
            driver,
            settings,
            phase,
            deadline,
            moment,
        ),
        (Stage::SlotResting(slot), DriverEvent::Rested) => takes_slot(
            driver,
            settings,
            slot,
            moment,
        ),
        (_, DriverEvent::Clock(clock)) => on_clock(driver, clock),
        (_, DriverEvent::Frame(frame)) => on_frame(driver, settings, frame, moment),
        (_, DriverEvent::Encoded(encoded)) => on_encoded(driver, settings, encoded, moment),
        _ => (driver, Ok(ActionModel::Poll)),
    }
}

/// `r` is what was decided.
pub open spec fn decides(
    r: Result<DriverAction, VoxError>,
    decision: Result<ActionModel, TransportModel>,
) -> bool {
    match decision {
        Ok(action) => r matches Ok(answer) && answer@ == action,
        Err(fault) => r matches Err(error) && reports(error, fault),
    }
}

/// The product, or the largest number where it is larger.
fn saturating_product(a: u64, b: u64) -> (r: u64)
    ensures
        r == saturated(a * b),
{
    if a == 0 {
        assert(a * b == 0) by (nonlinear_arith)
            requires
                a == 0,
        ;
        return 0;
    }
    if b > u64::MAX / a {
        assert(a * b > u64::MAX) by (nonlinear_arith)
            requires
                b > u64::MAX / a,
                a > 0,
        ;
        return u64::MAX;
    }
    assert(a * b <= u64::MAX) by (nonlinear_arith)
        requires
            b <= u64::MAX / a,
            a > 0,
    ;
    a * b
}

/// Checks the clock and the cancellation before a step.
pub fn check_deadlines(total_deadline: u64, deadline: u64, moment: Moment) -> (r: Result<
    (),
    VoxError,
>)
    ensures
        match r {
            Ok(_) => time_fault(total_deadline, deadline, moment) is None,
            Err(error) => time_fault(total_deadline, deadline, moment) matches Some(fault)
                && reports(error, fault),
        },
{
    if moment.is_cancelled {
        return Err(
            VoxError::new(
                ErrorCategory::Cancelled,
                "doubao.session_cancelled",
                "Doubao recognition session was cancelled",
            ).with_retryable(false),
        );
    }
    if moment.now_nanos >= total_deadline {
        return Err(
            VoxError::new(
                ErrorCategory::Timeout,
                "doubao.total_timeout",
                "Doubao recognition exceeded its total timeout",
            ).with_retryable(true),
        );
    }
    if moment.now_nanos >= deadline {
        return Err(
            VoxError::new(
                ErrorCategory::Timeout,
                "doubao.phase_timeout",
                "Doubao recognition phase timed out",
            ).with_retryable(true),
        );
    }
    Ok(())
}

/// A recognition attempt on an open connection.
#[derive(Debug)]
pub struct SessionDriver {
    protocol: DoubaoSessionProtocol,
    partial_results: u64,
    outcome: Option<SessionOutcome>,
    stage: Stage,
    held: Vec<u8>,
    frame: [u8; 640],
    started_at: u64,
    timestamp_base: u64,
    total_deadline: u64,
}

impl SessionDriver {
    pub closed spec fn view(&self) -> DriverModel {
        DriverModel {
            session: self.protocol@,
            partial_results: self.partial_results,
            outcome: match self.outcome {
                Some(outcome) => Some(outcome@),
                None => None,
            },
            stage: self.stage,
            held: self.held@,
            frame: self.frame@,
            started_at: self.started_at,
            timestamp_base: self.timestamp_base,
            total_deadline: self.total_deadline,
        }
    }

    /// An attempt that begins now.
    pub fn new(protocol: DoubaoSessionProtocol, config: &DoubaoRunConfig, now_nanos: u64) -> (driver:
        Self)
        ensures
            driver@ == (DriverModel {
                session: protocol@,
                partial_results: 0,
                outcome: None,
                stage: Stage::Ready,
                held: Seq::empty(),
                frame: Seq::new(640, |i: int| 0u8),
                started_at: 0,
                timestamp_base: 0,
                total_deadline: deadline_after(now_nanos, config.total_timeout_nanos),
            }),
    {
        let driver = SessionDriver {
            protocol,
            partial_results: 0,
            outcome: None,
            stage: Stage::Ready,
            held: Vec::new(),
            frame: [0u8; 640],
            started_at: 0,
            timestamp_base: 0,
            total_deadline: now_nanos.saturating_add(config.total_timeout_nanos),
        };
        assert(driver@.frame =~= Seq::new(640, |i: int| 0u8));
        assert(driver@.held =~= Seq::<u8>::empty());
        driver
    }

    pub fn stage(&self) -> (r: Stage)
        ensures
            r == self@.stage,
    {
        self.stage
    }

    /// Whether the event answers what the attempt asked for.
    pub fn expects(&self, event: &DriverEvent) -> (r: bool)
        ensures
            r == fits(self@.stage, *event),
    {
        match (self.stage, event) {
            (Stage::Ready, DriverEvent::Begin) => true,
            (Stage::Queueing(_, _), DriverEvent::Queued(_)) => true,
            (Stage::Unblocking(_, _), DriverEvent::Flushed(_)) => true,
            (Stage::Flushing(_, _), DriverEvent::Flushed(_)) => true,
            (Stage::Refilling(_, _), DriverEvent::Polled(_)) => true,
            (Stage::FlushPolling(_, _), DriverEvent::Polled(_)) => true,
            (Stage::WaitPolling(_, _), DriverEvent::Polled(_)) => true,
            (Stage::SlotPolling(_, _), DriverEvent::Polled(_)) => true,
            (Stage::Draining(_), DriverEvent::Polled(_)) => true,
            (Stage::FlushResting(_, _), DriverEvent::Rested) => true,
            (Stage::WaitResting(_, _), DriverEvent::Rested) => true,
            (Stage::SlotResting(_), DriverEvent::Rested) => true,
            (Stage::Dating, DriverEvent::Clock(_)) => true,
            (Stage::Reading, DriverEvent::Frame(_)) => true,
            (Stage::Encoding, DriverEvent::Encoded(_)) => true,
            _ => false,
        }
    }

    fn give_up(&mut self, error: VoxError) -> (r: Result<DriverAction, VoxError>)
        ensures
            r == Err::<DriverAction, VoxError>(error),
            final(self)@ == (DriverModel { stage: Stage::Failed, ..old(self)@ }),
    {
        self.stage = Stage::Failed;
        Err(error)
    }

    fn go_on(&mut self, stage: Stage, action: DriverAction) -> (r: Result<DriverAction, VoxError>)
        ensures
            r == Ok::<DriverAction, VoxError>(action),
            final(self)@ == (DriverModel { stage, ..old(self)@ }),
    {
        self.stage = stage;
        Ok(action)
    }

    fn phase_deadline(&self, config: &DoubaoRunConfig, moment: Moment) -> (r: u64)
        ensures
            forall|token: Seq<char>|
                r == phase_end(self@, #[trigger] settings_of(*config, token), moment),
    {
        let end: u64 = moment.now_nanos.saturating_add(config.phase_timeout_nanos);
        if end < self.total_deadline {
            end
        } else {
            self.total_deadline
        }
    }

    fn queue(&mut self, sending: Sending, deadline: u64, payload: Vec<u8>, moment: Moment) -> (r:
        Result<DriverAction, VoxError>)
        ensures
            ({
                let decision = queues(old(self)@, sending, deadline, payload@, moment);
                final(self)@ == decision.0 && decides(r, decision.1)
            }),
    {
        match check_deadlines(self.total_deadline, deadline, moment) {
            Ok(_) => self.go_on(Stage::Queueing(sending, deadline), DriverAction::Queue(payload)),
            Err(error) => self.give_up(error),
        }
    }

    fn flush(&mut self, sending: Sending, deadline: u64, moment: Moment) -> (r: Result<
        DriverAction,
        VoxError,
    >)
        ensures
            ({
                let decision = flushes(old(self)@, sending, deadline, moment);
                final(self)@ == decision.0 && decides(r, decision.1)
            }),
    {
        match check_deadlines(self.total_deadline, deadline, moment) {
            Ok(_) => self.go_on(Stage::Flushing(sending, deadline), DriverAction::Flush),
            Err(error) => self.give_up(error),
        }
    }

    fn begin(&mut self, config: &DoubaoRunConfig, token: &SecretString, moment: Moment) -> (r:
        Result<DriverAction, VoxError>)
        ensures
            ({
                let decision = begins_task(old(self)@, settings_of(*config, token@), moment);
                final(self)@ == decision.0 && decides(r, decision.1)
            }),
    {
        match self.protocol.start_task(token) {
            Err(error) => self.give_up(protocol_vox_error(error)),
            Ok(request) => {
                let deadline: u64 = self.phase_deadline(config, moment);
                self.queue(Sending::StartTask, deadline, slice_to_vec(request.as_bytes()), moment)
            },
        }
    }

    fn reach(
        &mut self,
        config: &DoubaoRunConfig,
        token: &SecretString,
        phase: SessionPhase,
        moment: Moment,
    ) -> (r: Result<DriverAction, VoxError>)
        requires
            old(self)@.session.phase == phase,
        ensures
            ({
                let decision = reaches(old(self)@, settings_of(*config, token@), phase, moment);
                final(self)@ == decision.0 && decides(r, decision.1)
            }),
    {
        if phase == SessionPhase::TaskStarted {
            match self.protocol.start_session(token, &config.session_json) {
                Err(error) => self.give_up(protocol_vox_error(error)),
                Ok(request) => {
                    let deadline: u64 = self.phase_deadline(config, moment);
                    self.queue(Sending::StartSession, deadline, slice_to_vec(request.as_bytes()), moment)
                },
            }
        } else if phase == SessionPhase::Streaming {
            self.started_at = moment.now_nanos;
            self.go_on(Stage::Dating, DriverAction::ReadClock)
        } else {
            let kept = self.outcome.take();
            match kept {
                None => self.give_up(
                    VoxError::new(
                        ErrorCategory::Protocol,
                        "doubao.missing_session_outcome",
                        "Doubao session finished without a retained outcome",
                    ).with_retryable(false),
                ),
                Some(outcome) => {
                    let transcription = DoubaoTranscription {
                        text: outcome.transcript,
                        sent_audio_millis: saturating_product(outcome.sent_audio_frames, 20),
                        partial_results: self.partial_results,
                        provider_vad_started: outcome.provider_vad_started,
                        provider_vad_finished: outcome.provider_vad_finished,
                    };
                    self.go_on(Stage::Done, DriverAction::Finish(transcription))
                },
            }
        }
    }

    fn wait_for_phase(
        &mut self,
        config: &DoubaoRunConfig,
        token: &SecretString,
        phase: SessionPhase,
        deadline: u64,
        moment: Moment,
    ) -> (r: Result<DriverAction, VoxError>)
        ensures
            ({
                let decision = waits(
                    old(self)@,
                    settings_of(*config, token@),
                    phase,
                    deadline,
                    moment,
                );
                final(self)@ == decision.0 && decides(r, decision.1)
            }),
    {
        if self.protocol.phase() == phase {
            return self.reach(config, token, phase, moment);
        }
        match check_deadlines(self.total_deadline, deadline, moment) {
            Ok(_) => self.go_on(Stage::WaitPolling(phase, deadline), DriverAction::Poll),
            Err(error) => self.give_up(error),
        }
    }

    fn after_sending(
        &mut self,
        config: &DoubaoRunConfig,
        token: &SecretString,
        sending: Sending,
        moment: Moment,
    ) -> (r: Result<DriverAction, VoxError>)
        ensures
            ({
                let decision = has_sent(
                    old(self)@,
                    settings_of(*config, token@),
                    sending,
                    moment,
                );
                final(self)@ == decision.0 && decides(r, decision.1)
            }),
    {
        let deadline: u64 = self.phase_deadline(config, moment);
        match sending {
            Sending::StartTask => self.wait_for_phase(
                config,
                token,
                SessionPhase::TaskStarted,
                deadline,
                moment,
            ),
            Sending::StartSession => self.wait_for_phase(
                config,
                token,
                SessionPhase::Streaming,
                deadline,
                moment,
            ),
            Sending::Audio => self.go_on(
                Stage::Draining(MAX_INBOUND_PER_TICK),
                DriverAction::Poll,
            ),
            Sending::Marker => match self.protocol.finish_session(token) {
                Err(error) => self.give_up(protocol_vox_error(error)),
                Ok(request) => self.queue(
                    Sending::FinishSession,
                    deadline,
                    slice_to_vec(request.as_bytes()),
                    moment,
                ),
            },
            Sending::FinishSession => self.wait_for_phase(
                config,
                token,
                SessionPhase::Finished,
                deadline,
                moment,
            ),
        }
    }

    /// Takes in what a poll brought.
    fn pump_once(&mut self, polled: Result<PollResult, WebSocketTransportError>) -> (r: Result<
        bool,
        VoxError,
    >)
        ensures
            final(self)@ == pumped(old(self)@, polled).0,
            match pumped(old(self)@, polled).1 {
                Ok(more) => r == Ok::<bool, VoxError>(more),
                Err(fault) => r matches Err(error) && reports(error, fault),
            },
    {
        match polled {
            Err(error) => Err(error.into_vox_error()),
            Ok(PollResult::Idle) => Ok(false),
            Ok(PollResult::Closed) => Err(connection_closed()),
            Ok(PollResult::Event(event)) => match event {
                SocketEvent::Close => Err(connection_closed()),
                SocketEvent::Ping(_) => Ok(true),
                SocketEvent::Pong => Ok(true),
                SocketEvent::Binary(message) => match self.protocol.handle_binary(&message) {
                    Err(error) => Err(protocol_vox_error(error)),
                    Ok(None) => Ok(true),
                    Ok(Some(event)) => {
                        match event {
                            SessionEvent::Recognition(recognition) => {
                                if recognition.interim {
                                    self.partial_results = self.partial_results.saturating_add(1);
                                }
                            },
                            SessionEvent::Finished(outcome) => {
                                self.outcome = Some(outcome);
                            },
                            _ => {},
                        }
                        Ok(true)
                    },
                },
            },
        }
    }

    fn take_queued(
        &mut self,
        sending: Sending,
        deadline: u64,
        queued: Result<QueueBinaryResult, WebSocketTransportError>,
        moment: Moment,
    ) -> (r: Result<DriverAction, VoxError>)
        ensures
            ({
                let decision = on_queued(old(self)@, sending, deadline, queued, moment);
                final(self)@ == decision.0 && decides(r, decision.1)
            }),
    {
        let fault = match queued {
            Ok(QueueBinaryResult::Full(payload)) => {
                return match check_deadlines(self.total_deadline, deadline, moment) {
                    Ok(_) => {
                        self.held = payload;
                        self.go_on(Stage::Unblocking(sending, deadline), DriverAction::Flush)
                    },
                    Err(error) => self.give_up(error),
                };
            },
            Ok(QueueBinaryResult::Queued) => None,
            Err(error) => Some(error),
        };
        if sending == Sending::Audio {
            match self.protocol.mark_audio_write_ambiguous() {
                Ok(_) => {},
                Err(error) => {
                    return self.give_up(protocol_vox_error(error));
                },
            }
        }
        match fault {
            None => self.flush(sending, deadline, moment),
            Some(error) => self.give_up(error.into_vox_error()),
        }
    }

    fn take_flushed(
        &mut self,
        config: &DoubaoRunConfig,
        token: &SecretString,
        sending: Sending,
        deadline: u64,
        flushed: Result<FlushResult, WebSocketTransportError>,
        moment: Moment,
    ) -> (r: Result<DriverAction, VoxError>)
        ensures
            ({
                let decision = on_flushed(
                    old(self)@,
                    settings_of(*config, token@),
                    sending,
                    deadline,
                    flushed,
                    moment,
                );
                final(self)@ == decision.0 && decides(r, decision.1)
            }),
    {
        match flushed {
            Err(error) => self.give_up(error.into_vox_error()),
            Ok(FlushResult::Closed) => self.give_up(connection_closed()),
            Ok(FlushResult::Pending) => self.go_on(
                Stage::FlushPolling(sending, deadline),
                DriverAction::Poll,
            ),
            Ok(FlushResult::Flushed) => {
                if sending == Sending::Audio {
                    match self.protocol.confirm_audio_sent() {
                        Ok(_) => {},
                        Err(error) => {
                            return self.give_up(protocol_vox_error(error));
                        },
                    }
                }
                self.after_sending(config, token, sending, moment)
            },
        }
    }

    fn take_polled(
        &mut self,
        config: &DoubaoRunConfig,
        token: &SecretString,
        polled: Result<PollResult, WebSocketTransportError>,
        moment: Moment,
    ) -> (r: Result<DriverAction, VoxError>)
        requires
            fits(old(self)@.stage, DriverEvent::Polled(polled)),
        ensures
            ({
                let decision = on_polled(
                    old(self)@,
                    settings_of(*config, token@),
                    polled,
                    moment,
                );
                final(self)@ == decision.0 && decides(r, decision.1)
            }),
    {
        let more = match self.pump_once(polled) {
            Ok(more) => more,
            Err(error) => {
                return self.give_up(error);
            },
        };
        let poll_interval: u64 = config.websocket.poll_interval_nanos;
        match self.stage {
            Stage::Refilling(sending, deadline) => {
                let mut payload: Vec<u8> = Vec::new();
                std::mem::swap(&mut payload, &mut self.held);
                assert(self.held@ =~= Seq::<u8>::empty());
                self.queue(sending, deadline, payload, moment)
            },
            Stage::FlushPolling(sending, deadline) => self.go_on(
                Stage::FlushResting(sending, deadline),
                DriverAction::Rest(poll_interval),
            ),
            Stage::WaitPolling(phase, deadline) => self.go_on(
                Stage::WaitResting(phase, deadline),
                DriverAction::Rest(poll_interval),
            ),
            Stage::SlotPolling(slot, left) => if more && left > 1 {
                self.go_on(Stage::SlotPolling(slot, left - 1), DriverAction::Poll)
            } else {
                let remaining: u64 = slot.saturating_sub(moment.now_nanos);
                let rest: u64 = if remaining < poll_interval {
                    remaining
                } else {
                    poll_interval
                };
                self.go_on(Stage::SlotResting(slot), DriverAction::Rest(rest))
            },
            Stage::Draining(left) => if more && left > 1 {
                self.go_on(Stage::Draining(left - 1), DriverAction::Poll)
            } else {
                self.go_on(Stage::Reading, DriverAction::ReadFrame)
            },
            _ => Ok(DriverAction::Poll),
        }
    }

    fn take_clock(&mut self, clock: WallClock) -> (r: Result<DriverAction, VoxError>)
        ensures
            final(self)@ == on_clock(old(self)@, clock).0,
            decides(r, on_clock(old(self)@, clock).1),
    {
        match clock {
            WallClock::BeforeEpoch => self.give_up(
                VoxError::new(
                    ErrorCategory::Internal,
                    "doubao.system_clock_invalid",
                    "System clock is before the Unix epoch",
                ).with_retryable(false),
            ),
            WallClock::Millis(millis) => {
                if millis > u64::MAX as u128 {
                    return self.give_up(
                        VoxError::new(
                            ErrorCategory::Internal,
                            "doubao.system_clock_overflow",
                            "System clock timestamp is too large",
                        ).with_retryable(false),
                    );
                }
                self.timestamp_base = millis as u64;
                self.go_on(Stage::Reading, DriverAction::ReadFrame)
            },
        }
    }

    fn wait_for_send_slot(&mut self, config: &DoubaoRunConfig, slot: u64, moment: Moment) -> (r:
        Result<DriverAction, VoxError>)
        ensures
            forall|token: Seq<char>|
                ({
                    let decision = takes_slot(
                        old(self)@,
                        #[trigger] settings_of(*config, token),
                        slot,
                        moment,
                    );
                    final(self)@ == decision.0 && decides(r, decision.1)
                }),
    {
        if moment.now_nanos >= slot {
            let frame = self.frame;
            return self.go_on(Stage::Encoding, DriverAction::Encode(frame));
        }
        match check_deadlines(self.total_deadline, self.total_deadline, moment) {
            Ok(_) => self.go_on(
                Stage::SlotPolling(slot, MAX_INBOUND_PER_TICK),
                DriverAction::Poll,
            ),
            Err(error) => self.give_up(error),
        }
    }

    fn timestamp(&self) -> (r: u64)
        ensures
            r == next_timestamp(self@),
    {
        self.timestamp_base.saturating_add(
            saturating_product(self.protocol.sent_audio_frames(), 20),
        )
    }

    fn send_slot(&self, config: &DoubaoRunConfig) -> (r: u64)
        ensures
            forall|token: Seq<char>|
                r == next_slot(self@, #[trigger] settings_of(*config, token)),
    {
        let sent: u64 = self.protocol.sent_audio_frames();
        let frames: u64 = if sent > u32::MAX as u64 {
            u32::MAX as u64
        } else {
            sent
        };
        self.started_at.saturating_add(saturating_product(config.frame_interval_nanos, frames))
    }

    fn take_frame(
        &mut self,
        config: &DoubaoRunConfig,
        token: &SecretString,
        frame: Result<Option<[u8; 640]>, VoxError>,
        moment: Moment,
    ) -> (r: Result<DriverAction, VoxError>)
        ensures
            ({
                let decision = on_frame(
                    old(self)@,
                    settings_of(*config, token@),
                    frame,
                    moment,
                );
                final(self)@ == decision.0 && decides(r, decision.1)
            }),
    {
        match frame {
            Err(error) => self.give_up(error),
            Ok(Some(frame)) => {
                let slot: u64 = self.send_slot(config);
                self.frame = frame;
                self.wait_for_send_slot(config, slot, moment)
            },
            Ok(None) => {
                let timestamp: u64 = self.timestamp();
                match self.protocol.finish_audio(timestamp) {
                    Err(error) => self.give_up(protocol_vox_error(error)),
                    Ok(marker) => {
                        let deadline: u64 = self.phase_deadline(config, moment);
                        self.queue(Sending::Marker, deadline, marker, moment)
                    },
                }
            },
        }
    }

    fn take_encoded(
        &mut self,
        config: &DoubaoRunConfig,
        token: &SecretString,
        encoded: Result<Vec<u8>, OpusCodecError>,
        moment: Moment,
    ) -> (r: Result<DriverAction, VoxError>)
        ensures
            ({
                let decision = on_encoded(
                    old(self)@,
                    settings_of(*config, token@),
                    encoded,
                    moment,
                );
                final(self)@ == decision.0 && decides(r, decision.1)
            }),
    {
        match encoded {
            Err(_) => self.give_up(
                VoxError::new(
                    ErrorCategory::Internal,
                    "doubao.opus_encode_failed",
                    "Could not encode a Doubao Opus frame",
                ).with_retryable(false),
            ),
            Ok(packet) => {
                let timestamp: u64 = self.timestamp();
                match self.protocol.audio_request(timestamp, &packet) {
                    Err(error) => self.give_up(protocol_vox_error(error)),
                    Ok(request) => {
                        let deadline: u64 = self.phase_deadline(config, moment);
                        self.queue(Sending::Audio, deadline, request, moment)
                    },
                }
            },
        }
    }

    /// Takes in what came of the last action and decides on the next one.
    pub fn advance(
        &mut self,
        config: &DoubaoRunConfig,
        token: &SecretString,
        event: DriverEvent,
        moment: Moment,
    ) -> (r: Result<DriverAction, VoxError>)
        requires
            fits(old(self)@.stage, event),
        ensures
            ({
                let decision = advanced(
                    old(self)@,
                    settings_of(*config, token@),
                    event,
                    moment,
                );
                final(self)@ == decision.0 && decides(r, decision.1)
            }),
    {
        match event {
            DriverEvent::Begin => self.begin(config, token, moment),
            DriverEvent::Queued(queued) => match self.stage {
                Stage::Queueing(sending, deadline) => self.take_queued(
                    sending,
                    deadline,
                    queued,
                    moment,
                ),
                _ => Ok(DriverAction::Poll),
            },
            DriverEvent::Flushed(flushed) => match self.stage {
                Stage::Unblocking(sending, deadline) => match flushed {
                    Err(error) => self.give_up(error.into_vox_error()),
                    Ok(FlushResult::Closed) => self.give_up(connection_closed()),
                    Ok(_) => self.go_on(Stage::Refilling(sending, deadline), DriverAction::Poll),
                },
                Stage::Flushing(sending, deadline) => self.take_flushed(
                    config,
                    token,
                    sending,
                    deadline,
                    flushed,
                    moment,
                ),
                _ => Ok(DriverAction::Poll),
            },
            DriverEvent::Polled(polled) => self.take_polled(config, token, polled, moment),
            DriverEvent::Rested => match self.stage {
                Stage::FlushResting(sending, deadline) => self.flush(sending, deadline, moment),
                Stage::WaitResting(phase, deadline) => self.wait_for_phase(
                    config,
                    token,
                    phase,
                    deadline,
                    moment,
                ),
                Stage::SlotResting(slot) => self.wait_for_send_slot(config, slot, moment),
                _ => Ok(DriverAction::Poll),
            },
            DriverEvent::Clock(clock) => self.take_clock(clock),
            DriverEvent::Frame(frame) => self.take_frame(config, token, frame, moment),
            DriverEvent::Encoded(encoded) => self.take_encoded(config, token, encoded, moment),
        }
    }

    /// The failure of the attempt with what is known of its audio.
    pub fn conclude(self, error: VoxError) -> (failure: ProviderAttemptFailure)
        ensures
            failure.error == error,
            failure.transport_started,
            failure.audio_acceptance == self@.session.audio_acceptance,
    {
        let mut protocol = self.protocol;
        protocol.cancel();
        ProviderAttemptFailure::after_transport(error, protocol.audio_acceptance())
    }
}

/// A cancelled attempt sends nothing more: no message is queued and none is flushed.
pub proof fn law_cancelled_attempt_sends_nothing(
    driver: DriverModel,
    settings: Settings,
    event: DriverEvent,
    moment: Moment,
)
    requires
        fits(driver.stage, event),
        moment.is_cancelled,
    ensures
        ({
            let action = advanced(driver, settings, event, moment).1;
            action is Err || (action->Ok_0 !is Queue && action->Ok_0 !is Flush)
        }),
{
}

/// Once a frame was handed to the socket, the attempt never claims that no audio has left.
pub proof fn law_queued_audio_counts_as_possibly_accepted(
    driver: DriverModel,
    settings: Settings,
    deadline: u64,
    queued: Result<QueueBinaryResult, WebSocketTransportError>,
    moment: Moment,
)
    requires
        driver.stage == Stage::Queueing(Sending::Audio, deadline),
        driver.session.phase == SessionPhase::Streaming,
        driver.session.input == InputState::AudioRequestPending,
        !(queued matches Ok(QueueBinaryResult::Full(_))),
    ensures
        advanced(driver, settings, DriverEvent::Queued(queued), moment).0.session.audio_acceptance
            != AudioAcceptance::NotAccepted,
{
}

/// A message that a full buffer handed back is queued again unchanged.
pub proof fn law_returned_message_is_queued_again(
    driver: DriverModel,
    settings: Settings,
    sending: Sending,
    deadline: u64,
    payload: Vec<u8>,
    flushed: FlushResult,
    moment: Moment,
)
    requires
        driver.stage == Stage::Queueing(sending, deadline),
        time_fault(driver.total_deadline, deadline, moment) is None,
        flushed != FlushResult::Closed,
    ensures
        ({
            let full = DriverEvent::Queued(Ok(QueueBinaryResult::Full(payload)));
            let blocked = advanced(driver, settings, full, moment).0;
            let idle = DriverEvent::Polled(Ok(PollResult::Idle));
            let polling = advanced(
                blocked,
                settings,
                DriverEvent::Flushed(Ok(flushed)),
                moment,
            ).0;
            let again = advanced(polling, settings, idle, moment);
            &&& again.1 == Ok::<ActionModel, TransportModel>(ActionModel::Queue(payload@))
            &&& again.0.stage == driver.stage
            &&& again.0.session == driver.session
        }),
{
}

/// A transcription is handed out only for a session that finished, and it is the outcome that the
/// session announced.
pub proof fn law_transcription_is_the_outcome(
    driver: DriverModel,
    settings: Settings,
    event: DriverEvent,
    moment: Moment,
)
    requires
        fits(driver.stage, event),
        driver.stage matches Stage::WaitResting(phase, _) ==> phase == SessionPhase::TaskStarted
            || phase == SessionPhase::Streaming || phase == SessionPhase::Finished,
    ensures
        advanced(driver, settings, event, moment).1 matches Ok(ActionModel::Finish(transcription))
            ==> {
            &&& driver.session.phase == SessionPhase::Finished
            &&& driver.outcome is Some
            &&& transcription.text == driver.outcome->0.transcript
            &&& transcription.sent_audio_millis == audio_millis(
                driver.outcome->0.sent_audio_frames,
            )
        },
{
}

/// No more than eight messages are taken in before the next frame is read.
pub proof fn law_draining_ends(
    driver: DriverModel,
    settings: Settings,
    left: u8,
    polled: Result<PollResult, WebSocketTransportError>,
    moment: Moment,
)
    requires
        driver.stage == Stage::Draining(left),
    ensures
        ({
            let after = advanced(driver, settings, DriverEvent::Polled(polled), moment).0.stage;
            &&& after is Draining ==> after->Draining_0 < left
            &&& left <= 1 ==> after !is Draining
        }),
{
}

/// The moment lies before both ends and the work goes on.
pub open spec fn in_time(driver: DriverModel, deadline: u64, moment: Moment) -> bool {
    !moment.is_cancelled && moment.now_nanos < driver.total_deadline && moment.now_nanos < deadline
}

/// Nothing is done any more exactly where the work was cancelled or one of the two ends has come; the
/// cancellation is told before the end of the whole, and that before the end of the phase. Only what
/// ran out of time is worth another try.
pub proof fn law_time_runs_out(total_deadline: u64, deadline: u64, moment: Moment)
    ensures
        ({
            let fault = time_fault(total_deadline, deadline, moment);
            &&& fault is None <==> !moment.is_cancelled && moment.now_nanos < total_deadline
                && moment.now_nanos < deadline
            &&& moment.is_cancelled ==> fault->0.category == ErrorCategory::Cancelled
                && !fault->0.retryable
            &&& !moment.is_cancelled && fault is Some ==> fault->0.category
                == ErrorCategory::Timeout && fault->0.retryable
            &&& !moment.is_cancelled && moment.now_nanos >= total_deadline ==> fault->0.code
                == "doubao.total_timeout"@
            &&& !moment.is_cancelled && moment.now_nanos < total_deadline && moment.now_nanos
                >= deadline ==> fault->0.code == "doubao.phase_timeout"@
        }),
{
}

/// A phase ends after its time, and never after the whole attempt.
pub proof fn law_phase_ends_in_time(driver: DriverModel, settings: Settings, moment: Moment)
    requires
        moment.now_nanos + settings.phase_timeout <= u64::MAX,
    ensures
        phase_end(driver, settings, moment) <= driver.total_deadline,
        phase_end(driver, settings, moment) <= moment.now_nanos + settings.phase_timeout,
        phase_end(driver, settings, moment) == driver.total_deadline || phase_end(
            driver,
            settings,
            moment,
        ) == moment.now_nanos + settings.phase_timeout,
{
}

/// Frame after frame is sent at its time: the frame behind `n` sent ones is due `n` intervals after the
/// beginning and is stamped with twenty milliseconds for each of them. It is encoded as soon as it is
/// due, and before that the attempt rests no longer than until then.
pub proof fn law_frames_keep_their_pace(
    driver: DriverModel,
    settings: Settings,
    frame: [u8; 640],
    moment: Moment,
)
    requires
        driver.stage is Reading,
        driver.session.sent_audio_frames <= u32::MAX,
        driver.started_at + settings.frame_interval * driver.session.sent_audio_frames <= u64::MAX,
        settings.frame_interval * driver.session.sent_audio_frames >= 0,
        driver.timestamp_base + 20 * driver.session.sent_audio_frames <= u64::MAX,
    ensures
        ({
            let due = driver.started_at + settings.frame_interval
                * driver.session.sent_audio_frames;
            let next = advanced(
                driver,
                settings,
                DriverEvent::Frame(Ok(Some(frame))),
                moment,
            );
            &&& next_slot(driver, settings) == due
            &&& next_timestamp(driver) == driver.timestamp_base + 20
                * driver.session.sent_audio_frames
            &&& moment.now_nanos >= due ==> next.1 == Ok::<ActionModel, TransportModel>(
                ActionModel::Encode(frame@),
            ) && next.0.stage is Encoding
            &&& moment.now_nanos < due && in_time(driver, driver.total_deadline, moment)
                ==> next.1 == Ok::<ActionModel, TransportModel>(ActionModel::Poll)
            &&& next.0.frame == frame@
            &&& next.0.session == driver.session
            &&& moment.now_nanos <= due ==> slot_rest(settings, due as u64, moment) <= due
                - moment.now_nanos
            &&& slot_rest(settings, due as u64, moment) <= settings.poll_interval
        }),
{
}

/// An encoded frame of an open session is queued at once, as the first frame or as one in the middle,
/// and the session waits for it to be written.
pub proof fn law_encoded_frame_is_queued(
    driver: DriverModel,
    settings: Settings,
    packet: Vec<u8>,
    moment: Moment,
)
    requires
        driver.stage is Encoding,
        driver.session.phase == SessionPhase::Streaming,
        driver.session.input == InputState::Open,
        0 < packet@.len() <= 1_275,
        in_time(driver, phase_end(driver, settings, moment), moment),
    ensures
        ({
            let next = advanced(driver, settings, DriverEvent::Encoded(Ok(packet)), moment);
            let place = if driver.session.sent_audio_frames == 0 {
                FrameState::First
            } else {
                FrameState::Middle
            };
            &&& next.1 == Ok::<ActionModel, TransportModel>(
                ActionModel::Queue(
                    request_bytes(
                        Seq::empty(),
                        "TaskRequest"@,
                        encode_utf8(timestamp_text(next_timestamp(driver) as nat)),
                        packet@,
                        driver.session.request_id,
                        Some(place),
                    ),
                ),
            )
            &&& next.0.session.input == InputState::AudioRequestPending
            &&& next.0.session.sent_audio_frames == driver.session.sent_audio_frames
            &&& next.0.stage is Queueing && next.0.stage->Queueing_0 == Sending::Audio
        }),
{
}

/// A frame that was written counts as sent: one frame more, the input is open for the next, the audio
/// may have been accepted, and the attempt takes in what has come before it reads on.
pub proof fn law_written_frame_counts(
    driver: DriverModel,
    settings: Settings,
    deadline: u64,
    moment: Moment,
)
    requires
        driver.stage == Stage::Flushing(Sending::Audio, deadline),
        driver.session.phase == SessionPhase::Streaming,
        driver.session.input == InputState::AudioRequestPending,
        driver.session.sent_audio_frames < u64::MAX,
    ensures
        ({
            let next = advanced(
                driver,
                settings,
                DriverEvent::Flushed(Ok(FlushResult::Flushed)),
                moment,
            );
            &&& next.1 == Ok::<ActionModel, TransportModel>(ActionModel::Poll)
            &&& next.0.stage is Draining
            &&& next.0.session.sent_audio_frames == driver.session.sent_audio_frames + 1
            &&& next.0.session.input == InputState::Open
            &&& next.0.session.audio_acceptance == AudioAcceptance::PossiblyAccepted
            &&& next.0.session.phase == SessionPhase::Streaming
        }),
{
}

/// A frame that is queued but not written yet is not counted; the attempt polls, rests for the interval
/// and flushes again, as long as there is time.
pub proof fn law_pending_write_is_flushed_again(
    driver: DriverModel,
    settings: Settings,
    sending: Sending,
    deadline: u64,
    moment: Moment,
)
    requires
        driver.stage == Stage::Flushing(sending, deadline),
        in_time(driver, deadline, moment),
    ensures
        ({
            let polling = advanced(
                driver,
                settings,
                DriverEvent::Flushed(Ok(FlushResult::Pending)),
                moment,
            );
            let resting = advanced(
                polling.0,
                settings,
                DriverEvent::Polled(Ok(PollResult::Idle)),
                moment,
            );
            let again = advanced(resting.0, settings, DriverEvent::Rested, moment);
            &&& polling.1 == Ok::<ActionModel, TransportModel>(ActionModel::Poll)
            &&& resting.1 == Ok::<ActionModel, TransportModel>(
                ActionModel::Rest(settings.poll_interval),
            )
            &&& again.1 == Ok::<ActionModel, TransportModel>(ActionModel::Flush)
            &&& again.0.stage == driver.stage
            &&& again.0.session == driver.session
        }),
{
}

/// When the recording ends, the last frame is marked and written, then the end of the session is asked
/// for and written, and then the attempt waits for the session to finish.
pub proof fn law_end_of_the_recording_ends_the_session(
    driver: DriverModel,
    settings: Settings,
    moment: Moment,
)
    requires
        driver.stage is Reading,
        driver.session.phase == SessionPhase::Streaming,
        driver.session.input == InputState::Open,
        driver.session.sent_audio_frames > 0,
        in_time(driver, phase_end(driver, settings, moment), moment),
    ensures
        ({
            let marking = advanced(driver, settings, DriverEvent::Frame(Ok(None)), moment);
            let queued = advanced(
                marking.0,
                settings,
                DriverEvent::Queued(Ok(QueueBinaryResult::Queued)),
                moment,
            );
            let finishing = advanced(
                queued.0,
                settings,
                DriverEvent::Flushed(Ok(FlushResult::Flushed)),
                moment,
            );
            let asked = advanced(
                finishing.0,
                settings,
                DriverEvent::Queued(Ok(QueueBinaryResult::Queued)),
                moment,
            );
            let waiting = advanced(
                asked.0,
                settings,
                DriverEvent::Flushed(Ok(FlushResult::Flushed)),
                moment,
            );
            &&& marking.1 == Ok::<ActionModel, TransportModel>(
                ActionModel::Queue(
                    request_bytes(
                        Seq::empty(),
                        "TaskRequest"@,
                        encode_utf8(timestamp_text(next_timestamp(driver) as nat)),
                        Seq::new(100, |i: int| 0u8),
                        driver.session.request_id,
                        Some(FrameState::Last),
                    ),
                ),
            )
            &&& queued.1 == Ok::<ActionModel, TransportModel>(ActionModel::Flush)
            &&& finishing.1 == Ok::<ActionModel, TransportModel>(
                ActionModel::Queue(
                    request_bytes(
                        settings.token,
                        "FinishSession"@,
                        Seq::empty(),
                        Seq::empty(),
                        driver.session.request_id,
                        None,
                    ),
                ),
            )
            &&& asked.1 == Ok::<ActionModel, TransportModel>(ActionModel::Flush)
            &&& waiting.1 == Ok::<ActionModel, TransportModel>(ActionModel::Poll)
            &&& waiting.0.stage is WaitPolling && waiting.0.stage->WaitPolling_0
                == SessionPhase::Finished
            &&& waiting.0.session.phase == SessionPhase::Finishing
            &&& waiting.0.session.sent_audio_frames == driver.session.sent_audio_frames
        }),
{
}

/// An attempt opens with the task; once the task has started it opens the session with its description;
/// once the session streams it reads the clock, and then the first frame.
pub proof fn law_attempt_opens_in_order(
    driver: DriverModel,
    settings: Settings,
    deadline: u64,
    millis: u64,
    moment: Moment,
)
    requires
        in_time(driver, phase_end(driver, settings, moment), moment),
        in_time(driver, deadline, moment),
    ensures
        driver.stage is Ready && driver.session.phase == SessionPhase::Disconnected ==> {
            let next = advanced(driver, settings, DriverEvent::Begin, moment);
            &&& next.1 == Ok::<ActionModel, TransportModel>(
                ActionModel::Queue(
                    request_bytes(
                        settings.token,
                        "StartTask"@,
                        Seq::empty(),
                        Seq::empty(),
                        driver.session.request_id,
                        None,
                    ),
                ),
            )
            &&& next.0.session.phase == SessionPhase::TaskStarting
        },
        driver.stage == Stage::WaitResting(SessionPhase::TaskStarted, deadline)
            && driver.session.phase == SessionPhase::TaskStarted && settings.session_json.len()
            <= 262_144 && (json_document(settings.session_json) matches Some(document) && document
            is Object) ==> {
            let next = advanced(driver, settings, DriverEvent::Rested, moment);
            &&& next.1 == Ok::<ActionModel, TransportModel>(
                ActionModel::Queue(
                    request_bytes(
                        settings.token,
                        "StartSession"@,
                        settings.session_json,
                        Seq::empty(),
                        driver.session.request_id,
                        None,
                    ),
                ),
            )
            &&& next.0.session.phase == SessionPhase::SessionStarting
        },
        driver.stage == Stage::WaitResting(SessionPhase::Streaming, deadline)
            && driver.session.phase == SessionPhase::Streaming ==> {
            let next = advanced(driver, settings, DriverEvent::Rested, moment);
            &&& next.1 == Ok::<ActionModel, TransportModel>(ActionModel::ReadClock)
            &&& next.0.started_at == moment.now_nanos
        },
        driver.stage is Dating ==> {
            let next = advanced(
                driver,
                settings,
                DriverEvent::Clock(WallClock::Millis(millis as u128)),
                moment,
            );
            &&& next.1 == Ok::<ActionModel, TransportModel>(ActionModel::ReadFrame)
            &&& next.0.timestamp_base == millis
        },
        driver.stage matches Stage::WaitResting(phase, end) ==> end == deadline
            && driver.session.phase != phase ==> advanced(
            driver,
            settings,
            DriverEvent::Rested,
            moment,
        ).1 == Ok::<ActionModel, TransportModel>(ActionModel::Poll),
{
}

/// A connection that closes or fails ends the attempt in every stage that listens or writes; the error
/// of a close is worth another try.
pub proof fn law_lost_connection_ends_the_attempt(
    driver: DriverModel,
    settings: Settings,
    fault: WebSocketTransportError,
    moment: Moment,
)
    ensures
        driver.stage is Refilling || driver.stage is FlushPolling || driver.stage is WaitPolling
            || driver.stage is SlotPolling || driver.stage is Draining ==> {
            let closed = advanced(
                driver,
                settings,
                DriverEvent::Polled(Ok(PollResult::Closed)),
                moment,
            );
            let ended = advanced(
                driver,
                settings,
                DriverEvent::Polled(Ok(PollResult::Event(SocketEvent::Close))),
                moment,
            );
            let failed = advanced(driver, settings, DriverEvent::Polled(Err(fault)), moment);
            &&& closed.1 is Err && closed.1->Err_0.category == ErrorCategory::Connection
            &&& closed.1->Err_0.retryable
            &&& ended.1 == closed.1
            &&& failed.1 == Err::<ActionModel, TransportModel>(fault@)
            &&& closed.0.stage is Failed && ended.0.stage is Failed && failed.0.stage is Failed
        },
        driver.stage is Flushing || driver.stage is Unblocking ==> {
            let closed = advanced(
                driver,
                settings,
                DriverEvent::Flushed(Ok(FlushResult::Closed)),
                moment,
            );
            let failed = advanced(driver, settings, DriverEvent::Flushed(Err(fault)), moment);
            &&& closed.1 is Err && closed.1->Err_0.category == ErrorCategory::Connection
            &&& closed.1->Err_0.retryable
            &&& failed.1 == Err::<ActionModel, TransportModel>(fault@)
        },
{
}

/// A message that came is handed to the session; an interim result is counted, the outcome of a
/// finished session is kept, and signs of life change nothing.
pub proof fn law_messages_reach_the_session(
    driver: DriverModel,
    message: Vec<u8>,
    pinged: Vec<u8>,
)
    requires
        driver.partial_results < u64::MAX,
    ensures
        ({
            let (after, more) = pumped(
                driver,
                Ok(PollResult::Event(SocketEvent::Binary(message))),
            );
            let (session, reply) = received(driver.session, message@);
            &&& after.session == session
            &&& reply is Refused ==> more is Err && more->Err_0.category == ErrorCategory::Protocol
                && !more->Err_0.retryable
            &&& !(reply is Refused) ==> more == Ok::<bool, TransportModel>(true)
            &&& reply matches Reply::Event(EventModel::Recognition(event)) ==> after.partial_results
                == driver.partial_results + (if event.interim {
                1int
            } else {
                0
            })
            &&& reply matches Reply::Event(EventModel::Finished(outcome)) ==> after.outcome == Some(
                outcome,
            ) && after.partial_results == driver.partial_results
            &&& reply is Nothing ==> after.outcome == driver.outcome && after.partial_results
                == driver.partial_results
        }),
        pumped(driver, Ok(PollResult::Event(SocketEvent::Pong))) == (
            driver,
            Ok::<bool, TransportModel>(true),
        ),
        pumped(driver, Ok(PollResult::Event(SocketEvent::Ping(pinged)))) == (
            driver,
            Ok::<bool, TransportModel>(true),
        ),
        pumped(driver, Ok(PollResult::Idle)) == (driver, Ok::<bool, TransportModel>(false)),
{
}

/// A session that finished hands out its transcript, with twenty milliseconds for each frame that was
/// sent.
pub proof fn law_finished_attempt_hands_out_the_transcript(
    driver: DriverModel,
    settings: Settings,
    deadline: u64,
    moment: Moment,
)
    requires
        driver.stage == Stage::WaitResting(SessionPhase::Finished, deadline),
        driver.session.phase == SessionPhase::Finished,
        driver.outcome is Some,
        20 * driver.outcome->0.sent_audio_frames <= u64::MAX,
    ensures
        ({
            let next = advanced(driver, settings, DriverEvent::Rested, moment);
            &&& next.1 is Ok && next.1->Ok_0 is Finish
            &&& next.1->Ok_0->Finish_0.text == driver.outcome->0.transcript
            &&& next.1->Ok_0->Finish_0.sent_audio_millis == 20
                * driver.outcome->0.sent_audio_frames
            &&& next.1->Ok_0->Finish_0.partial_results == driver.partial_results
            &&& next.1->Ok_0->Finish_0.provider_vad_started
                == driver.outcome->0.provider_vad_started
            &&& next.1->Ok_0->Finish_0.provider_vad_finished
                == driver.outcome->0.provider_vad_finished
            &&& next.0.stage is Done
        }),
{
}

} // verus!
