//! The daemon: one dictation at a time, from the microphone to the focused text field.
//!
//! Moments are in nanoseconds from an arbitrary beginning.

use crate::config::{Config, InsertionBackend, ProfileConfig, ProviderConfig};
use crate::controller::{AppController, AppEvent, NANOS_PER_SECOND};
use crate::error::{ErrorCategory, VoxError};
use crate::fcitx::FcitxContext;
use crate::grammar::GrammarReport;
use crate::ports::{
    CaptureAdapter, CaptureFrameMetrics, CaptureSession, CapturedAudio, InsertionAdapter,
    InsertionArm, InsertionMode, InsertionOutcome,
};
use crate::presentation::{Notice, NoticeModel, OverlayText};
use crate::provider::ProviderId;
use crate::route::{ProviderRegistry, RecognitionRouteResult};
use crate::routing::{RoutePlan, RoutingPolicy};
use crate::session::{Command, CommandEffect, SessionId, StartRequest, TriggerMode};
use crate::text::{
    decimal, join2, join3, owned, same_text, truth_text, write_number, write_truth,
};
use crate::vad::{StreamingVad, VadConfig, VadFrameAnalysis, VadResult, VadState};
use crate::wake::WakeHandle;
use std::sync::Arc;
use vstd::prelude::*;
use vstd::string::*;

verus! {

pub const HISTORY_LIMIT: usize = 20;

/// How often the level of the microphone is shown.
pub const OVERLAY_PAUSE_NANOS: u64 = 100_000_000;

/// How long the loop may sleep with nothing to do.
pub const IDLE_WAIT_NANOS: u64 = 60_000_000_000;

/// What a client is told when a request fails.
#[derive(Debug, Eq, PartialEq)]
pub enum DaemonError {
    Failed(String),
    InvalidArgs(String),
}

pub enum DaemonErrorModel {
    Failed(Seq<char>),
    InvalidArgs(Seq<char>),
}

impl DaemonError {
    pub open spec fn view(&self) -> DaemonErrorModel {
        match self {
            DaemonError::Failed(message) => DaemonErrorModel::Failed(message@),
            DaemonError::InvalidArgs(message) => DaemonErrorModel::InvalidArgs(message@),
        }
    }

    /// The line that is shown for the error: its name on the bus and its message.
    pub fn to_text(&self) -> (r: String)
        ensures
            r@ == shown(self@),
    {
        match self {
            DaemonError::Failed(message) => join2(
                "org.freedesktop.DBus.Error.Failed: ",
                message.as_str(),
            ),
            DaemonError::InvalidArgs(message) => join2(
                "org.freedesktop.DBus.Error.InvalidArgs: ",
                message.as_str(),
            ),
        }
    }
}

pub open spec fn shown(error: DaemonErrorModel) -> Seq<char> {
    match error {
        DaemonErrorModel::Failed(message) => "org.freedesktop.DBus.Error.Failed: "@ + message,
        DaemonErrorModel::InvalidArgs(message) => "org.freedesktop.DBus.Error.InvalidArgs: "@
            + message,
    }
}

fn failed(message: &str) -> (error: DaemonError)
    ensures
        error@ == DaemonErrorModel::Failed(message@),
{
    DaemonError::Failed(owned(message))
}

/// How an error of the library is told to a client.
pub open spec fn told(error: VoxError) -> DaemonErrorModel {
    DaemonErrorModel::Failed(error.code_text() + ": "@ + error.message_text())
}

pub fn map_error(error: &VoxError) -> (r: DaemonError)
    ensures
        r@ == told(*error),
{
    DaemonError::Failed(error.to_text())
}

/// A capture adapter that several owners share.
pub struct SharedCapture {
    pub adapter: Arc<Box<dyn CaptureAdapter>>,
}

/// An insertion adapter that several owners share.
pub struct SharedInsertion {
    pub adapter: Arc<Box<dyn InsertionAdapter>>,
}

/// A recognition that runs.
#[derive(Debug)]
pub struct RecognitionJob {
    pub session: SessionId,
    pub recording_path: String,
    pub vad_result: Option<VadResult>,
    pub audio_millis: u64,
}

pub struct JobModel {
    pub session: Seq<char>,
    pub recording_path: Seq<char>,
    pub vad_result: Option<VadResult>,
    pub audio_millis: u64,
}

impl RecognitionJob {
    pub open spec fn view(&self) -> JobModel {
        JobModel {
            session: self.session@,
            recording_path: self.recording_path@,
            vad_result: self.vad_result,
            audio_millis: self.audio_millis,
        }
    }
}

/// What a daemon holds beside its controller.
pub struct DaemonModel {
    /// What opens the microphone.
    pub capture: SharedCapture,
    /// What records, while the microphone is open.
    pub recorder: Option<Box<dyn CaptureSession>>,
    /// What inserts text.
    pub desktop: SharedInsertion,
    pub config: Config,
    pub active_profile: Option<Seq<char>>,
    pub armed: Option<InsertionArm>,
    pub history: Seq<Seq<char>>,
    pub started_at: Option<u64>,
    pub job: Option<JobModel>,
    pub live_vad: Option<VadState>,
    pub last_live_audio: Option<VadFrameAnalysis>,
    pub last_overlay_at: Option<u64>,
    /// What is still to be shown on the desktop.
    pub notices: Seq<NoticeModel>,
    pub quit: bool,
}

pub struct VoxTypeDaemon {
    app: AppController,
    capture_adapter: SharedCapture,
    recording: Option<Box<dyn CaptureSession>>,
    insertion_adapter: SharedInsertion,
    config: Config,
    active_profile: Option<String>,
    armed_insertion: Option<InsertionArm>,
    transcript_history: Vec<String>,
    recording_started_at: Option<u64>,
    recognition_job: Option<RecognitionJob>,
    live_vad: Option<StreamingVad>,
    last_live_audio: Option<VadFrameAnalysis>,
    last_audio_overlay_at: Option<u64>,
    notices: Vec<Notice>,
    quit: bool,
}

pub open spec fn notice_models(notices: Seq<Notice>) -> Seq<NoticeModel> {
    Seq::new(notices.len(), |i: int| notices[i]@)
}

/// The history after one more transcript; the oldest of twenty makes room.
pub open spec fn remembered(history: Seq<Seq<char>>, text: Seq<char>) -> Seq<Seq<char>> {
    if history.len() == HISTORY_LIMIT {
        history.skip(1).push(text)
    } else {
        history.push(text)
    }
}

/// The recording is over or never was.
pub open spec fn silent(daemon: DaemonModel) -> DaemonModel {
    DaemonModel {
        recorder: None,
        started_at: None,
        live_vad: None,
        last_live_audio: None,
        last_overlay_at: None,
        ..daemon
    }
}

/// No recognition runs.
pub open spec fn without_job(daemon: DaemonModel) -> DaemonModel {
    DaemonModel { job: None, ..daemon }
}

/// Nothing belongs to a session any more.
pub open spec fn released(daemon: DaemonModel) -> DaemonModel {
    DaemonModel { active_profile: None, armed: None, ..daemon }
}

pub open spec fn noticed(daemon: DaemonModel, notice: NoticeModel) -> DaemonModel {
    DaemonModel { notices: daemon.notices.push(notice), ..daemon }
}

/// Every provider of the profile gives a fixed text.
pub open spec fn demo_only(config: Config, profile: ProfileConfig) -> bool {
    let names = crate::config::profile_providers(profile);
    forall|i: int|
        0 <= i < names.len() ==> config.providers.has(#[trigger] names[i])
            && config.providers.value_of(names[i]) is Mock
}

fn is_mock(config: &Config, name: &str) -> (r: bool)
    ensures
        r == (config.providers.has(name@) && config.providers.value_of(name@) is Mock),
{
    match config.providers.get(name) {
        Some(ProviderConfig::Mock { .. }) => true,
        _ => false,
    }
}

pub fn profile_is_demo_only(config: &Config, profile: &ProfileConfig) -> (r: bool)
    ensures
        r == demo_only(*config, *profile),
{
    let ghost names = crate::config::profile_providers(*profile);
    assert(names[0] == profile.primary@);
    if !is_mock(config, profile.primary.as_str()) {
        return false;
    }
    for i in 0..profile.fallbacks.len()
        invariant
            names == crate::config::profile_providers(*profile),
            forall|k: int|
                0 <= k <= i ==> config.providers.has(#[trigger] names[k])
                    && config.providers.value_of(names[k]) is Mock,
    {
        assert(names[i + 1] == profile.fallbacks@[i as int]@);
        if !is_mock(config, profile.fallbacks[i].as_str()) {
            return false;
        }
    }
    true
}

/// How the words of a client's backend setting are carried out.
pub open spec fn mode_for(backend: InsertionBackend) -> InsertionMode {
    match backend {
        InsertionBackend::Fcitx => InsertionMode::Fcitx,
        InsertionBackend::Clipboard => InsertionMode::Clipboard,
        InsertionBackend::Copy => InsertionMode::Copy,
        InsertionBackend::Auto => InsertionMode::Auto,
    }
}

pub fn insertion_mode(backend: InsertionBackend) -> (mode: InsertionMode)
    ensures
        mode == mode_for(backend),
{
    match backend {
        InsertionBackend::Fcitx => InsertionMode::Fcitx,
        InsertionBackend::Clipboard => InsertionMode::Clipboard,
        InsertionBackend::Copy => InsertionMode::Copy,
        InsertionBackend::Auto => InsertionMode::Auto,
    }
}

/// Whether a recording has lasted as long as it may.
pub open spec fn too_long(elapsed: u64, maximum_seconds: u64) -> bool {
    elapsed / NANOS_PER_SECOND >= maximum_seconds
}

pub fn recording_deadline_reached(elapsed: u64, maximum_seconds: u64) -> (r: bool)
    ensures
        r == too_long(elapsed, maximum_seconds),
{
    elapsed / NANOS_PER_SECOND >= maximum_seconds
}

/// What has passed from one moment to another, nothing where the other is not later.
pub open spec fn passed(then_at: u64, now: u64) -> u64 {
    if now > then_at {
        (now - then_at) as u64
    } else {
        0
    }
}

fn elapsed_since(then_at: u64, now: u64) -> (r: u64)
    ensures
        r == passed(then_at, now),
{
    if now > then_at {
        now - then_at
    } else {
        0
    }
}

/// How long the loop may wait without an event.
pub open spec fn wait_of(daemon: DaemonModel, now: u64) -> int {
    if daemon.quit {
        0
    } else if daemon.started_at is None {
        IDLE_WAIT_NANOS as int
    } else {
        let left = daemon.config.audio.maximum_duration_seconds * NANOS_PER_SECOND - passed(
            daemon.started_at->0,
            now,
        );
        if left < 0 {
            0
        } else if left < OVERLAY_PAUSE_NANOS {
            left
        } else {
            OVERLAY_PAUSE_NANOS as int
        }
    }
}

/// A text that may name a session: not empty, at most 128 bytes, no control characters.
pub open spec fn session_text(text: Seq<char>) -> bool {
    &&& 0 < crate::text::byte_length(text) <= 128
    &&& forall|i: int| 0 <= i < text.len() ==> !crate::text::control(#[trigger] text[i])
}

fn has_control(text: &str) -> (r: bool)
    ensures
        r == exists|i: int| 0 <= i < text@.len() && crate::text::control(#[trigger] text@[i]),
{
    for c in it: text.chars()
        invariant
            it.seq() == text@,
            forall|i: int| 0 <= i < it.index() ==> !crate::text::control(#[trigger] text@[i]),
    {
        if crate::text::is_control(c) {
            assert(crate::text::control(text@[it.index() as int]));
            return true;
        }
    }
    false
}

impl VoxTypeDaemon {
    pub closed spec fn view(&self) -> DaemonModel {
        DaemonModel {
            capture: self.capture_adapter,
            recorder: self.recording,
            desktop: self.insertion_adapter,
            config: self.config,
            active_profile: match self.active_profile {
                Some(name) => Some(name@),
                None => None,
            },
            armed: self.armed_insertion,
            history: crate::text::texts(self.transcript_history@),
            started_at: self.recording_started_at,
            job: match self.recognition_job {
                Some(job) => Some(job@),
                None => None,
            },
            live_vad: match self.live_vad {
                Some(vad) => Some(vad@),
                None => None,
            },
            last_live_audio: self.last_live_audio,
            last_overlay_at: self.last_audio_overlay_at,
            notices: notice_models(self.notices@),
            quit: self.quit,
        }
    }

    pub closed spec fn controller(&self) -> AppController {
        self.app
    }

    /// Composes the daemon from its configuration, the adapters of its providers and the
    /// adapters of the desktop.
    ///
    /// A configuration that is not valid is refused.
    pub fn compose(
        config: Config,
        registry: ProviderRegistry,
        wake: WakeHandle,
        capture_adapter: SharedCapture,
        insertion_adapter: SharedInsertion,
    ) -> (r: Result<Self, VoxError>)
        ensures
            match r {
                Ok(daemon) => {
                    &&& crate::config::config_complaint(config) is None
                    &&& daemon@ == fresh_daemon(config, capture_adapter, insertion_adapter)
                    &&& daemon.controller()@ == crate::controller::new_controller(registry@)
                    &&& daemon.controller().session_machine().current() is Idle
                    &&& daemon.controller().session_machine().counter() == 1
                    &&& daemon.controller().wakes() == wake.enabled()
                },
                Err(error) => crate::config::checks(
                    Err(error),
                    crate::config::config_complaint(config),
                ),
            },
    {
        match config.validate() {
            Ok(_) => {},
            Err(error) => {
                return Err(error);
            },
        }
        let daemon = VoxTypeDaemon {
            app: AppController::with_wake(registry, wake),
            capture_adapter,
            recording: None,
            insertion_adapter,
            config,
            active_profile: None,
            armed_insertion: None,
            transcript_history: Vec::new(),
            recording_started_at: None,
            recognition_job: None,
            live_vad: None,
            last_live_audio: None,
            last_audio_overlay_at: None,
            notices: Vec::new(),
            quit: false,
        };
        proof {
            assert(daemon@.history =~= Seq::<Seq<char>>::empty());
            assert(daemon@.notices =~= Seq::<NoticeModel>::empty());
        }
        Ok(daemon)
    }

    /// The word for the state of the session.
    pub fn status(&self) -> (r: String)
        ensures
            r@ == self.controller().session_machine().current().word(),
    {
        owned(self.app.state().name())
    }

    /// The name of the session that the state belongs to, or nothing.
    pub fn active_session(&self) -> (r: String)
        ensures
            r@ == (match self.controller().session_machine().current().owner() {
                Some(session) => session@,
                None => Seq::empty(),
            }),
    {
        match self.app.state().session() {
            Some(session) => owned(session.as_str()),
            None => String::new(),
        }
    }

    pub fn state_snapshot(&self) -> (r: (String, String))
        ensures
            crate::controller::AppEventModel::StateChanged(r.0@, r.1@)
                == crate::controller::state_event(self.controller().session_machine().current()),
    {
        self.app.state_snapshot()
    }

    /// Hands out the events that wait.
    pub fn drain_events(&mut self) -> (events: Vec<AppEvent>)
        ensures
            crate::controller::event_models(events@) == old(self).controller()@.events,
            final(self).controller()@ == (crate::controller::ControllerModel {
                events: Seq::empty(),
                ..old(self).controller()@
            }),
            final(self).controller().session_machine()
                == old(self).controller().session_machine(),
            final(self).controller().wakes() == old(self).controller().wakes(),
            final(self)@ == old(self)@,
    {
        self.app.drain_events()
    }

    /// Hands out what is to be shown on the desktop.
    pub fn drain_notices(&mut self) -> (notices: Vec<Notice>)
        ensures
            notice_models(notices@) == old(self)@.notices,
            final(self)@ == (DaemonModel { notices: Seq::empty(), ..old(self)@ }),
            final(self).controller() == old(self).controller(),
    {
        let mut notices: Vec<Notice> = Vec::new();
        std::mem::swap(&mut notices, &mut self.notices);
        assert(self@.notices =~= Seq::<NoticeModel>::empty());
        notices
    }

    fn notice(&mut self, notice: Notice)
        ensures
            final(self)@ == noticed(old(self)@, notice@),
            final(self).controller() == old(self).controller(),
    {
        self.notices.push(notice);
        assert(self@.notices =~= old(self)@.notices.push(notice@));
    }

    /// The text of the document that shows the health of every configured provider.
    pub fn provider_status(&self, now: u64) -> (text: String)
        ensures
            text@ == crate::json::json_text(
                crate::presentation::status_document(
                    self@.config.providers.rows(),
                    self.controller()@,
                    now,
                ),
            ),
    {
        crate::presentation::provider_status_json(&self.config, &self.app, now)
    }

    /// The text of the document that shows consumption and soft limits.
    pub fn usage_status(&self) -> (text: String)
        ensures
            text@ == crate::json::json_text(
                crate::presentation::consumption_status(self@.config, self.controller()@),
            ),
    {
        crate::presentation::usage_status(&self.config, &self.app)
    }

    /// The retained transcript-free terminal result of one session; the first part says whether
    /// there is one.
    pub fn session_result(&self, session: &str) -> (r: Result<
        (bool, String, String, String, u64),
        DaemonError,
    >)
        ensures
            match r {
                Ok(result) => {
                    &&& session_text(session@)
                    &&& match crate::controller::latest_result(
                        self.controller()@.results,
                        session@,
                    ) {
                        Some(kept) => {
                            &&& result.0
                            &&& result.1@ == kept.outcome
                            &&& result.2@ == kept.error_code
                            &&& result.3@ == kept.backend
                            &&& result.4 == kept.char_count
                        },
                        None => {
                            &&& !result.0
                            &&& result.1@.len() == 0
                            &&& result.2@.len() == 0
                            &&& result.3@.len() == 0
                            &&& result.4 == 0
                        },
                    }
                },
                Err(error) => {
                    &&& !session_text(session@)
                    &&& error@ == DaemonErrorModel::InvalidArgs(
                        "session ID must be non-empty and bounded"@,
                    )
                },
            },
    {
        let length: usize = crate::text::byte_count(session);
        if length == 0 || length > 128 || has_control(session) {
            return Err(
                DaemonError::InvalidArgs(owned("session ID must be non-empty and bounded")),
            );
        }
        match self.app.session_result(session) {
            Some(result) => Ok(
                (true, result.outcome, result.error_code, result.backend, result.char_count),
            ),
            None => Ok((false, String::new(), String::new(), String::new(), 0)),
        }
    }

    /// The newest transcript, or nothing.
    pub fn last_transcript(&self) -> (r: String)
        ensures
            r@ == (if self@.history.len() > 0 {
                self@.history.last()
            } else {
                Seq::empty()
            }),
    {
        let n: usize = self.transcript_history.len();
        if n > 0 {
            self.transcript_history[n - 1].clone()
        } else {
            String::new()
        }
    }

    pub fn transcript_history(&self) -> (r: Vec<String>)
        ensures
            crate::text::texts(r@) == self@.history,
    {
        let mut all: Vec<String> = Vec::new();
        for i in 0..self.transcript_history.len()
            invariant
                crate::text::texts(all@) == self@.history.take(i as int),
        {
            let ghost before = crate::text::texts(all@);
            all.push(self.transcript_history[i].clone());
            assert(crate::text::texts(all@) =~= before.push(self@.history[i as int]));
            assert(self@.history.take(i + 1) =~= self@.history.take(i as int).push(
                self@.history[i as int],
            ));
        }
        assert(self@.history.take(self@.history.len() as int) =~= self@.history);
        all
    }

    pub fn clear_history(&mut self)
        ensures
            final(self)@ == (DaemonModel { history: Seq::empty(), ..old(self)@ }),
            final(self).controller() == old(self).controller(),
    {
        self.transcript_history = Vec::new();
        assert(self@.history =~= Seq::<Seq<char>>::empty());
    }

    /// Whether the daemon was told to end.
    pub fn should_quit_value(&self) -> (r: bool)
        ensures
            r == self@.quit,
    {
        self.quit
    }

    /// The longest time that the daemon loop may wait without an event.
    ///
    /// Recognition completion and state changes wake the loop directly. A short timer is kept
    /// only while recording, for level telemetry and the maximum-duration safety deadline.
    pub fn maintenance_wait(&self, now: u64) -> (r: u64)
        ensures
            r == wait_of(self@, now),
    {
        if self.quit {
            return 0;
        }
        match self.recording_started_at {
            None => IDLE_WAIT_NANOS,
            Some(started_at) => {
                let maximum: u128 = self.config.audio.maximum_duration_seconds as u128
                    * 1_000_000_000;
                let elapsed: u128 = elapsed_since(started_at, now) as u128;
                if maximum <= elapsed {
                    0
                } else if maximum - elapsed < OVERLAY_PAUSE_NANOS as u128 {
                    (maximum - elapsed) as u64
                } else {
                    OVERLAY_PAUSE_NANOS
                }
            },
        }
    }
}

/// A daemon that has done nothing yet.
pub open spec fn fresh_daemon(
    config: Config,
    capture: SharedCapture,
    desktop: SharedInsertion,
) -> DaemonModel {
    DaemonModel {
        capture,
        recorder: None,
        desktop,
        config,
        active_profile: None,
        armed: None,
        history: Seq::empty(),
        started_at: None,
        job: None,
        live_vad: None,
        last_live_audio: None,
        last_overlay_at: None,
        notices: Seq::empty(),
        quit: false,
    }
}

/// What a dictation is started with.
#[derive(Debug)]
pub struct StartPlan {
    pub session: SessionId,
    pub mode: InsertionMode,
    pub profile: String,
}

/// The profile that a client asks for; no name stands for the default.
pub open spec fn wanted_profile(config: Config, profile: Seq<char>) -> Seq<char> {
    config.profile_name(if profile.len() > 0 {
        Some(profile)
    } else {
        None
    })
}

/// Why a dictation does not begin, apart from the state of the session.
pub open spec fn start_refusal(daemon: DaemonModel, profile: Seq<char>) -> Option<
    DaemonErrorModel,
> {
    let name = wanted_profile(daemon.config, profile);
    if daemon.recorder is Some {
        Some(DaemonErrorModel::Failed("recording is already active"@))
    } else if !daemon.config.profiles.has(name) {
        Some(DaemonErrorModel::InvalidArgs("unknown profile: "@ + profile))
    } else if profile.len() == 0 && demo_only(
        daemon.config,
        daemon.config.profiles.value_of(name),
    ) {
        Some(
            DaemonErrorModel::Failed(
                "the default profile only contains fixed-text demo providers; configure a real ASR provider in VoxType Settings, or pass the demo profile explicitly for integration testing"@,
            ),
        )
    } else {
        None
    }
}

/// The start command for a profile.
pub open spec fn start_command(command: Command, name: Seq<char>) -> bool {
    &&& command matches Command::Start(request)
    &&& request.mode == TriggerMode::Toggle
    &&& request.profile matches Some(profile)
    &&& profile@ == name
}

/// The controller takes the start command, or refuses it.
pub open spec fn begins_session(
    before: AppController,
    name: Seq<char>,
    after: AppController,
    r: Result<StartPlan, DaemonError>,
) -> bool {
    exists|command: Command, result: Result<CommandEffect, VoxError>|
        {
            &&& start_command(command, name)
            &&& #[trigger] AppController::applies(before, command, after, result)
            &&& match result {
                Ok(effect) => {
                    &&& r matches Ok(plan)
                    &&& after.session_machine().current().owner() == Some(plan.session)
                    &&& after.session_machine().current() is Preparing
                },
                Err(error) => r matches Err(refused) && refused@ == told(error),
            }
        }
}

/// What a call that applies one command tells a client.
pub open spec fn commands_told(
    before: AppController,
    command: Command,
    after: AppController,
    r: Result<(), DaemonError>,
) -> bool {
    exists|result: Result<CommandEffect, VoxError>|
        {
            &&& #[trigger] AppController::applies(before, command, after, result)
            &&& match result {
                Ok(_) => r is Ok,
                Err(error) => r matches Err(refused) && refused@ == told(error),
            }
        }
}

/// The command is applied and its result is not looked at.
pub open spec fn commanded(before: AppController, command: Command, after: AppController) -> bool {
    exists|result: Result<CommandEffect, VoxError>| #[trigger]
        AppController::applies(before, command, after, result)
}

/// The voice detection that a configuration asks for.
pub open spec fn vad_config_of(config: Config) -> VadConfig {
    VadConfig {
        rms_threshold: config.audio.vad_rms_threshold,
        minimum_voiced_frames: config.audio.vad_minimum_voiced_frames,
    }
}

fn vad_config(config: &Config) -> (r: VadConfig)
    ensures
        r == vad_config_of(*config),
{
    VadConfig {
        rms_threshold: config.audio.vad_rms_threshold,
        minimum_voiced_frames: config.audio.vad_minimum_voiced_frames,
    }
}

/// The microphone is open since `now`.
pub open spec fn capturing(
    daemon: DaemonModel,
    recorder: Option<Box<dyn CaptureSession>>,
    name: Seq<char>,
    now: u64,
) -> DaemonModel {
    DaemonModel {
        recorder,
        live_vad: if daemon.config.audio.vad_enabled {
            Some(crate::vad::initial_state(vad_config_of(daemon.config), None))
        } else {
            None
        },
        last_live_audio: None,
        last_overlay_at: None,
        started_at: Some(now),
        active_profile: Some(name),
        ..daemon
    }
}

/// A dictation begins for a profile: its session is prepared, or the call is refused.
pub open spec fn begins_start(
    before: VoxTypeDaemon,
    profile: Seq<char>,
    after: VoxTypeDaemon,
    r: Result<StartPlan, DaemonError>,
) -> bool {
    &&& after@ == before@
    &&& match start_refusal(before@, profile) {
        Some(why) => {
            &&& r matches Err(error)
            &&& error@ == why
            &&& after.controller() == before.controller()
        },
        None => {
            &&& begins_session(
                before.controller(),
                wanted_profile(before@.config, profile),
                after.controller(),
                r,
            )
            &&& r matches Ok(plan) ==> {
                &&& plan.mode == mode_for(before@.config.desktop.insertion_backend)
                &&& plan.profile@ == wanted_profile(before@.config, profile)
            }
        },
    }
}

/// The target of the insertion is kept, or the session fails for want of one.
pub open spec fn takes_target(
    before: VoxTypeDaemon,
    session: SessionId,
    armed: Result<InsertionArm, VoxError>,
    after: VoxTypeDaemon,
    r: Result<(), DaemonError>,
) -> bool {
    match armed {
        Ok(arm) => {
            &&& r is Ok
            &&& after@ == (DaemonModel { armed: Some(arm), ..before@ })
            &&& after.controller() == before.controller()
        },
        Err(error) => {
            &&& r matches Err(refused)
            &&& refused@ == told(error)
            &&& after@ == before@
            &&& commanded(
                before.controller(),
                Command::Fail { session, error },
                after.controller(),
            )
        },
    }
}

/// The microphone is open, and the session listens if its state allows it.
pub open spec fn opens_microphone(
    before: VoxTypeDaemon,
    plan: StartPlan,
    recorder: Option<Box<dyn CaptureSession>>,
    now: u64,
    after: VoxTypeDaemon,
    r: Result<String, DaemonError>,
) -> bool {
    exists|result: Result<CommandEffect, VoxError>|
        {
            &&& #[trigger] AppController::applies(
                before.controller(),
                Command::CaptureReady { session: plan.session },
                after.controller(),
                result,
            )
            &&& match result {
                Ok(_) => {
                    &&& r matches Ok(name)
                    &&& name@ == plan.session@
                    &&& after@ == noticed(
                        capturing(before@, recorder, plan.profile@, now),
                        NoticeModel::Listening,
                    )
                },
                Err(error) => {
                    &&& r matches Err(refused)
                    &&& refused@ == told(error)
                    &&& after@ == capturing(before@, recorder, plan.profile@, now)
                },
            }
        }
}

/// The microphone did not open: the session fails and its target is let go.
pub open spec fn loses_microphone(
    before: VoxTypeDaemon,
    session: SessionId,
    error: VoxError,
    after: VoxTypeDaemon,
    r: DaemonError,
) -> bool {
    &&& r@ == told(error)
    &&& after@ == (DaemonModel { armed: None, ..before@ })
    &&& commanded(before.controller(), Command::Fail { session, error }, after.controller())
}

/// What records, where the microphone was opened.
pub open spec fn opened_recorder(opened: Result<Box<dyn CaptureSession>, VoxError>) -> Option<
    Box<dyn CaptureSession>,
> {
    match opened {
        Ok(recorder) => {
            let kept = Some(recorder);
            kept
        },
        Err(_) => None,
    }
}

/// A session with a target listens, or fails with the error of the microphone.
pub open spec fn takes_microphone(
    before: VoxTypeDaemon,
    plan: StartPlan,
    opened: Result<Box<dyn CaptureSession>, VoxError>,
    now: u64,
    after: VoxTypeDaemon,
    r: Result<String, DaemonError>,
) -> bool {
    match opened {
        Ok(_) => opens_microphone(before, plan, opened_recorder(opened), now, after, r),
        Err(error) => r matches Err(refused) && loses_microphone(
            before,
            plan.session,
            error,
            after,
            refused,
        ),
    }
}

/// A session with a target gets what the capture may answer to the wish for the configured device.
pub open spec fn starts_capture(
    before: VoxTypeDaemon,
    plan: StartPlan,
    now: u64,
    after: VoxTypeDaemon,
    r: Result<String, DaemonError>,
) -> bool {
    let device = Some(before@.config.audio.device@);
    exists|opened: Result<Box<dyn CaptureSession>, VoxError>|
        {
            &&& before@.capture.adapter.may_open(device, opened)
            &&& #[trigger] takes_microphone(before, plan, opened, now, after, r)
        }
}

/// A prepared session gets its target first, one that the desktop may arm for it in the mode of the
/// plan; without one the microphone stays closed.
pub open spec fn starts_session(
    before: VoxTypeDaemon,
    plan: StartPlan,
    now: u64,
    after: VoxTypeDaemon,
    r: Result<String, DaemonError>,
) -> bool {
    exists|
        armed: Result<InsertionArm, VoxError>,
        targeted: VoxTypeDaemon,
        taken: Result<(), DaemonError>,
    |
        {
            &&& before@.desktop.adapter.may_arm(plan.mode, plan.session, armed)
            &&& #[trigger] takes_target(before, plan.session, armed, targeted, taken)
            &&& match taken {
                Ok(_) => starts_capture(targeted, plan, now, after, r),
                Err(refused) => after == targeted && r == Err::<String, DaemonError>(refused),
            }
        }
}

/// A dictation is started, whatever the adapters answer.
pub open spec fn starts(
    before: VoxTypeDaemon,
    profile: Seq<char>,
    now: u64,
    after: VoxTypeDaemon,
    r: Result<String, DaemonError>,
) -> bool {
    exists|prepared: VoxTypeDaemon, begun: Result<StartPlan, DaemonError>|
        {
            &&& #[trigger] begins_start(before, profile, prepared, begun)
            &&& match begun {
                Ok(plan) => starts_session(prepared, plan, now, after, r),
                Err(refused) => after == prepared && r == Err::<String, DaemonError>(refused),
            }
        }
}

impl VoxTypeDaemon {
    /// Applies one command to the session.
    pub fn apply_command(&mut self, command: Command) -> (r: Result<CommandEffect, VoxError>)
        ensures
            AppController::applies(old(self).controller(), command, final(self).controller(), r),
            final(self)@ == old(self)@,
    {
        self.app.apply(command)
    }

    /// Begins a dictation: the profile is chosen and the session prepared.
    pub fn begin_start(&mut self, profile: &str) -> (r: Result<StartPlan, DaemonError>)
        ensures
            begins_start(*old(self), profile@, *final(self), r),
    {
        if self.recording.is_some() {
            return Err(failed("recording is already active"));
        }
        let given = profile.unicode_len() > 0;
        let name = match self.config.profile(
            if given {
                Some(profile)
            } else {
                None
            },
        ) {
            Some((name, selected)) => {
                if !given && profile_is_demo_only(&self.config, selected) {
                    return Err(
                        failed(
                            "the default profile only contains fixed-text demo providers; configure a real ASR provider in VoxType Settings, or pass the demo profile explicitly for integration testing",
                        ),
                    );
                }
                owned(name)
            },
            None => {
                return Err(DaemonError::InvalidArgs(join2("unknown profile: ", profile)));
            },
        };
        let request = StartRequest { mode: TriggerMode::Toggle, profile: Some(name.clone()) };
        let ghost command = Command::Start(request);
        let result = self.app.apply(Command::Start(request));
        assert(start_command(command, name@));
        assert(AppController::applies(
            old(self).controller(),
            command,
            self.controller(),
            result,
        ));
        match result {
            Ok(CommandEffect::BeginCapture { session, .. }) => Ok(
                StartPlan {
                    session,
                    mode: insertion_mode(self.config.desktop.insertion_backend),
                    profile: name,
                },
            ),
            Ok(_) => Err(failed("invalid start effect")),
            Err(error) => Err(map_error(&error)),
        }
    }

    /// Takes what arming the insertion of a session brought.
    pub fn insertion_armed(
        &mut self,
        session: &SessionId,
        armed: Result<InsertionArm, VoxError>,
    ) -> (r: Result<(), DaemonError>)
        ensures
            takes_target(*old(self), *session, armed, *final(self), r),
    {
        match armed {
            Ok(arm) => {
                self.armed_insertion = Some(arm);
                Ok(())
            },
            Err(error) => {
                let ghost command = Command::Fail { session: *session, error };
                let refused = map_error(&error);
                let _effect = self.app.apply(Command::Fail { session: session.clone(), error });
                assert(AppController::applies(
                    old(self).controller(),
                    command,
                    self.controller(),
                    _effect,
                ));
                Err(refused)
            },
        }
    }

    /// Takes what opening the microphone for a session brought: the session listens, or fails and
    /// its target is let go.
    pub fn capture_opened(
        &mut self,
        plan: StartPlan,
        opened: Result<Box<dyn CaptureSession>, VoxError>,
        now: u64,
    ) -> (r: Result<String, DaemonError>)
        ensures
            takes_microphone(*old(self), plan, opened, now, *final(self), r),
    {
        match opened {
            Ok(recording) => {
                let recorder = Some(recording);
                self.capture_started(plan, recorder, now)
            },
            Err(error) => Err(self.capture_failed(&plan.session, error)),
        }
    }

    /// The microphone is open: the session listens.
    fn capture_started(
        &mut self,
        plan: StartPlan,
        recorder: Option<Box<dyn CaptureSession>>,
        now: u64,
    ) -> (r: Result<String, DaemonError>)
        ensures
            opens_microphone(*old(self), plan, recorder, now, *final(self), r),
    {
        self.recording = recorder;
        self.live_vad = if self.config.audio.vad_enabled {
            Some(StreamingVad::new(vad_config(&self.config)))
        } else {
            None
        };
        self.last_live_audio = None;
        self.last_audio_overlay_at = None;
        self.recording_started_at = Some(now);
        self.active_profile = Some(plan.profile);
        let ghost command = Command::CaptureReady { session: plan.session };
        let result = self.app.apply(Command::CaptureReady { session: plan.session.clone() });
        proof {
            assert(self@ == capturing(old(self)@, recorder, plan.profile@, now));
            assert(AppController::applies(
                old(self).controller(),
                command,
                self.controller(),
                result,
            ));
        }
        match result {
            Ok(_) => {
                self.notice(Notice::Listening);
                Ok(owned(plan.session.as_str()))
            },
            Err(error) => Err(map_error(&error)),
        }
    }

    /// Lets go of the insertion target of the session, where there is one.
    fn cancel_insertion(&self) {
        match &self.armed_insertion {
            Some(armed) => self.insertion_adapter.adapter.cancel(armed),
            None => {},
        }
    }

    /// The microphone could not be opened: the session fails and its target is let go.
    pub fn capture_failed(&mut self, session: &SessionId, error: VoxError) -> (r: DaemonError)
        ensures
            loses_microphone(*old(self), *session, error, *final(self), r),
    {
        self.cancel_insertion();
        self.armed_insertion = None;
        let refused = map_error(&error);
        let ghost command = Command::Fail { session: *session, error };
        let _effect = self.app.apply(Command::Fail { session: session.clone(), error });
        assert(AppController::applies(
            old(self).controller(),
            command,
            self.controller(),
            _effect,
        ));
        refused
    }

    /// Starts a dictation: the target is armed before the microphone is opened.
    ///
    /// What the adapters answer decides whether it succeeds.
    pub fn start(&mut self, profile: &str, now: u64) -> (r: Result<String, DaemonError>)
        ensures
            starts(*old(self), profile@, now, *final(self), r),
            r matches Ok(session) ==> {
                &&& start_refusal(old(self)@, profile@) is None
                &&& final(self)@.armed is Some
                &&& final(self)@.recorder is Some
                &&& final(self)@ == noticed(
                    capturing(
                        (DaemonModel { armed: final(self)@.armed, ..old(self)@ }),
                        final(self)@.recorder,
                        wanted_profile(old(self)@.config, profile@),
                        now,
                    ),
                    NoticeModel::Listening,
                )
                &&& final(self).controller().session_machine().current() is Listening
                &&& final(self).controller().session_machine().current().owner()->0@ == session@
            },
    {
        let plan = match self.begin_start(profile) {
            Ok(plan) => plan,
            Err(error) => {
                return Err(error);
            },
        };
        let armed = self.insertion_adapter.adapter.arm(plan.mode, &plan.session);
        match self.insertion_armed(&plan.session, armed) {
            Ok(_) => {},
            Err(error) => {
                return Err(error);
            },
        }
        let ghost targeted = *self;
        let opened = self.capture_adapter.adapter.start(Some(self.config.audio.device.as_str()));
        let ghost answer = opened;
        let ghost planned = plan;
        let r = self.capture_opened(plan, opened, now);
        assert(takes_microphone(targeted, planned, answer, now, *self, r));
        r
    }
}

/// What toggling does: a recording that runs is stopped, and one is started where none runs.
#[derive(Clone, Copy, Debug, Eq, PartialEq, Structural)]
pub enum ToggleStep {
    Start,
    Stop,
}

/// A recording that was stopped.
#[derive(Debug)]
pub struct Stopped {
    pub session: SessionId,
    pub audio: CapturedAudio,
}

/// The session that a client means; no name stands for the one that there is.
pub open spec fn meant_session(owner: Option<SessionId>, requested: Seq<char>) -> Result<
    SessionId,
    DaemonErrorModel,
> {
    match owner {
        None => Err(DaemonErrorModel::Failed("no active session"@)),
        Some(session) => if requested.len() == 0 || requested == session@ {
            Ok(session)
        } else {
            Err(DaemonErrorModel::InvalidArgs("session ID does not match"@))
        },
    }
}

/// What is left of the error of a failed pipeline for the session to remember.
pub open spec fn pipeline_failure(error: VoxError, code: Seq<char>, message: Seq<char>) -> bool {
    error.says(ErrorCategory::Internal, code, message, false)
}

/// A session that still runs fails; another one is left as it is.
pub open spec fn fails_if_active(
    before: AppController,
    session: SessionId,
    code: Seq<char>,
    message: Seq<char>,
    after: AppController,
) -> bool {
    let state = before.session_machine().current();
    if state.active() && state.owner()->0@ == session@ {
        exists|error: VoxError|
            {
                &&& pipeline_failure(error, code, message)
                &&& #[trigger] commanded(before, Command::Fail { session, error }, after)
            }
    } else {
        after == before
    }
}

/// The session that was stopped, or why none was.
pub open spec fn session_of(r: Result<(SessionId, Box<dyn CaptureSession>), DaemonError>) -> Result<
    SessionId,
    DaemonError,
> {
    match r {
        Ok(stopped) => Ok(stopped.0),
        Err(error) => Err(error),
    }
}

/// The listening of a session ends, or the call is refused.
pub open spec fn begins_stop(
    before: VoxTypeDaemon,
    requested: Seq<char>,
    after: VoxTypeDaemon,
    r: Result<SessionId, DaemonError>,
) -> bool {
    match meant_session(before.controller().session_machine().current().owner(), requested) {
        Err(why) => {
            &&& r matches Err(error)
            &&& error@ == why
            &&& after@ == before@
            &&& after.controller() == before.controller()
        },
        Ok(session) => exists|result: Result<CommandEffect, VoxError>|
            {
                &&& #[trigger] AppController::applies(
                    before.controller(),
                    Command::Stop { session },
                    after.controller(),
                    result,
                )
                &&& match result {
                    Err(refusal) => {
                        &&& r matches Err(error)
                        &&& error@ == told(refusal)
                        &&& after@ == before@
                    },
                    Ok(_) => if before@.recorder is Some {
                        &&& r == Ok::<SessionId, DaemonError>(session)
                        &&& after@ == silent(before@)
                    } else {
                        &&& r matches Err(error)
                        &&& error@ == DaemonErrorModel::Failed("recording process is missing"@)
                        &&& after@ == before@
                    },
                }
            },
    }
}

/// The session fails with an error of the desktop.
pub open spec fn fails_session(
    before: VoxTypeDaemon,
    session: SessionId,
    error: VoxError,
    after: VoxTypeDaemon,
    r: DaemonError,
) -> bool {
    &&& r@ == told(error)
    &&& after@ == before@
    &&& commanded(before.controller(), Command::Fail { session, error }, after.controller())
}

/// What a stopped session comes to: the capture hands out its audio or fails, in a way that it may
/// end in.
pub open spec fn ends_stop(
    before: VoxTypeDaemon,
    session: SessionId,
    recorder: Option<Box<dyn CaptureSession>>,
    after: VoxTypeDaemon,
    r: Result<Stopped, DaemonError>,
) -> bool {
    match r {
        Ok(stopped) => {
            &&& stopped.session == session
            &&& recorder->0.may_finish(Ok(stopped.audio))
            &&& after@ == noticed(before@, NoticeModel::Processing)
            &&& after.controller() == before.controller()
        },
        Err(refused) => exists|error: VoxError|
            {
                &&& recorder->0.may_finish(Err(error))
                &&& #[trigger] fails_session(before, session, error, after, refused)
            },
    }
}

/// A recording is stopped, whatever the end of the capture is.
pub open spec fn stops(
    before: VoxTypeDaemon,
    requested: Seq<char>,
    after: VoxTypeDaemon,
    r: Result<Stopped, DaemonError>,
) -> bool {
    exists|quiet: VoxTypeDaemon, begun: Result<SessionId, DaemonError>|
        {
            &&& #[trigger] begins_stop(before, requested, quiet, begun)
            &&& match begun {
                Err(refused) => after == quiet && r == Err::<Stopped, DaemonError>(refused),
                Ok(session) => ends_stop(quiet, session, before@.recorder, after, r),
            }
        }
}

impl VoxTypeDaemon {
    /// The session that a client means.
    pub fn active_session_id(&self, requested: &str) -> (r: Result<SessionId, DaemonError>)
        ensures
            match meant_session(
                self.controller().session_machine().current().owner(),
                requested@,
            ) {
                Ok(session) => r == Ok::<SessionId, DaemonError>(session),
                Err(why) => r matches Err(error) && error@ == why,
            },
    {
        match self.app.state().session() {
            None => Err(failed("no active session")),
            Some(active) => {
                if requested.unicode_len() == 0 || same_text(requested, active.as_str()) {
                    Ok(active.clone())
                } else {
                    Err(DaemonError::InvalidArgs(owned("session ID does not match")))
                }
            },
        }
    }

    fn silence(&mut self)
        ensures
            final(self)@ == silent(old(self)@),
            final(self).controller() == old(self).controller(),
    {
        self.recording = None;
        self.recording_started_at = None;
        self.live_vad = None;
        self.last_live_audio = None;
        self.last_audio_overlay_at = None;
    }

    /// Ends the listening of a session; what records it is handed out.
    pub fn begin_stop(&mut self, requested: &str) -> (r: Result<
        (SessionId, Box<dyn CaptureSession>),
        DaemonError,
    >)
        ensures
            begins_stop(*old(self), requested@, *final(self), session_of(r)),
            r matches Ok(stopped) ==> old(self)@.recorder == Some(stopped.1),
    {
        let active = match self.active_session_id(requested) {
            Ok(active) => active,
            Err(error) => {
                return Err(error);
            },
        };
        let ghost command = Command::Stop { session: active };
        let result = self.app.apply(Command::Stop { session: active.clone() });
        assert(AppController::applies(
            old(self).controller(),
            command,
            self.controller(),
            result,
        ));
        match result {
            Ok(_) => {},
            Err(error) => {
                return Err(map_error(&error));
            },
        }
        match self.recording.take() {
            Some(recording) => {
                self.silence();
                let stopped = (active, recording);
                Ok(stopped)
            },
            None => Err(failed("recording process is missing")),
        }
    }

    /// The recording could not be finished: the session fails.
    pub fn stop_failed(&mut self, session: &SessionId, error: VoxError) -> (r: DaemonError)
        ensures
            fails_session(*old(self), *session, error, *final(self), r),
    {
        let refused = map_error(&error);
        let ghost command = Command::Fail { session: *session, error };
        let _effect = self.app.apply(Command::Fail { session: session.clone(), error });
        assert(AppController::applies(
            old(self).controller(),
            command,
            self.controller(),
            _effect,
        ));
        refused
    }

    /// Stops the recording of a session.
    ///
    /// Whether the recording can be finished is up to what records it.
    pub fn stop(&mut self, requested: &str) -> (r: Result<Stopped, DaemonError>)
        ensures
            stops(*old(self), requested@, *final(self), r),
            r matches Ok(stopped) ==> {
                &&& old(self)@.recorder is Some
                &&& old(self).controller().session_machine().current() is Listening
                &&& final(self)@ == noticed(silent(old(self)@), NoticeModel::Processing)
                &&& final(self).controller().session_machine().current()
                    == (crate::session::SessionState::Finalizing { session: stopped.session })
            },
    {
        let begun = self.begin_stop(requested);
        let ghost quiet = *self;
        let ghost session_begun = session_of(begun);
        assert(begins_stop(*old(self), requested@, quiet, session_begun));
        let (session, recording) = match begun {
            Ok(stopped) => stopped,
            Err(error) => {
                return Err(error);
            },
        };
        match recording.stop() {
            Ok(audio) => {
                self.notice(Notice::Processing);
                Ok(Stopped { session, audio })
            },
            Err(error) => {
                let refused = self.stop_failed(&session, error);
                assert(fails_session(quiet, session, error, *self, refused));
                assert(ends_stop(quiet, session, old(self)@.recorder, *self, Err(refused)));
                Err(refused)
            },
        }
    }

    /// Fails a session that still runs.
    pub fn fail_nonterminal_session(
        &mut self,
        session: &SessionId,
        code: &'static str,
        message: &str,
    )
        ensures
            final(self)@ == old(self)@,
            fails_if_active(
                old(self).controller(),
                *session,
                code@,
                message@,
                final(self).controller(),
            ),
    {
        let state = self.app.state();
        let mine = match state.session() {
            Some(owner) => owner.same(session),
            None => false,
        };
        let running = match state {
            crate::session::SessionState::Preparing { .. } => true,
            crate::session::SessionState::Listening { .. } => true,
            crate::session::SessionState::Finalizing { .. } => true,
            crate::session::SessionState::Inserting { .. } => true,
            _ => false,
        };
        if mine && running {
            let error = VoxError::new(ErrorCategory::Internal, code, message);
            let ghost command = Command::Fail { session: *session, error };
            let _effect = self.app.apply(Command::Fail { session: session.clone(), error });
            proof {
                assert(AppController::applies(
                    old(self).controller(),
                    command,
                    self.controller(),
                    _effect,
                ));
                assert(pipeline_failure(error, code@, message@));
                assert(commanded(old(self).controller(), command, self.controller()));
            }
        }
    }

    /// Ends a stop: a failed pipeline fails its session, and where no recognition runs nothing
    /// is kept of it. The result says whether the recording is to be removed.
    pub fn finish_stop(&mut self, session: &SessionId, failure: Option<&DaemonError>) -> (r: bool)
        ensures
            r == (old(self)@.job is None && !old(self)@.config.desktop.retain_recordings),
            final(self)@ == (if old(self)@.job is None {
                released(old(self)@)
            } else {
                old(self)@
            }),
            match failure {
                Some(error) => fails_if_active(
                    old(self).controller(),
                    *session,
                    "recognition.pipeline_failed"@,
                    shown(error@),
                    final(self).controller(),
                ),
                None => final(self).controller() == old(self).controller(),
            },
    {
        match failure {
            Some(error) => {
                let message = error.to_text();
                self.fail_nonterminal_session(
                    session,
                    "recognition.pipeline_failed",
                    message.as_str(),
                );
                self.cancel_insertion();
            },
            None => {},
        }
        let idle = self.recognition_job.is_none();
        if idle {
            self.active_profile = None;
            self.armed_insertion = None;
        }
        idle && !self.config.desktop.retain_recordings
    }

    /// The microphone is open.
    pub fn is_recording(&self) -> (r: bool)
        ensures
            r == (self@.recorder is Some),
    {
        self.recording.is_some()
    }

    /// What a wish to toggle the dictation leads to.
    pub fn toggle_step(&self) -> (r: ToggleStep)
        ensures
            r == (if self@.recorder is Some {
                ToggleStep::Stop
            } else {
                ToggleStep::Start
            }),
    {
        if self.recording.is_some() {
            ToggleStep::Stop
        } else {
            ToggleStep::Start
        }
    }

    /// Drops what records and what recognizes; the job that ran is handed out.
    fn drop_work(&mut self) -> (job: Option<RecognitionJob>)
        ensures
            match job {
                Some(job) => old(self)@.job == Some(job@),
                None => old(self)@.job is None,
            },
            final(self)@ == (DaemonModel { job: None, ..silent(old(self)@) }),
            final(self).controller() == old(self).controller(),
    {
        match self.recording.take() {
            Some(recording) => recording.cancel(),
            None => {},
        }
        let job = self.recognition_job.take();
        self.silence();
        self.cancel_insertion();
        job
    }

    /// Cancels a session, with its recording and its recognition.
    ///
    /// The job that ran is handed out, to be stopped and its recording removed.
    pub fn cancel(&mut self, requested: &str) -> (r: Result<Option<RecognitionJob>, DaemonError>)
        ensures
            cancels(*old(self), requested@, *final(self), r),
    {
        let active = match self.active_session_id(requested) {
            Ok(active) => active,
            Err(error) => {
                return Err(error);
            },
        };
        let ghost command = Command::Cancel { session: active };
        let result = self.app.apply(Command::Cancel { session: active });
        assert(AppController::applies(
            old(self).controller(),
            command,
            self.controller(),
            result,
        ));
        match result {
            Ok(_) => {},
            Err(error) => {
                return Err(map_error(&error));
            },
        }
        let job = self.drop_work();
        self.active_profile = None;
        self.armed_insertion = None;
        self.notice(Notice::Cancelled);
        Ok(job)
    }

    /// Goes back to idle.
    pub fn reset(&mut self) -> (r: Result<(), DaemonError>)
        ensures
            final(self)@ == old(self)@,
            commands_told(
                old(self).controller(),
                Command::Reset,
                final(self).controller(),
                r,
            ),
    {
        let result = self.app.apply(Command::Reset);
        assert(AppController::applies(
            old(self).controller(),
            Command::Reset,
            self.controller(),
            result,
        ));
        match result {
            Ok(_) => Ok(()),
            Err(error) => Err(map_error(&error)),
        }
    }

    /// Whether another configuration may be taken: nothing is recorded or recognized.
    pub fn check_idle(&self) -> (r: Result<(), DaemonError>)
        ensures
            match r {
                Ok(_) => self@.recorder is None && self@.job is None,
                Err(error) => {
                    &&& self@.recorder is Some || self@.job is Some
                    &&& error@ == DaemonErrorModel::Failed(
                        "configuration reload requires an idle daemon"@,
                    )
                },
            },
    {
        if self.recording.is_some() || self.recognition_job.is_some() {
            return Err(failed("configuration reload requires an idle daemon"));
        }
        Ok(())
    }

    /// Takes another configuration, with the adapters that it asks for.
    pub fn reload_configuration(
        &mut self,
        config: Config,
        registry: ProviderRegistry,
        insertion_adapter: SharedInsertion,
    ) -> (r: Result<(), DaemonError>)
        ensures
            reloads(*old(self), config, registry@, insertion_adapter, *final(self), r),
    {
        match self.check_idle() {
            Ok(_) => {},
            Err(error) => {
                return Err(error);
            },
        }
        self.insertion_adapter = insertion_adapter;
        self.config = config;
        self.app.replace_registry(registry);
        if !self.config.desktop.transcript_history_enabled {
            self.clear_history();
        }
        Ok(())
    }

    /// The answer to a test of the insertion.
    pub fn insert_test(&self, text: &str) -> (r: Result<String, DaemonError>)
        ensures
            match r {
                Ok(answer) => exists|outcome: InsertionOutcome|
                    {
                        &&& self@.desktop.adapter.may_insert(text@, Ok(outcome))
                        &&& answer@ == #[trigger] outcome_text(outcome)
                    },
                Err(error) => exists|fault: VoxError|
                    {
                        &&& self@.desktop.adapter.may_insert(text@, Err(fault))
                        &&& error@ == #[trigger] told(fault)
                    },
            },
    {
        match self.insertion_adapter.adapter.insert_diagnostic(text) {
            Ok(outcome) => {
                assert(outcome_text(outcome) == outcome_text(outcome));
                Ok(render_outcome(&outcome))
            },
            Err(error) => Err(map_error(&error)),
        }
    }

    /// Ends the daemon; the job that ran is handed out, to be stopped and its recording removed.
    pub fn quit(&mut self) -> (job: Option<RecognitionJob>)
        ensures
            match job {
                Some(job) => old(self)@.job == Some(job@),
                None => old(self)@.job is None,
            },
            final(self)@ == (DaemonModel { job: None, quit: true, ..silent(old(self)@) }),
            final(self).controller() == old(self).controller(),
    {
        let job = self.drop_work();
        self.quit = true;
        self.app.wake_handle().notify();
        job
    }
}

/// A session is cancelled with its recording and its recognition, or the call is refused.
pub open spec fn cancels(
    before: VoxTypeDaemon,
    requested: Seq<char>,
    after: VoxTypeDaemon,
    r: Result<Option<RecognitionJob>, DaemonError>,
) -> bool {
    match meant_session(before.controller().session_machine().current().owner(), requested) {
        Err(why) => {
            &&& r matches Err(error)
            &&& error@ == why
            &&& after@ == before@
            &&& after.controller() == before.controller()
        },
        Ok(session) => exists|result: Result<CommandEffect, VoxError>|
            {
                &&& #[trigger] AppController::applies(
                    before.controller(),
                    Command::Cancel { session },
                    after.controller(),
                    result,
                )
                &&& match result {
                    Err(refusal) => {
                        &&& r matches Err(error)
                        &&& error@ == told(refusal)
                        &&& after@ == before@
                    },
                    Ok(_) => {
                        &&& r matches Ok(job)
                        &&& match job {
                            Some(job) => before@.job == Some(job@),
                            None => before@.job is None,
                        }
                        &&& after@ == noticed(
                            released((DaemonModel { job: None, ..silent(before@) })),
                            NoticeModel::Cancelled,
                        )
                    },
                }
            },
    }
}

/// Another configuration is taken where the daemon does nothing.
pub open spec fn reloads(
    before: VoxTypeDaemon,
    config: Config,
    registry: Map<Seq<char>, crate::route::SharedAdapter>,
    insertion_adapter: SharedInsertion,
    after: VoxTypeDaemon,
    r: Result<(), DaemonError>,
) -> bool {
    match r {
        Ok(_) => {
            &&& before@.recorder is None && before@.job is None
            &&& after@ == (DaemonModel {
                config,
                desktop: insertion_adapter,
                history: if config.desktop.transcript_history_enabled {
                    before@.history
                } else {
                    Seq::empty()
                },
                ..before@
            })
            &&& after.controller()@ == (crate::controller::ControllerModel {
                registry,
                accounts: crate::controller::Accounts {
                    health: Map::empty(),
                    ..before.controller()@.accounts
                },
                ..before.controller()@
            })
            &&& after.controller().session_machine() == before.controller().session_machine()
            &&& after.controller().wakes() == before.controller().wakes()
        },
        Err(error) => {
            &&& before@.recorder is Some || before@.job is Some
            &&& error@ == DaemonErrorModel::Failed(
                "configuration reload requires an idle daemon"@,
            )
            &&& after@ == before@
            &&& after.controller() == before.controller()
        },
    }
}

/// How the outcome of an insertion is told.
pub open spec fn outcome_text(outcome: InsertionOutcome) -> Seq<char> {
    "backend="@ + outcome.backend@ + " clipboard_restored="@ + truth_text(
        outcome.clipboard_restored,
    )
}

pub fn render_outcome(outcome: &InsertionOutcome) -> (text: String)
    ensures
        text@ == outcome_text(*outcome),
{
    let mut text = join3("backend=", outcome.backend, " clipboard_restored=");
    text.append(write_truth(outcome.clipboard_restored));
    text
}

/// What was found in a stopped recording.
#[derive(Debug)]
pub enum Hearing {
    /// There is nothing to recognize, and this is the answer.
    Nothing(String),
    /// There is something to recognize. Where `keep` is given, only this range of the bytes of
    /// the recording is kept.
    Speech { result: Option<VadResult>, keep: Option<(usize, usize)>, audio_millis: u64 },
}

/// The answer to a recording that is too short.
pub open spec fn too_short_text(session: Seq<char>, duration_millis: u64) -> Seq<char> {
    "session="@ + session + " result=no-speech duration_ms="@ + decimal(duration_millis as nat)
}

/// The answer to a recording without speech.
pub open spec fn no_speech_text(session: Seq<char>, reason: Seq<char>, result: VadResult) -> Seq<
    char,
> {
    "session="@ + session + " result=no-speech reason="@ + reason + " vad_voiced_frames="@
        + decimal(result.voiced_frames as nat) + " vad_total_frames="@ + decimal(
        result.total_frames as nat,
    ) + " average_rms="@ + decimal(result.average_rms as nat) + " noise_floor="@ + decimal(
        result.noise_floor as nat,
    ) + " threshold="@ + decimal(result.adaptive_threshold as nat) + " peak="@ + decimal(
        result.peak as nat,
    )
}

fn render_no_speech(session: &str, reason: &str, result: &VadResult) -> (text: String)
    ensures
        text@ == no_speech_text(session@, reason@, *result),
{
    let mut text = join3("session=", session, " result=no-speech reason=");
    text.append(reason);
    text.append(" vad_voiced_frames=");
    let voiced = write_number(result.voiced_frames as u64);
    text.append(voiced.as_str());
    text.append(" vad_total_frames=");
    let total = write_number(result.total_frames as u64);
    text.append(total.as_str());
    text.append(" average_rms=");
    let average = write_number(result.average_rms as u64);
    text.append(average.as_str());
    text.append(" noise_floor=");
    let noise = write_number(result.noise_floor as u64);
    text.append(noise.as_str());
    text.append(" threshold=");
    let threshold = write_number(result.adaptive_threshold as u64);
    text.append(threshold.as_str());
    text.append(" peak=");
    let peak = write_number(result.peak as u64);
    text.append(peak.as_str());
    text
}

/// The duration of so many bytes of PCM.
pub open spec fn pcm_millis(bytes: nat) -> u64 {
    ((if bytes * 1_000 > u64::MAX {
        u64::MAX as nat
    } else {
        bytes * 1_000
    }) / 32_000) as u64
}

fn duration_of(bytes: usize) -> (r: u64)
    ensures
        r == pcm_millis(bytes as nat),
{
    let product: u64 = match (bytes as u64).checked_mul(1_000) {
        Some(product) => product,
        None => u64::MAX,
    };
    product / 32_000
}

/// How many bytes trimming leaves of a recording.
pub open spec fn kept_length(result: VadResult, length: nat) -> nat {
    match crate::vad::kept_range(result, length) {
        Some(range) => (range.1 - range.0) as nat,
        None => length,
    }
}

/// The recording is too short to hold anything.
pub open spec fn too_short(daemon: DaemonModel, audio: CapturedAudio) -> bool {
    audio.duration_millis < daemon.config.audio.minimum_duration_millis
}

impl VoxTypeDaemon {
    /// Ends a session without text: its target is let go, and the answer and the notice tell why.
    fn end_without_speech(&mut self, session: &SessionId, answer: String, notice: Notice) -> (r:
        Result<Hearing, DaemonError>)
        ensures
            ends_without_speech(
                *old(self),
                *session,
                answer@,
                notice@,
                *final(self),
                r,
            ),
    {
        self.cancel_insertion();
        let ghost command = Command::NoSpeech { session: *session };
        let result = self.app.apply(Command::NoSpeech { session: session.clone() });
        assert(AppController::applies(
            old(self).controller(),
            command,
            self.controller(),
            result,
        ));
        match result {
            Ok(_) => {
                self.notice(notice);
                Ok(Hearing::Nothing(answer))
            },
            Err(error) => Err(map_error(&error)),
        }
    }

    /// Whether the bytes of a recording are to be listened to.
    pub fn listens_to(&self, audio: &CapturedAudio) -> (r: bool)
        ensures
            r == (!too_short(self@, *audio) && self@.config.audio.vad_enabled),
    {
        audio.duration_millis >= self.config.audio.minimum_duration_millis
            && self.config.audio.vad_enabled
    }

    /// Looks for speech in a stopped recording; `pcm` are its bytes, where they are listened to.
    pub fn hear(&mut self, session: &SessionId, audio: &CapturedAudio, pcm: &[u8]) -> (r: Result<
        Hearing,
        DaemonError,
    >)
        ensures
            hears(*old(self), *session, *audio, pcm@, *final(self), r),
    {
        if audio.duration_millis < self.config.audio.minimum_duration_millis {
            let millis = write_number(audio.duration_millis);
            let mut answer = join3("session=", session.as_str(), " result=no-speech duration_ms=");
            answer.append(millis.as_str());
            return self.end_without_speech(session, answer, Notice::TooShort);
        }
        if !self.config.audio.vad_enabled {
            return Ok(
                Hearing::Speech {
                    result: None,
                    keep: None,
                    audio_millis: audio.duration_millis,
                },
            );
        }
        let result = crate::vad::analyze_pcm(pcm, vad_config(&self.config));
        if result.speech_detected {
            let keep = crate::vad::trim_range(&result, pcm.len());
            let kept: usize = match keep {
                Some((start, end)) => end - start,
                None => pcm.len(),
            };
            return Ok(
                Hearing::Speech { result: Some(result), keep, audio_millis: duration_of(kept) },
            );
        }
        let (reason, guidance) = crate::presentation::no_speech_guidance(
            &result,
            self.config.audio.vad_rms_threshold,
            self.config.audio.vad_minimum_voiced_frames,
        );
        let answer = render_no_speech(session.as_str(), reason, &result);
        self.end_without_speech(session, answer, Notice::NoSpeech(guidance))
    }
}

/// A stopped recording is looked through for speech: a recording that is too short or holds none ends
/// its session, any other is handed on, from its first to its last speech.
pub open spec fn hears(
    before: VoxTypeDaemon,
    session: SessionId,
    audio: CapturedAudio,
    pcm: Seq<u8>,
    after: VoxTypeDaemon,
    r: Result<Hearing, DaemonError>,
) -> bool {
    let config = before@.config;
    let result = crate::vad::recording_result(pcm, vad_config_of(config));
    if too_short(before@, audio) {
        ends_without_speech(
            before,
            session,
            too_short_text(session@, audio.duration_millis),
            NoticeModel::TooShort,
            after,
            r,
        )
    } else if !config.audio.vad_enabled {
        &&& r == Ok::<Hearing, DaemonError>(
            Hearing::Speech { result: None, keep: None, audio_millis: audio.duration_millis },
        )
        &&& after@ == before@
        &&& after.controller() == before.controller()
    } else if result.speech_detected {
        &&& r matches Ok(Hearing::Speech { result: heard, keep, audio_millis })
        &&& heard == Some(result)
        &&& match keep {
            Some(range) => crate::vad::kept_range(result, pcm.len()) == Some(
                (range.0 as nat, range.1 as nat),
            ),
            None => crate::vad::kept_range(result, pcm.len()) is None,
        }
        &&& audio_millis == pcm_millis(kept_length(result, pcm.len()))
        &&& after@ == before@
        &&& after.controller() == before.controller()
    } else {
        let guidance = crate::presentation::guidance_for(
            result,
            config.audio.vad_rms_threshold,
            config.audio.vad_minimum_voiced_frames,
        );
        ends_without_speech(
            before,
            session,
            no_speech_text(session@, guidance.0, result),
            NoticeModel::NoSpeech(guidance.1),
            after,
            r,
        )
    }
}

/// A session ends without text.
pub open spec fn ends_without_speech(
    before: VoxTypeDaemon,
    session: SessionId,
    answer: Seq<char>,
    notice: NoticeModel,
    after: VoxTypeDaemon,
    r: Result<Hearing, DaemonError>,
) -> bool {
    exists|result: Result<CommandEffect, VoxError>|
        {
            &&& #[trigger] AppController::applies(
                before.controller(),
                Command::NoSpeech { session },
                after.controller(),
                result,
            )
            &&& match result {
                Ok(_) => {
                    &&& r matches Ok(Hearing::Nothing(text))
                    &&& text@ == answer
                    &&& after@ == noticed(before@, notice)
                },
                Err(error) => {
                    &&& r matches Err(refused)
                    &&& refused@ == told(error)
                    &&& after@ == before@
                },
            }
        }
}

/// The bytes of a recording could not be read.
pub fn analysis_failed(reason: &str) -> (error: DaemonError)
    ensures
        error@ == DaemonErrorModel::Failed("VAD analysis failed: "@ + reason@),
{
    DaemonError::Failed(join2("VAD analysis failed: ", reason))
}

/// A recording could not be trimmed.
pub fn trim_failed(reason: &str) -> (error: DaemonError)
    ensures
        error@ == DaemonErrorModel::Failed("audio trim failed: "@ + reason@),
{
    DaemonError::Failed(join2("audio trim failed: ", reason))
}

/// The worker that recognizes could not be started.
pub fn worker_failed(reason: &str) -> (error: DaemonError)
    ensures
        error@ == DaemonErrorModel::Failed("could not start recognition: "@ + reason@),
{
    DaemonError::Failed(join2("could not start recognition: ", reason))
}

/// The worker that recognizes went away without a result.
pub fn worker_disconnected() -> (result: RecognitionRouteResult)
    ensures
        result.attempts@.len() == 0,
        result.outcome matches Err(error) && error.says(
            ErrorCategory::Internal,
            "provider.worker_disconnected"@,
            "recognition worker exited without a result"@,
            false,
        ),
{
    RecognitionRouteResult {
        attempts: Vec::new(),
        outcome: Err(
            VoxError::new(
                ErrorCategory::Internal,
                "provider.worker_disconnected",
                "recognition worker exited without a result",
            ),
        ),
    }
}

/// What a recognition is run with.
#[derive(Debug)]
pub struct RecognitionPlan {
    pub route: RoutePlan,
    pub language: String,
}

/// The profile of the dictation that runs.
pub open spec fn current_profile(daemon: DaemonModel) -> Seq<char> {
    match daemon.active_profile {
        Some(name) => name,
        None => daemon.config.default_profile@,
    }
}

/// The policy asks the providers of the profile, in their order.
pub open spec fn policy_for(policy: RoutingPolicy, profile: ProfileConfig) -> bool {
    let ids = crate::routing::candidates(policy);
    let names = crate::config::profile_providers(profile);
    &&& ids.len() == names.len()
    &&& forall|i: int| 0 <= i < ids.len() ==> (#[trigger] ids[i])@ == names[i]
    &&& policy.replay == profile.replay.meant()
}

/// Every provider of the profile has a proper name.
pub open spec fn proper_names(profile: ProfileConfig) -> bool {
    let names = crate::config::profile_providers(profile);
    forall|i: int| 0 <= i < names.len() ==> crate::provider::provider_name(#[trigger] names[i])
}

/// How the complaint about a provider's name is told.
pub open spec fn improper_name() -> DaemonErrorModel {
    DaemonErrorModel::Failed(
        "provider.invalid_id"@ + ": "@
            + "provider ID must contain lowercase ASCII letters, digits, or hyphens"@,
    )
}

/// The policy that a profile stands for.
fn routing_policy(profile: &ProfileConfig) -> (r: Result<RoutingPolicy, VoxError>)
    ensures
        match r {
            Ok(policy) => proper_names(*profile) && policy_for(policy, *profile),
            Err(error) => !proper_names(*profile) && told(error) == improper_name(),
        },
{
    let ghost names = crate::config::profile_providers(*profile);
    assert(names[0] == profile.primary@);
    let primary = match ProviderId::new(profile.primary.as_str()) {
        Ok(id) => id,
        Err(error) => {
            return Err(error);
        },
    };
    let mut fallbacks: Vec<ProviderId> = Vec::new();
    for i in 0..profile.fallbacks.len()
        invariant
            names == crate::config::profile_providers(*profile),
            fallbacks@.len() == i,
            forall|k: int| 0 <= k <= i ==> crate::provider::provider_name(#[trigger] names[k]),
            forall|k: int| 0 <= k < i ==> (#[trigger] fallbacks@[k])@ == names[k + 1],
    {
        assert(names[i + 1] == profile.fallbacks@[i as int]@);
        let id = match ProviderId::new(profile.fallbacks[i].as_str()) {
            Ok(id) => id,
            Err(error) => {
                return Err(error);
            },
        };
        fallbacks.push(id);
    }
    let policy = RoutingPolicy { primary, fallbacks, replay: profile.replay.policy() };
    proof {
        let ids = crate::routing::candidates(policy);
        assert(ids.len() == names.len());
        assert forall|i: int| 0 <= i < ids.len() implies (#[trigger] ids[i])@ == names[i] by {
            if i > 0 {
                assert(ids[i] == policy.fallbacks@[i - 1]);
            }
        }
    }
    Ok(policy)
}

/// The answer to a stop that leads to a recognition.
pub open spec fn processing_text(session: Seq<char>) -> Seq<char> {
    "session="@ + session + " result=processing"@
}

/// A recognition ends with an error.
pub open spec fn fails_recognition(
    before: VoxTypeDaemon,
    session: SessionId,
    error: VoxError,
    after: VoxTypeDaemon,
    told_error: DaemonErrorModel,
) -> bool {
    &&& told_error == told(error)
    &&& after@ == noticed(
        before@,
        NoticeModel::RecognitionFailed(error.code_text() + ": "@ + error.message_text()),
    )
    &&& commanded(before.controller(), Command::Fail { session, error }, after.controller())
}

/// No provider of a route can be asked.
pub open spec fn nobody_to_ask(error: VoxError) -> bool {
    error.says(
        ErrorCategory::Unavailable,
        "routing.no_provider"@,
        "no configured provider is currently available"@,
        true,
    )
}

/// What planning the recognition of a session comes to under a policy.
pub open spec fn plans(
    before: VoxTypeDaemon,
    session: SessionId,
    policy: RoutingPolicy,
    language: Seq<char>,
    now: u64,
    after: VoxTypeDaemon,
    r: Result<RecognitionPlan, DaemonError>,
) -> bool {
    let providers = crate::controller::available_ids(
        crate::routing::candidates(policy),
        before.controller()@,
        now,
    );
    match r {
        Ok(plan) => {
            &&& providers.len() > 0
            &&& plan.route.providers@ == providers
            &&& plan.route.replay == policy.replay
            &&& plan.language@ == language
            &&& after@ == before@
            &&& after.controller() == before.controller()
        },
        Err(refused) => {
            &&& providers.len() == 0
            &&& exists|error: VoxError|
                {
                    &&& nobody_to_ask(error)
                    &&& #[trigger] fails_recognition(before, session, error, after, refused@)
                }
        },
    }
}

impl VoxTypeDaemon {
    /// A recognition failed: so does its session.
    pub fn fail_recognition(&mut self, session: &SessionId, error: VoxError) -> (r: DaemonError)
        ensures
            fails_recognition(*old(self), *session, error, *final(self), r@),
    {
        let message = error.to_text();
        let ghost command = Command::Fail { session: *session, error };
        let _effect = self.app.apply(Command::Fail { session: session.clone(), error });
        assert(AppController::applies(
            old(self).controller(),
            command,
            self.controller(),
            _effect,
        ));
        self.notice(Notice::RecognitionFailed(message.clone()));
        DaemonError::Failed(message)
    }

    /// Plans the recognition of a session by the profile of the dictation.
    pub fn plan_recognition(&mut self, session: &SessionId, now: u64) -> (r: Result<
        RecognitionPlan,
        DaemonError,
    >)
        ensures
            ({
                let name = current_profile(old(self)@);
                let profile = old(self)@.config.profiles.value_of(name);
                if !old(self)@.config.profiles.has(name) {
                    &&& r matches Err(error)
                    &&& error@ == DaemonErrorModel::Failed("active profile disappeared"@)
                    &&& final(self)@ == old(self)@
                    &&& final(self).controller() == old(self).controller()
                } else if !proper_names(profile) {
                    &&& r matches Err(error)
                    &&& error@ == improper_name()
                    &&& final(self)@ == old(self)@
                    &&& final(self).controller() == old(self).controller()
                } else {
                    exists|policy: RoutingPolicy|
                        {
                            &&& policy_for(policy, profile)
                            &&& #[trigger] plans(
                                *old(self),
                                *session,
                                policy,
                                profile.language@,
                                now,
                                *final(self),
                                r,
                            )
                        }
                }
            }),
    {
        let name = match &self.active_profile {
            Some(name) => name.as_str(),
            None => self.config.default_profile.as_str(),
        };
        let profile = match self.config.profiles.get(name) {
            Some(profile) => profile,
            None => {
                return Err(failed("active profile disappeared"));
            },
        };
        let policy = match routing_policy(profile) {
            Ok(policy) => policy,
            Err(error) => {
                return Err(map_error(&error));
            },
        };
        let language = profile.language.clone();
        let ghost spoken = profile.language@;
        let r = match self.app.plan_route(&policy, now) {
            Ok(route) => Ok(RecognitionPlan { route, language }),
            Err(error) => {
                assert(nobody_to_ask(error));
                Err(self.fail_recognition(session, error))
            },
        };
        assert(plans(*old(self), *session, policy, spoken, now, *self, r));
        r
    }

    /// The adapters of the providers, for the worker that recognizes.
    pub fn registry(&self) -> (r: ProviderRegistry)
        ensures
            r@ == self.controller()@.registry,
    {
        self.app.registry()
    }

    /// The handle by which a worker wakes the loop.
    pub fn wake_handle(&self) -> (r: WakeHandle)
        ensures
            r.enabled() == self.controller().wakes(),
    {
        self.app.wake_handle()
    }

    /// A worker recognizes: its job is kept until its result comes.
    pub fn recognition_started(&mut self, job: RecognitionJob) -> (answer: String)
        ensures
            answer@ == processing_text(job.session@),
            final(self)@ == (DaemonModel { job: Some(job@), ..old(self)@ }),
            final(self).controller() == old(self).controller(),
    {
        let answer = join3("session=", job.session.as_str(), " result=processing");
        self.recognition_job = Some(job);
        answer
    }
}

/// A session waits for the result of this job.
pub open spec fn awaited(state: crate::session::SessionState, job: JobModel) -> bool {
    state is Finalizing && state.owner()->0@ == job.session
}

pub open spec fn frame_or_zero(frame: Option<u32>) -> u32 {
    match frame {
        Some(frame) => frame,
        None => 0,
    }
}

fn frame_of(frame: Option<u32>) -> (r: u32)
    ensures
        r == frame_or_zero(frame),
{
    match frame {
        Some(frame) => frame,
        None => 0,
    }
}

/// What was heard, as it is told to a client.
pub open spec fn heard_text(result: Option<VadResult>) -> Seq<char> {
    match result {
        None => "disabled"@,
        Some(result) => "speech:"@ + decimal(result.voiced_frames as nat) + "/"@ + decimal(
            result.total_frames as nat,
        ) + ":rms="@ + decimal(result.average_rms as nat) + ":noise="@ + decimal(
            result.noise_floor as nat,
        ) + ":threshold="@ + decimal(result.adaptive_threshold as nat) + ":trim="@ + decimal(
            frame_or_zero(result.trim_start_frame) as nat,
        ) + "-"@ + decimal(frame_or_zero(result.trim_end_frame) as nat) + ":peak="@ + decimal(
            result.peak as nat,
        ),
    }
}

fn render_heard(result: &Option<VadResult>) -> (text: String)
    ensures
        text@ == heard_text(*result),
{
    match result {
        None => owned("disabled"),
        Some(result) => {
            let voiced = write_number(result.voiced_frames as u64);
            let total = write_number(result.total_frames as u64);
            let average = write_number(result.average_rms as u64);
            let noise = write_number(result.noise_floor as u64);
            let threshold = write_number(result.adaptive_threshold as u64);
            let first = write_number(frame_of(result.trim_start_frame) as u64);
            let last = write_number(frame_of(result.trim_end_frame) as u64);
            let peak = write_number(result.peak as u64);
            let mut text = join3("speech:", voiced.as_str(), "/");
            text.append(total.as_str());
            text.append(":rms=");
            text.append(average.as_str());
            text.append(":noise=");
            text.append(noise.as_str());
            text.append(":threshold=");
            text.append(threshold.as_str());
            text.append(":trim=");
            text.append(first.as_str());
            text.append("-");
            text.append(last.as_str());
            text.append(":peak=");
            text.append(peak.as_str());
            text
        },
    }
}

/// The answer to a dictation that was inserted.
pub open spec fn completion_text(
    session: Seq<char>,
    provider: Seq<char>,
    text: Seq<char>,
    insertion: InsertionOutcome,
    result: Option<VadResult>,
) -> Seq<char> {
    "session="@ + session + " provider="@ + provider + " chars="@ + decimal(text.len())
        + " backend="@ + insertion.backend@ + " clipboard_restored="@ + truth_text(
        insertion.clipboard_restored,
    ) + " vad="@ + heard_text(result)
}

fn render_completion(
    session: &str,
    provider: &str,
    text: &str,
    insertion: &InsertionOutcome,
    result: &Option<VadResult>,
) -> (answer: String)
    ensures
        answer@ == completion_text(session@, provider@, text@, *insertion, *result),
{
    let count = write_number(text.unicode_len() as u64);
    let heard = render_heard(result);
    let mut answer = join3("session=", session, " provider=");
    answer.append(provider);
    answer.append(" chars=");
    answer.append(count.as_str());
    answer.append(" backend=");
    answer.append(insertion.backend);
    answer.append(" clipboard_restored=");
    answer.append(write_truth(insertion.clipboard_restored));
    answer.append(" vad=");
    answer.append(heard.as_str());
    answer
}

/// What is kept and shown of a dictation that was inserted.
pub open spec fn kept_transcript(
    daemon: DaemonModel,
    text: Seq<char>,
    insertion: InsertionOutcome,
) -> DaemonModel {
    noticed(
        DaemonModel {
            history: if daemon.config.desktop.transcript_history_enabled {
                remembered(daemon.history, text)
            } else {
                daemon.history
            },
            ..daemon
        },
        if insertion.backend@ == "copy-only"@ {
            NoticeModel::Copied
        } else {
            NoticeModel::Dispatched
        },
    )
}

/// Why the text of a session cannot be inserted.
pub open spec fn target_fault(armed: Option<InsertionArm>, session: Seq<char>) -> Option<
    (Seq<char>, Seq<char>),
> {
    match armed {
        None => Some(
            ("desktop.not_armed"@, "no text insertion target was armed for the session"@),
        ),
        Some(arm) => if arm.session@ != session {
            Some(
                (
                    "desktop.session_mismatch"@,
                    "text insertion target belongs to another session"@,
                ),
            )
        } else {
            None
        },
    }
}

/// The job whose result has come is taken, and the result counted where a session waits for it.
pub open spec fn accepts_result(
    before: VoxTypeDaemon,
    received: RecognitionRouteResult,
    now: u64,
    after: VoxTypeDaemon,
    r: Option<(RecognitionJob, bool)>,
) -> bool {
    match before@.job {
        None => {
            &&& r is None
            &&& after@ == before@
            &&& after.controller() == before.controller()
        },
        Some(job) => {
            let current = awaited(before.controller().session_machine().current(), job);
            &&& r matches Some(taken)
            &&& taken.0@ == job
            &&& taken.1 == current
            &&& after@ == without_job(before@)
            &&& after.controller().session_machine() == before.controller().session_machine()
            &&& after.controller().wakes() == before.controller().wakes()
            &&& after.controller()@ == (if current {
                crate::controller::ControllerModel {
                    accounts: crate::controller::settled(
                        before.controller()@.accounts,
                        received,
                        job.audio_millis,
                        now,
                    ),
                    ..before.controller()@
                }
            } else {
                before.controller()@
            })
        },
    }
}

/// The session takes the text that was recognized, or refuses it.
pub open spec fn readies_text(
    before: VoxTypeDaemon,
    session: SessionId,
    text: String,
    after: VoxTypeDaemon,
    r: Result<(), DaemonError>,
) -> bool {
    &&& after@ == before@
    &&& commands_told(
        before.controller(),
        Command::TranscriptReady { session, text },
        after.controller(),
        r,
    )
}

/// The session is told that its text was inserted.
pub open spec fn completes_insertion(
    before: VoxTypeDaemon,
    session: SessionId,
    after: VoxTypeDaemon,
    r: Result<(), DaemonError>,
) -> bool {
    &&& after@ == before@
    &&& commands_told(
        before.controller(),
        Command::InsertionComplete { session },
        after.controller(),
        r,
    )
}

/// A dictation that was inserted is recorded, unless too much waits to be told.
pub open spec fn records_completion(
    before: VoxTypeDaemon,
    session: SessionId,
    provider_id: Seq<char>,
    text: Seq<char>,
    insertion: InsertionOutcome,
    vad_result: Option<VadResult>,
    after: VoxTypeDaemon,
    r: Result<String, DaemonError>,
) -> bool {
    &&& after.controller().session_machine() == before.controller().session_machine()
    &&& after.controller().wakes() == before.controller().wakes()
    &&& match r {
        Ok(answer) => {
            &&& before.controller()@.events.len() != crate::controller::MAX_PENDING_EVENTS
            &&& answer@ == completion_text(session@, provider_id, text, insertion, vad_result)
            &&& after@ == kept_transcript(before@, text, insertion)
            &&& after.controller()@ == crate::controller::finished(
                before.controller()@,
                crate::controller::ResultModel {
                    session: session@,
                    outcome: "completed"@,
                    error_code: Seq::empty(),
                    backend: insertion.backend@,
                    char_count: text.len() as u64,
                },
            )
        },
        Err(error) => {
            &&& before.controller()@.events.len() == crate::controller::MAX_PENDING_EVENTS
            &&& after@ == before@
            &&& after.controller()@ == before.controller()@
            &&& exists|fault: VoxError|
                {
                    &&& crate::controller::backpressure(fault)
                    &&& error@ == #[trigger] told(fault)
                }
        },
    }
}

/// The desktop has inserted the text.
pub open spec fn ends_insertion(
    before: VoxTypeDaemon,
    session: SessionId,
    provider_id: Seq<char>,
    text: Seq<char>,
    insertion: InsertionOutcome,
    vad_result: Option<VadResult>,
    after: VoxTypeDaemon,
    r: Result<String, DaemonError>,
) -> bool {
    exists|complete: VoxTypeDaemon, told_of: Result<(), DaemonError>|
        {
            &&& #[trigger] completes_insertion(before, session, complete, told_of)
            &&& match told_of {
                Ok(_) => records_completion(
                    complete,
                    session,
                    provider_id,
                    text,
                    insertion,
                    vad_result,
                    after,
                    r,
                ),
                Err(refused) => after == complete && r == Err::<String, DaemonError>(refused),
            }
        }
}

/// The session fails because its text could not be inserted.
pub open spec fn loses_text(
    before: VoxTypeDaemon,
    session: SessionId,
    error: VoxError,
    after: VoxTypeDaemon,
    r: Result<String, DaemonError>,
) -> bool {
    r matches Err(refused) && fails_session(before, session, error, after, refused)
}

/// The text of a session goes to the target that was armed for it, and nowhere else; what comes of
/// it is what the desktop may answer to this text at this target.
pub open spec fn inserts(
    before: VoxTypeDaemon,
    session: SessionId,
    provider_id: Seq<char>,
    text: Seq<char>,
    vad_result: Option<VadResult>,
    after: VoxTypeDaemon,
    r: Result<String, DaemonError>,
) -> bool {
    match target_fault(before@.armed, session@) {
        Some(fault) => exists|error: VoxError|
            {
                &&& error.says(ErrorCategory::InvalidState, fault.0, fault.1, false)
                &&& #[trigger] loses_text(before, session, error, after, r)
            },
        None => {
            ||| exists|insertion: InsertionOutcome|
                {
                    &&& before@.desktop.adapter.may_commit(
                        before@.armed->0,
                        text,
                        Ok(insertion),
                    )
                    &&& #[trigger] ends_insertion(
                        before,
                        session,
                        provider_id,
                        text,
                        insertion,
                        vad_result,
                        after,
                        r,
                    )
                }
            ||| exists|error: VoxError|
                {
                    &&& before@.desktop.adapter.may_commit(before@.armed->0, text, Err(error))
                    &&& #[trigger] loses_text(before, session, error, after, r)
                }
        },
    }
}

/// A recognized text is inserted and recorded, whatever the desktop answers.
pub open spec fn completes(
    before: VoxTypeDaemon,
    session: SessionId,
    provider_id: Seq<char>,
    text: String,
    vad_result: Option<VadResult>,
    after: VoxTypeDaemon,
    r: Result<String, DaemonError>,
) -> bool {
    exists|prepared: VoxTypeDaemon, ready: Result<(), DaemonError>|
        {
            &&& #[trigger] readies_text(before, session, text, prepared, ready)
            &&& match ready {
                Ok(_) => inserts(
                    prepared,
                    session,
                    provider_id,
                    text@,
                    vad_result,
                    after,
                    r,
                ),
                Err(refused) => after == prepared && r == Err::<String, DaemonError>(refused),
            }
        }
}

/// A recognition that a session waited for ends with a text or an error.
pub open spec fn ends_recognition(
    before: VoxTypeDaemon,
    job: RecognitionJob,
    outcome: Result<crate::route::RecognitionSuccess, VoxError>,
    after: VoxTypeDaemon,
    r: Result<String, DaemonError>,
) -> bool {
    match outcome {
        Ok(success) => completes(
            before,
            job.session,
            success.provider_id@,
            success.transcript.text,
            job.vad_result,
            after,
            r,
        ),
        Err(error) => r matches Err(refused) && fails_recognition(
            before,
            job.session,
            error,
            after,
            refused@,
        ),
    }
}

/// The result of a recognition is applied; one that no session waits for is dropped. In the end
/// the session has neither a target nor a profile.
pub open spec fn polls(
    before: VoxTypeDaemon,
    received: RecognitionRouteResult,
    now: u64,
    after: VoxTypeDaemon,
    r: Option<(RecognitionJob, Result<bool, DaemonError>)>,
) -> bool {
    exists|waiting: VoxTypeDaemon, taken: Option<(RecognitionJob, bool)>|
        {
            &&& #[trigger] accepts_result(before, received, now, waiting, taken)
            &&& match taken {
                None => r is None && after == waiting,
                Some((job, current)) => if current {
                    settles(waiting, job, received.outcome, after, r)
                } else {
                    r == Some((job, Ok::<bool, DaemonError>(true))) && after == waiting
                },
            }
        }
}

/// The job of a session is settled.
pub open spec fn settles(
    before: VoxTypeDaemon,
    job: RecognitionJob,
    outcome: Result<crate::route::RecognitionSuccess, VoxError>,
    after: VoxTypeDaemon,
    r: Option<(RecognitionJob, Result<bool, DaemonError>)>,
) -> bool {
    exists|done: VoxTypeDaemon, result: Result<String, DaemonError>|
        {
            &&& #[trigger] ends_recognition(before, job, outcome, done, result)
            &&& after@ == released(done@)
            &&& after.controller() == done.controller()
            &&& r == Some(
                (
                    job,
                    match result {
                        Ok(_) => Ok::<bool, DaemonError>(true),
                        Err(error) => Err(error),
                    },
                ),
            )
        }
}

impl VoxTypeDaemon {
    /// A recognition runs.
    pub fn is_recognizing(&self) -> (r: bool)
        ensures
            r == (self@.job is Some),
    {
        self.recognition_job.is_some()
    }

    /// Takes the job whose result has come, and counts the result. A result that no session
    /// waits for is not counted, and says so.
    pub fn accept_result(&mut self, received: &RecognitionRouteResult, now: u64) -> (r: Option<
        (RecognitionJob, bool),
    >)
        ensures
            accepts_result(*old(self), *received, now, *final(self), r),
    {
        match self.recognition_job.take() {
            None => None,
            Some(job) => {
                let current = match self.app.state() {
                    crate::session::SessionState::Finalizing { session } => session.same(
                        &job.session,
                    ),
                    _ => false,
                };
                if current {
                    self.app.record_route_result(received, job.audio_millis, now);
                }
                Some((job, current))
            },
        }
    }

    /// Takes the text that was recognized; the session is then to have it inserted.
    pub fn transcript_ready(&mut self, session: &SessionId, text: &String) -> (r: Result<
        (),
        DaemonError,
    >)
        ensures
            final(self)@ == old(self)@,
            commands_told(
                old(self).controller(),
                Command::TranscriptReady { session: *session, text: *text },
                final(self).controller(),
                r,
            ),
    {
        let ghost command = Command::TranscriptReady { session: *session, text: *text };
        let result = self.app.apply(
            Command::TranscriptReady { session: session.clone(), text: text.clone() },
        );
        assert(AppController::applies(
            old(self).controller(),
            command,
            self.controller(),
            result,
        ));
        match result {
            Ok(_) => Ok(()),
            Err(error) => Err(map_error(&error)),
        }
    }

    /// Whether the text of a session can be inserted.
    pub fn check_target(&self, session: &SessionId) -> (r: Result<&InsertionArm, VoxError>)
        ensures
            match target_fault(self@.armed, session@) {
                None => r matches Ok(arm) && self@.armed == Some(*arm),
                Some(fault) => r matches Err(error) && error.says(
                    ErrorCategory::InvalidState,
                    fault.0,
                    fault.1,
                    false,
                ),
            },
    {
        match &self.armed_insertion {
            None => Err(
                VoxError::new(
                    ErrorCategory::InvalidState,
                    "desktop.not_armed",
                    "no text insertion target was armed for the session",
                ),
            ),
            Some(armed) => {
                if !armed.session.same(session) {
                    return Err(
                        VoxError::new(
                            ErrorCategory::InvalidState,
                            "desktop.session_mismatch",
                            "text insertion target belongs to another session",
                        ),
                    );
                }
                Ok(armed)
            },
        }
    }

    /// Inserts the text of a session where its target was armed for it.
    fn insert_text(&self, session: &SessionId, text: &str) -> (r: Result<
        InsertionOutcome,
        VoxError,
    >)
        ensures
            match target_fault(self@.armed, session@) {
                None => self@.desktop.adapter.may_commit(self@.armed->0, text@, r),
                Some(fault) => r matches Err(error) && error.says(
                    ErrorCategory::InvalidState,
                    fault.0,
                    fault.1,
                    false,
                ),
            },
    {
        match self.check_target(session) {
            Ok(armed) => self.insertion_adapter.adapter.commit(armed, text),
            Err(error) => Err(error),
        }
    }

    /// The text of a session was inserted.
    pub fn insertion_complete(&mut self, session: &SessionId) -> (r: Result<(), DaemonError>)
        ensures
            final(self)@ == old(self)@,
            commands_told(
                old(self).controller(),
                Command::InsertionComplete { session: *session },
                final(self).controller(),
                r,
            ),
    {
        let ghost command = Command::InsertionComplete { session: *session };
        let result = self.app.apply(Command::InsertionComplete { session: session.clone() });
        assert(AppController::applies(
            old(self).controller(),
            command,
            self.controller(),
            result,
        ));
        match result {
            Ok(_) => Ok(()),
            Err(error) => Err(map_error(&error)),
        }
    }

    fn remember(&mut self, text: &str)
        ensures
            final(self)@ == (DaemonModel {
                history: remembered(old(self)@.history, text@),
                ..old(self)@
            }),
            final(self).controller() == old(self).controller(),
    {
        let ghost before = self@.history;
        if self.transcript_history.len() == HISTORY_LIMIT {
            let _oldest = self.transcript_history.remove(0);
            assert(self@.history =~= before.skip(1));
        }
        let ghost kept = self@.history;
        self.transcript_history.push(owned(text));
        assert(self@.history =~= kept.push(text@));
    }

    /// Records a dictation that was inserted: its end without its text, and its text where a
    /// history is wanted.
    pub fn record_completion(
        &mut self,
        session: &SessionId,
        provider_id: &str,
        text: &str,
        insertion: &InsertionOutcome,
        vad_result: &Option<VadResult>,
    ) -> (r: Result<String, DaemonError>)
        ensures
            records_completion(
                *old(self),
                *session,
                provider_id@,
                text@,
                *insertion,
                *vad_result,
                *final(self),
                r,
            ),
    {
        proof {
            reveal_strlit("");
            assert(""@ =~= Seq::<char>::empty());
        }
        let count: u64 = text.unicode_len() as u64;
        match self.app.finish_session(session, "completed", "", insertion.backend, count) {
            Ok(_) => {},
            Err(error) => {
                return Err(map_error(&error));
            },
        }
        if self.config.desktop.transcript_history_enabled {
            self.remember(text);
        }
        if same_text(insertion.backend, "copy-only") {
            self.notice(Notice::Copied);
        } else {
            self.notice(Notice::Dispatched);
        }
        Ok(render_completion(session.as_str(), provider_id, text, insertion, vad_result))
    }

    /// Has the text of a session inserted and records it. Whether that succeeds is up to the
    /// desktop.
    pub fn complete_recognition(
        &mut self,
        session: &SessionId,
        provider_id: &str,
        text: String,
        vad_result: &Option<VadResult>,
    ) -> (r: Result<String, DaemonError>)
        ensures
            completes(
                *old(self),
                *session,
                provider_id@,
                text,
                *vad_result,
                *final(self),
                r,
            ),
            r is Ok ==> {
                &&& target_fault(old(self)@.armed, session@) is None
                &&& awaits_text(old(self).controller(), *session, text@)
                &&& final(self).controller().session_machine().current() is Completed
            },
    {
        let ready = self.transcript_ready(session, &text);
        let ghost prepared = *self;
        assert(readies_text(*old(self), *session, text, prepared, ready));
        match ready {
            Ok(_) => {},
            Err(error) => {
                return Err(error);
            },
        }
        let insertion = match self.insert_text(session, text.as_str()) {
            Ok(insertion) => insertion,
            Err(error) => {
                let refused = self.stop_failed(session, error);
                assert(loses_text(prepared, *session, error, *self, Err(refused)));
                return Err(refused);
            },
        };
        let complete = self.insertion_complete(session);
        let ghost inserted = *self;
        assert(completes_insertion(prepared, *session, inserted, complete));
        match complete {
            Ok(_) => {},
            Err(error) => {
                assert(ends_insertion(
                    prepared,
                    *session,
                    provider_id@,
                    text@,
                    insertion,
                    *vad_result,
                    *self,
                    Err(error),
                ));
                return Err(error);
            },
        }
        let r = self.record_completion(
            session,
            provider_id,
            text.as_str(),
            &insertion,
            vad_result,
        );
        assert(ends_insertion(
            prepared,
            *session,
            provider_id@,
            text@,
            insertion,
            *vad_result,
            *self,
            r,
        ));
        r
    }

    /// Applies the result of a recognition: a result that no session waits for is dropped.
    ///
    /// The job is handed out, so that its recording can be removed.
    pub fn poll_recognition(&mut self, received: RecognitionRouteResult, now: u64) -> (r: Option<
        (RecognitionJob, Result<bool, DaemonError>),
    >)
        ensures
            polls(*old(self), received, now, *final(self), r),
            r is Some <==> old(self)@.job is Some,
            r matches Some(taken) ==> taken.0@ == old(self)@.job->0,
    {
        let accepted = self.accept_result(&received, now);
        let ghost waiting = *self;
        let ghost taken = accepted;
        assert(accepts_result(*old(self), received, now, waiting, taken));
        let (job, current) = match accepted {
            Some(taken) => taken,
            None => {
                return None;
            },
        };
        if !current {
            return Some((job, Ok(true)));
        }
        let ghost outcome = received.outcome;
        let result = match received.outcome {
            Ok(success) => self.complete_recognition(
                &job.session,
                success.provider_id.as_str(),
                success.transcript.text,
                &job.vad_result,
            ),
            Err(error) => Err(self.fail_recognition(&job.session, error)),
        };
        let ghost done = *self;
        assert(ends_recognition(waiting, job, outcome, done, result));
        if result.is_err() {
            self.cancel_insertion();
        }
        self.active_profile = None;
        self.armed_insertion = None;
        assert(self@ == released(done@));
        match result {
            Ok(_) => Some((job, Ok(true))),
            Err(error) => Some((job, Err(error))),
        }
    }

    /// Whether recordings are removed once they are no longer needed.
    pub fn removes_recordings(&self) -> (r: bool)
        ensures
            r == !self@.config.desktop.retain_recordings,
    {
        !self.config.desktop.retain_recordings
    }
}

/// The session waits for a text, and this one is not blank.
pub open spec fn awaits_text(app: AppController, session: SessionId, text: Seq<char>) -> bool {
    let state = app.session_machine().current();
    &&& state is Finalizing
    &&& state.owner()->0@ == session@
    &&& !crate::text::blank(text)
}

/// The levels of frames.
pub open spec fn frame_levels(frames: Seq<CaptureFrameMetrics>) -> Seq<u16> {
    Seq::new(frames.len(), |i: int| frames[i].rms)
}

/// How many samples of frames were clipped.
pub open spec fn clipped_of(frames: Seq<CaptureFrameMetrics>) -> nat
    decreases frames.len(),
{
    if frames.len() == 0 {
        0
    } else {
        clipped_of(frames.drop_last()) + frames.last().clipped_samples as nat
    }
}

/// How many samples frames hold.
pub open spec fn samples_of(frames: Seq<CaptureFrameMetrics>) -> nat
    decreases frames.len(),
{
    if frames.len() == 0 {
        0
    } else {
        samples_of(frames.drop_last()) + frames.last().samples as nat
    }
}

pub open spec fn at_most_u32(n: nat) -> u32 {
    if n > u32::MAX {
        u32::MAX
    } else {
        n as u32
    }
}

fn saturating_sum(a: u32, b: u16) -> (r: u32)
    ensures
        r == at_most_u32((a + b) as nat),
{
    let sum: u64 = a as u64 + b as u64;
    if sum > u32::MAX as u64 {
        u32::MAX
    } else {
        sum as u32
    }
}

/// The share of clipped samples in whole percent.
pub open spec fn clip_percent(clipped: u32, samples: u32) -> u32 {
    if samples == 0 {
        0
    } else {
        at_most_u32((clipped * 100) as nat) / samples
    }
}

fn percent_clipped(clipped: u32, samples: u32) -> (r: u32)
    ensures
        r == clip_percent(clipped, samples),
{
    if samples == 0 {
        return 0;
    }
    let scaled: u64 = clipped as u64 * 100;
    let bounded: u32 = if scaled > u32::MAX as u64 {
        u32::MAX
    } else {
        scaled as u32
    };
    bounded / samples
}

/// What a live detection says of the last of some frames.
pub open spec fn latest_analysis(
    state: VadState,
    frames: Seq<CaptureFrameMetrics>,
) -> VadFrameAnalysis {
    let levels = frame_levels(frames);
    crate::vad::analysis_of(crate::vad::run(state, levels.drop_last()), levels.last())
}

/// The level of the microphone is to be shown.
pub open spec fn shows_level(daemon: DaemonModel, now: u64) -> bool {
    match daemon.last_overlay_at {
        Some(last) => passed(last, now) >= OVERLAY_PAUSE_NANOS,
        None => true,
    }
}

/// The daemon after it has listened to frames.
pub open spec fn listened(
    daemon: DaemonModel,
    frames: Seq<CaptureFrameMetrics>,
    now: u64,
) -> DaemonModel {
    if frames.len() == 0 || daemon.live_vad is None {
        daemon
    } else {
        DaemonModel {
            live_vad: Some(crate::vad::run(daemon.live_vad->0, frame_levels(frames))),
            last_live_audio: Some(latest_analysis(daemon.live_vad->0, frames)),
            last_overlay_at: if shows_level(daemon, now) {
                Some(now)
            } else {
                daemon.last_overlay_at
            },
            ..daemon
        }
    }
}

/// What is shown of frames.
pub open spec fn level_shown(
    daemon: DaemonModel,
    frames: Seq<CaptureFrameMetrics>,
    now: u64,
) -> Option<(VadFrameAnalysis, u32)> {
    if frames.len() == 0 || daemon.live_vad is None || !shows_level(daemon, now) {
        None
    } else {
        Some(
            (
                latest_analysis(daemon.live_vad->0, frames),
                clip_percent(at_most_u32(clipped_of(frames)), at_most_u32(samples_of(frames))),
            ),
        )
    }
}

/// The daemon has listened to frames that what records had ready; without it there are none.
pub open spec fn hears_recorder(
    before: DaemonModel,
    frames: Seq<CaptureFrameMetrics>,
    now: u64,
    after: DaemonModel,
    r: Option<(VadFrameAnalysis, u32)>,
) -> bool {
    &&& match before.recorder {
        Some(recorder) => after.recorder is Some && recorder.may_drain(frames),
        None => after.recorder is None && frames.len() == 0,
    }
    &&& after == listened((DaemonModel { recorder: after.recorder, ..before }), frames, now)
    &&& r == level_shown(before, frames, now)
}

/// What a review of text comes to: the report, and the overlay that tells of it.
#[derive(Debug)]
pub struct Review {
    pub report: GrammarReport,
    pub overlay: OverlayText,
}

/// A review that could not be made, with the overlay that tells of it.
#[derive(Debug)]
pub struct ReviewFailure {
    pub error: DaemonError,
    pub overlay: OverlayText,
}

/// A recording that has lasted as long as it may is stopped behind a notice.
pub open spec fn stops_overdue(
    before: VoxTypeDaemon,
    after: VoxTypeDaemon,
    r: Result<Option<Stopped>, DaemonError>,
) -> bool {
    exists|warned: VoxTypeDaemon, stopped: Result<Stopped, DaemonError>|
        {
            &&& warned@ == noticed(before@, NoticeModel::MaximumDuration)
            &&& warned.controller() == before.controller()
            &&& #[trigger] stops(warned, ""@, after, stopped)
            &&& r == (match stopped {
                Ok(stopped) => Ok::<Option<Stopped>, DaemonError>(Some(stopped)),
                Err(error) => Err(error),
            })
        }
}

impl VoxTypeDaemon {
    /// Listens to frames, and says what is to be shown of them.
    ///
    /// Only levels, clipping counts and voice detection leave the daemon this way.
    pub fn hear_levels(&mut self, frames: &Vec<CaptureFrameMetrics>, now: u64) -> (r: Option<
        (VadFrameAnalysis, u32),
    >)
        ensures
            final(self)@ == listened(old(self)@, frames@, now),
            final(self).controller() == old(self).controller(),
            r == level_shown(old(self)@, frames@, now),
    {
        if frames.len() == 0 {
            return None;
        }
        let mut vad = match self.live_vad.take() {
            Some(vad) => vad,
            None => {
                return None;
            },
        };
        let ghost initial = vad@;
        let ghost all = frames@;
        let ghost levels = frame_levels(all);
        let mut latest: Option<VadFrameAnalysis> = None;
        let mut clipped: u32 = 0;
        let mut samples: u32 = 0;
        proof {
            assert(levels.take(0) =~= Seq::<u16>::empty());
            assert(all.take(0) =~= Seq::<CaptureFrameMetrics>::empty());
        }
        for i in 0..frames.len()
            invariant
                all == frames@,
                levels == frame_levels(all),
                vad@ == crate::vad::run(initial, levels.take(i as int)),
                clipped == at_most_u32(clipped_of(all.take(i as int))),
                samples == at_most_u32(samples_of(all.take(i as int))),
                i == 0 ==> latest is None,
                i > 0 ==> latest == Some(
                    crate::vad::analysis_of(
                        crate::vad::run(initial, levels.take(i - 1)),
                        levels[i - 1],
                    ),
                ),
        {
            proof {
                assert(levels.take(i + 1).drop_last() =~= levels.take(i as int));
                assert(all.take(i + 1).drop_last() =~= all.take(i as int));
                assert(all.take(i + 1).last() == all[i as int]);
            }
            let frame = frames[i];
            latest = Some(vad.process_level(frame.rms));
            clipped = saturating_sum(clipped, frame.clipped_samples);
            samples = saturating_sum(samples, frame.samples);
        }
        proof {
            assert(all.take(all.len() as int) =~= all);
            assert(levels.take(levels.len() as int) =~= levels);
            assert(levels.take(levels.len() - 1) =~= levels.drop_last());
        }
        self.live_vad = Some(vad);
        let analysis = match latest {
            Some(analysis) => analysis,
            None => {
                return None;
            },
        };
        self.last_live_audio = Some(analysis);
        match self.last_audio_overlay_at {
            Some(last) => {
                if elapsed_since(last, now) < OVERLAY_PAUSE_NANOS {
                    return None;
                }
            },
            None => {},
        }
        self.last_audio_overlay_at = Some(now);
        Some((analysis, percent_clipped(clipped, samples)))
    }

    /// Listens to the frames that the recording has ready, and says what is to be shown of them.
    pub fn poll_audio_telemetry(&mut self, now: u64) -> (r: Option<(VadFrameAnalysis, u32)>)
        ensures
            exists|frames: Seq<CaptureFrameMetrics>| #[trigger]
                hears_recorder(old(self)@, frames, now, final(self)@, r),
            final(self).controller() == old(self).controller(),
    {
        let mut frames: Vec<CaptureFrameMetrics> = Vec::new();
        match self.recording.take() {
            Some(mut recording) => {
                frames = recording.drain_metrics();
                self.recording = Some(recording);
            },
            None => {},
        }
        let ghost drained = self@;
        let r = self.hear_levels(&frames, now);
        assert(drained == (DaemonModel { recorder: drained.recorder, ..old(self)@ }));
        assert(hears_recorder(old(self)@, frames@, now, self@, r));
        r
    }

    /// The level that was heard last while recording.
    pub fn last_live_audio(&self) -> (r: Option<VadFrameAnalysis>)
        ensures
            r == self@.last_live_audio,
    {
        self.last_live_audio
    }

    /// The recording has lasted as long as it may.
    pub open spec fn overdue(daemon: DaemonModel, now: u64) -> bool {
        &&& daemon.started_at matches Some(started_at)
        &&& too_long(passed(started_at, now), daemon.config.audio.maximum_duration_seconds)
    }

    /// Stops a recording that has lasted as long as it may; nothing where there is none.
    pub fn enforce_recording_deadline(&mut self, now: u64) -> (r: Result<
        Option<Stopped>,
        DaemonError,
    >)
        ensures
            if Self::overdue(old(self)@, now) {
                stops_overdue(*old(self), *final(self), r)
            } else {
                &&& r matches Ok(None)
                &&& final(self)@ == old(self)@
                &&& final(self).controller() == old(self).controller()
            },
    {
        let started_at: u64 = match self.recording_started_at {
            Some(started_at) => started_at,
            None => {
                return Ok(None);
            },
        };
        if !recording_deadline_reached(
            elapsed_since(started_at, now),
            self.config.audio.maximum_duration_seconds,
        ) {
            return Ok(None);
        }
        self.notice(Notice::MaximumDuration);
        proof {
            reveal_strlit("");
        }
        match self.stop("") {
            Ok(stopped) => Ok(Some(stopped)),
            Err(error) => Err(error),
        }
    }

    /// Reviews the newest transcript.
    pub fn check_last_grammar(&self) -> (r: Result<Review, DaemonError>)
        ensures
            match r {
                Ok(review) => {
                    &&& self@.history.len() > 0
                    &&& crate::grammar::report_on(self@.history.last(), review.report)
                    &&& review.overlay@ == crate::presentation::overlay_of(
                        "grammar"@,
                        "Local text cleanup"@,
                        crate::presentation::cleanup_body(review.report, None),
                        5_000,
                    )
                },
                Err(error) => {
                    &&& self@.history.len() == 0
                    &&& error@ == DaemonErrorModel::Failed(
                        "no previous transcript is available"@,
                    )
                },
            },
    {
        let n: usize = self.transcript_history.len();
        if n == 0 {
            return Err(failed("no previous transcript is available"));
        }
        assert(self@.history.last() == self.transcript_history@[n - 1]@);
        let report = crate::grammar::check(self.transcript_history[n - 1].as_str());
        let body = crate::presentation::cleanup_overlay_body(&report, None);
        Ok(
            Review {
                report,
                overlay: OverlayText {
                    state: "grammar",
                    title: "Local text cleanup",
                    body,
                    timeout_millis: 5_000,
                },
            },
        )
    }
}

/// Reviews the text round the cursor of the focused program; `context` is what the program
/// answered.
pub fn check_context_grammar(context: Result<&FcitxContext, &VoxError>) -> (r: Result<
    Review,
    ReviewFailure,
>)
    ensures
        match context {
            Err(error) => {
                &&& r matches Err(failure)
                &&& failure.error@ == told(*error)
                &&& failure.overlay@ == crate::presentation::overlay_of(
                    "error"@,
                    "Focused text unavailable"@,
                    error.message_text(),
                    3_000,
                )
            },
            Ok(context) => {
                let text = FcitxContext::reviewed(context@);
                if crate::text::blank(text) {
                    &&& r matches Err(failure)
                    &&& failure.error@ == DaemonErrorModel::Failed(
                        "the focused input context has no reviewable text"@,
                    )
                    &&& failure.overlay@ == crate::presentation::overlay_of(
                        "grammar"@,
                        "No focused text to review"@,
                        "Select text or place the cursor after a paragraph"@,
                        3_000,
                    )
                } else {
                    &&& r matches Ok(review)
                    &&& crate::grammar::report_on(text, review.report)
                    &&& review.overlay@ == crate::presentation::overlay_of(
                        "grammar"@,
                        "Focused text cleanup"@,
                        crate::presentation::cleanup_body(
                            review.report,
                            Some(context@.target.program),
                        ),
                        5_000,
                    )
                }
            },
        },
{
    match context {
        Err(error) => Err(
            ReviewFailure {
                error: map_error(error),
                overlay: OverlayText {
                    state: "error",
                    title: "Focused text unavailable",
                    body: owned(error.message()),
                    timeout_millis: 3_000,
                },
            },
        ),
        Ok(context) => {
            let text = context.review_text();
            if crate::text::is_blank(text.as_str()) {
                return Err(
                    ReviewFailure {
                        error: failed("the focused input context has no reviewable text"),
                        overlay: OverlayText {
                            state: "grammar",
                            title: "No focused text to review",
                            body: owned("Select text or place the cursor after a paragraph"),
                            timeout_millis: 3_000,
                        },
                    },
                );
            }
            let report = crate::grammar::check(text.as_str());
            let body = crate::presentation::cleanup_overlay_body(
                &report,
                Some(context.target.program.as_str()),
            );
            Ok(
                Review {
                    report,
                    overlay: OverlayText {
                        state: "grammar",
                        title: "Focused text cleanup",
                        body,
                        timeout_millis: 5_000,
                    },
                },
            )
        },
    }
}

/// The history never holds more than its limit.
pub proof fn law_history_stays_bounded(history: Seq<Seq<char>>, text: Seq<char>)
    requires
        history.len() <= HISTORY_LIMIT,
    ensures
        remembered(history, text).len() <= HISTORY_LIMIT,
        remembered(history, text).last() == text,
{
}

/// The result of a session that was cancelled is not awaited any more: a late result is dropped.
pub proof fn law_cancelled_session_awaits_nothing(
    before: AppController,
    session: SessionId,
    after: AppController,
    result: Result<CommandEffect, VoxError>,
    job: JobModel,
)
    requires
        AppController::applies(before, Command::Cancel { session }, after, result),
        result is Ok,
    ensures
        !awaited(after.session_machine().current(), job),
{
}

/// Text is inserted only for the session whose target was armed.
pub proof fn law_insertion_needs_its_own_target(arm: InsertionArm, session: Seq<char>)
    ensures
        target_fault(Some(arm), session) is None ==> arm.session@ == session,
        target_fault(None, session) is Some,
{
}

/// A recording that runs keeps the loop awake at least every tenth of a second.
pub proof fn law_recording_keeps_the_loop_awake(daemon: DaemonModel, now: u64)
    requires
        daemon.started_at is Some,
    ensures
        0 <= wait_of(daemon, now) <= OVERLAY_PAUSE_NANOS,
{
}

/// With less than the longest recording behind it, the loop wakes before the recording is too
/// long; once it is too long, the loop does not wait.
pub proof fn law_loop_wakes_for_the_deadline(daemon: DaemonModel, now: u64)
    requires
        daemon.started_at is Some,
        !daemon.quit,
    ensures
        wait_of(daemon, now) == 0 <==> VoxTypeDaemon::overdue(daemon, now),
{
    let elapsed = passed(daemon.started_at->0, now);
    let maximum = daemon.config.audio.maximum_duration_seconds;
    assert(elapsed / NANOS_PER_SECOND >= maximum <==> elapsed >= maximum * NANOS_PER_SECOND);
}

/// The history holds the newest twenty transcripts in the order in which they came, and only where it
/// is switched on.
pub proof fn law_history_keeps_the_newest(
    daemon: DaemonModel,
    text: Seq<char>,
    insertion: InsertionOutcome,
)
    requires
        daemon.history.len() <= 20,
    ensures
        ({
            let after = kept_transcript(daemon, text, insertion);
            let all = daemon.history.push(text);
            &&& daemon.config.desktop.transcript_history_enabled ==> after.history == (
            if all.len() > 20 {
                all.skip(all.len() - 20)
            } else {
                all
            })
            &&& !daemon.config.desktop.transcript_history_enabled ==> after.history
                == daemon.history
            &&& after.notices == daemon.notices.push(
                if insertion.backend@ == "copy-only"@ {
                    NoticeModel::Copied
                } else {
                    NoticeModel::Dispatched
                },
            )
            &&& after.armed == daemon.armed
            &&& after.config == daemon.config
        }),
{
    let all = daemon.history.push(text);
    if daemon.history.len() == 20 {
        assert(daemon.history.skip(1).push(text) =~= all.skip(1));
    }
}

/// A recording is stopped exactly from the moment on at which it has lasted as many seconds as it may.
pub proof fn law_recording_lasts_no_longer(daemon: DaemonModel, started_at: u64, now: u64)
    requires
        daemon.started_at == Some(started_at),
    ensures
        VoxTypeDaemon::overdue(daemon, now) <==> daemon.config.audio.maximum_duration_seconds == 0
            || now >= started_at + daemon.config.audio.maximum_duration_seconds * 1_000_000_000,
{
    let maximum = daemon.config.audio.maximum_duration_seconds;
    let elapsed = passed(started_at, now);
    assert(elapsed / NANOS_PER_SECOND >= maximum <==> elapsed >= maximum * NANOS_PER_SECOND);
}

/// The loop sleeps a minute with nothing to do, a tenth of a second while a recording runs, and never
/// past the moment at which the recording has to end; a daemon that quits does not sleep.
pub proof fn law_loop_sleeps_no_longer(daemon: DaemonModel, now: u64)
    ensures
        daemon.quit ==> wait_of(daemon, now) == 0,
        !daemon.quit && daemon.started_at is None ==> wait_of(daemon, now) == 60_000_000_000,
        !daemon.quit && daemon.started_at is Some ==> wait_of(daemon, now) <= 100_000_000,
        !daemon.quit && daemon.started_at is Some && daemon.started_at->0 <= now && now
            + 100_000_000 <= daemon.started_at->0 + daemon.config.audio.maximum_duration_seconds
            * 1_000_000_000 ==> wait_of(daemon, now) == 100_000_000,
        !daemon.quit && daemon.started_at is Some && daemon.started_at->0 <= now && now
            < daemon.started_at->0 + daemon.config.audio.maximum_duration_seconds * 1_000_000_000
            ==> 0 < wait_of(daemon, now) && now + wait_of(daemon, now) <= daemon.started_at->0
            + daemon.config.audio.maximum_duration_seconds * 1_000_000_000,
{
}

/// A dictation begins, as far as the daemon decides, exactly where nothing records, the profile is
/// there, and a profile that was not named holds a provider that recognizes something.
pub proof fn law_dictation_begins(
    daemon: DaemonModel,
    profile: Seq<char>,
    name: Seq<char>,
    providers: Seq<Seq<char>>,
)
    requires
        profile.len() > 0 ==> name == profile,
        profile.len() == 0 ==> name == daemon.config.default_profile@,
        providers == seq![daemon.config.profiles.value_of(name).primary@] + crate::text::texts(
            daemon.config.profiles.value_of(name).fallbacks@,
        ),
    ensures
        start_refusal(daemon, profile) is None <==> {
            &&& daemon.recorder is None
            &&& daemon.config.profiles.has(name)
            &&& profile.len() > 0 || exists|i: int|
                0 <= i < providers.len() && !(daemon.config.providers.has(#[trigger] providers[i])
                    && daemon.config.providers.value_of(providers[i]) is Mock)
        },
        daemon.recorder is Some ==> start_refusal(daemon, profile) == Some(
            DaemonErrorModel::Failed("recording is already active"@),
        ),
        daemon.recorder is None && !daemon.config.profiles.has(name) ==> start_refusal(
            daemon,
            profile,
        ) == Some(DaemonErrorModel::InvalidArgs("unknown profile: "@ + profile)),
{
    assert(wanted_profile(daemon.config, profile) == name);
    let held = daemon.config.profiles.value_of(name);
    assert(crate::config::profile_providers(held) == providers);
    if demo_only(daemon.config, held) {
        assert forall|i: int| 0 <= i < providers.len() implies daemon.config.providers.has(
            #[trigger] providers[i],
        ) && daemon.config.providers.value_of(providers[i]) is Mock by {}
    }
}

/// A client that names no session means the one that there is; one that names a session means that
/// one and no other.
pub proof fn law_client_means_its_session(owner: Option<SessionId>, requested: Seq<char>)
    ensures
        owner is None ==> meant_session(owner, requested) == Err::<SessionId, DaemonErrorModel>(
            DaemonErrorModel::Failed("no active session"@),
        ),
        owner is Some && requested.len() == 0 ==> meant_session(owner, requested) == Ok::<
            SessionId,
            DaemonErrorModel,
        >(owner->0),
        owner is Some && requested == owner->0@ ==> meant_session(owner, requested) == Ok::<
            SessionId,
            DaemonErrorModel,
        >(owner->0),
        owner is Some && requested.len() > 0 && requested != owner->0@ ==> meant_session(
            owner,
            requested,
        ) == Err::<SessionId, DaemonErrorModel>(
            DaemonErrorModel::InvalidArgs("session ID does not match"@),
        ),
{
}

/// A dictation that was started listens: its session is named, its target is armed in the configured
/// way, the microphone is open since now, and the voice detection runs where it is switched on.
pub proof fn law_started_dictation_listens(
    before: VoxTypeDaemon,
    profile: Seq<char>,
    now: u64,
    after: VoxTypeDaemon,
    name: String,
)
    requires
        starts(before, profile, now, after, Ok(name)),
    ensures
        after.controller().session_machine().current() is Listening,
        after.controller().session_machine().current().owner()->0@ == name@,
        before@.recorder is None,
        after@.recorder is Some,
        after@.started_at == Some(now),
        after@.active_profile == Some(
            if profile.len() > 0 {
                profile
            } else {
                before@.config.default_profile@
            },
        ),
        after@.armed is Some,
        after@.live_vad is Some <==> before@.config.audio.vad_enabled,
        after@.last_live_audio is None,
        after@.notices == before@.notices.push(NoticeModel::Listening),
        after@.history == before@.history,
        after@.config == before@.config,
        after@.job == before@.job,
        exists|mode: InsertionMode, session: SessionId|
            {
                &&& session@ == name@
                &&& mode == mode_for(before@.config.desktop.insertion_backend)
                &&& #[trigger] before@.desktop.adapter.may_arm(mode, session, Ok(after@.armed->0))
            },
{
    let r: Result<String, DaemonError> = Ok(name);
    let (prepared, begun): (VoxTypeDaemon, Result<StartPlan, DaemonError>) = choose|
        prepared: VoxTypeDaemon,
        begun: Result<StartPlan, DaemonError>,
    |
        {
            &&& #[trigger] begins_start(before, profile, prepared, begun)
            &&& match begun {
                Ok(plan) => starts_session(prepared, plan, now, after, r),
                Err(refused) => after == prepared && r == Err::<String, DaemonError>(refused),
            }
        };
    let plan = begun->Ok_0;
    assert(starts_session(prepared, plan, now, after, r));
    let (armed, targeted, taken): (
        Result<InsertionArm, VoxError>,
        VoxTypeDaemon,
        Result<(), DaemonError>,
    ) = choose|
        armed: Result<InsertionArm, VoxError>,
        targeted: VoxTypeDaemon,
        taken: Result<(), DaemonError>,
    |
        {
            &&& prepared@.desktop.adapter.may_arm(plan.mode, plan.session, armed)
            &&& #[trigger] takes_target(prepared, plan.session, armed, targeted, taken)
            &&& match taken {
                Ok(_) => starts_capture(targeted, plan, now, after, r),
                Err(refused) => after == targeted && r == Err::<String, DaemonError>(refused),
            }
        };
    assert(starts_capture(targeted, plan, now, after, r));
    let device = Some(targeted@.config.audio.device@);
    let opened = choose|opened: Result<Box<dyn CaptureSession>, VoxError>|
        {
            &&& targeted@.capture.adapter.may_open(device, opened)
            &&& #[trigger] takes_microphone(targeted, plan, opened, now, after, r)
        };
    assert(opens_microphone(targeted, plan, opened_recorder(opened), now, after, r));
    assert(armed is Ok);
    assert(before@.desktop.adapter.may_arm(plan.mode, plan.session, Ok(after@.armed->0)));
}

/// A recording that was stopped is over: the session waits for its text, nothing records any more, and
/// the audio is handed out for the session that listened.
pub proof fn law_stopped_recording_is_over(
    before: VoxTypeDaemon,
    requested: Seq<char>,
    after: VoxTypeDaemon,
    stopped: Stopped,
)
    requires
        stops(before, requested, after, Ok(stopped)),
    ensures
        before.controller().session_machine().current() is Listening,
        before.controller().session_machine().current().owner() == Some(stopped.session),
        requested.len() == 0 || requested == stopped.session@,
        after.controller().session_machine().current() == (
        crate::session::SessionState::Finalizing { session: stopped.session }),
        before@.recorder is Some,
        before@.recorder->0.may_finish(Ok(stopped.audio)),
        after@.recorder is None,
        after@.started_at is None,
        after@.live_vad is None,
        after@.last_live_audio is None,
        after@.armed == before@.armed,
        after@.active_profile == before@.active_profile,
        after@.notices == before@.notices.push(NoticeModel::Processing),
{
    let r: Result<Stopped, DaemonError> = Ok(stopped);
    let (quiet, begun): (VoxTypeDaemon, Result<SessionId, DaemonError>) = choose|
        quiet: VoxTypeDaemon,
        begun: Result<SessionId, DaemonError>,
    |
        {
            &&& #[trigger] begins_stop(before, requested, quiet, begun)
            &&& match begun {
                Err(refused) => after == quiet && r == Err::<Stopped, DaemonError>(refused),
                Ok(session) => ends_stop(quiet, session, before@.recorder, after, r),
            }
        };
    assert(begun is Ok);
}

/// A result that no session waits for is dropped: nothing is inserted, nothing is counted, and the
/// state of the session stays as it is.
pub proof fn law_late_result_is_dropped(
    before: VoxTypeDaemon,
    received: RecognitionRouteResult,
    now: u64,
    after: VoxTypeDaemon,
    r: Option<(RecognitionJob, Result<bool, DaemonError>)>,
)
    requires
        polls(before, received, now, after, r),
        before@.job is Some,
        !(before.controller().session_machine().current() is Finalizing)
            || before.controller().session_machine().current().owner()->0@ != before@.job->0.session,
    ensures
        after@ == (DaemonModel { job: None, ..before@ }),
        after.controller()@ == before.controller()@,
        after.controller().session_machine() == before.controller().session_machine(),
        r is Some && (r->0).1 == Ok::<bool, DaemonError>(true),
{
}

/// A result that a session waited for settles it: the job is gone, the target and the profile are let
/// go, and the attempts are accounted for; without a job nothing happens.
pub proof fn law_awaited_result_settles(
    before: VoxTypeDaemon,
    received: RecognitionRouteResult,
    now: u64,
    after: VoxTypeDaemon,
    r: Option<(RecognitionJob, Result<bool, DaemonError>)>,
)
    requires
        polls(before, received, now, after, r),
    ensures
        before@.job is None ==> r is None && after@ == before@ && after.controller()
            == before.controller(),
        before@.job is Some && before.controller().session_machine().current() is Finalizing
            && before.controller().session_machine().current().owner()->0@
            == before@.job->0.session ==> {
            &&& r is Some
            &&& after@.job is None
            &&& after@.armed is None
            &&& after@.active_profile is None
            &&& received.outcome is Err ==> (r->0).1 is Err
        },
{
    let (waiting, taken): (VoxTypeDaemon, Option<(RecognitionJob, bool)>) = choose|
        waiting: VoxTypeDaemon,
        taken: Option<(RecognitionJob, bool)>,
    |
        {
            &&& #[trigger] accepts_result(before, received, now, waiting, taken)
            &&& match taken {
                None => r is None && after == waiting,
                Some((job, current)) => if current {
                    settles(waiting, job, received.outcome, after, r)
                } else {
                    r == Some((job, Ok::<bool, DaemonError>(true))) && after == waiting
                },
            }
        };
    if taken is Some && (taken->0).1 {
        let job = (taken->0).0;
        assert(settles(waiting, job, received.outcome, after, r));
        let (done, result): (VoxTypeDaemon, Result<String, DaemonError>) = choose|
            done: VoxTypeDaemon,
            result: Result<String, DaemonError>,
        |
            {
                &&& #[trigger] ends_recognition(waiting, job, received.outcome, done, result)
                &&& after@ == released(done@)
                &&& after.controller() == done.controller()
                &&& r == Some(
                    (
                        job,
                        match result {
                            Ok(_) => Ok::<bool, DaemonError>(true),
                            Err(error) => Err(error),
                        },
                    ),
                )
            };
        lemma_recognition_starts_no_job(waiting, job, received.outcome, done, result);
    }
}

proof fn lemma_recognition_starts_no_job(
    before: VoxTypeDaemon,
    job: RecognitionJob,
    outcome: Result<crate::route::RecognitionSuccess, VoxError>,
    after: VoxTypeDaemon,
    r: Result<String, DaemonError>,
)
    requires
        ends_recognition(before, job, outcome, after, r),
    ensures
        after@.job == before@.job,
        outcome is Err ==> r is Err,
{
    if let Ok(success) = outcome {
        let text = success.transcript.text;
        let provider = success.provider_id@;
        let (prepared, ready): (VoxTypeDaemon, Result<(), DaemonError>) = choose|
            prepared: VoxTypeDaemon,
            ready: Result<(), DaemonError>,
        |
            {
                &&& #[trigger] readies_text(before, job.session, text, prepared, ready)
                &&& match ready {
                    Ok(_) => inserts(
                        prepared,
                        job.session,
                        provider,
                        text@,
                        job.vad_result,
                        after,
                        r,
                    ),
                    Err(refused) => after == prepared && r == Err::<String, DaemonError>(refused),
                }
            };
        if ready is Ok {
            assert(inserts(prepared, job.session, provider, text@, job.vad_result, after, r));
        }
    }
}

/// Text that was inserted is told as completed, with the way it went and the count of its characters,
/// and its session is over; it went to the target that was armed for the session.
pub proof fn law_inserted_text_is_told(
    before: VoxTypeDaemon,
    session: SessionId,
    provider_id: Seq<char>,
    text: String,
    vad_result: Option<VadResult>,
    after: VoxTypeDaemon,
    answer: String,
)
    requires
        completes(before, session, provider_id, text, vad_result, after, Ok(answer)),
        text@.len() <= u64::MAX,
    ensures
        before@.armed is Some && before@.armed->0.session@ == session@,
        after.controller().session_machine().current() is Completed,
        after.controller().session_machine().current().owner()->0@ == session@,
        !crate::text::blank(text@),
        exists|insertion: InsertionOutcome|
            {
                &&& #[trigger] before@.desktop.adapter.may_commit(
                    before@.armed->0,
                    text@,
                    Ok(insertion),
                )
                &&& after.controller()@.events.last()
                    == crate::controller::AppEventModel::SessionFinished(
                    crate::controller::ResultModel {
                        session: session@,
                        outcome: "completed"@,
                        error_code: Seq::empty(),
                        backend: insertion.backend@,
                        char_count: text@.len() as u64,
                    },
                )
            },
{
    let r: Result<String, DaemonError> = Ok(answer);
    let (prepared, ready): (VoxTypeDaemon, Result<(), DaemonError>) = choose|
        prepared: VoxTypeDaemon,
        ready: Result<(), DaemonError>,
    |
        {
            &&& #[trigger] readies_text(before, session, text, prepared, ready)
            &&& match ready {
                Ok(_) => inserts(
                    prepared,
                    session,
                    provider_id,
                    text@,
                    vad_result,
                    after,
                    r,
                ),
                Err(refused) => after == prepared && r == Err::<String, DaemonError>(refused),
            }
        };
    assert(inserts(prepared, session, provider_id, text@, vad_result, after, r));
    let insertion = choose|insertion: InsertionOutcome|
        {
            &&& prepared@.desktop.adapter.may_commit(prepared@.armed->0, text@, Ok(insertion))
            &&& #[trigger] ends_insertion(
                prepared,
                session,
                provider_id,
                text@,
                insertion,
                vad_result,
                after,
                r,
            )
        };
    assert(before@.desktop.adapter.may_commit(before@.armed->0, text@, Ok(insertion)));
    let (complete, told_of): (VoxTypeDaemon, Result<(), DaemonError>) = choose|
        complete: VoxTypeDaemon,
        told_of: Result<(), DaemonError>,
    |
        {
            &&& #[trigger] completes_insertion(prepared, session, complete, told_of)
            &&& match told_of {
                Ok(_) => records_completion(
                    complete,
                    session,
                    provider_id,
                    text@,
                    insertion,
                    vad_result,
                    after,
                    r,
                ),
                Err(refused) => after == complete && r == Err::<String, DaemonError>(refused),
            }
        };
    assert(told_of is Ok);
}

/// Thirty-two bytes of audio last a millisecond.
pub proof fn law_audio_lasts_as_it_is_long(bytes: nat)
    requires
        bytes * 1_000 <= u64::MAX,
    ensures
        pcm_millis(bytes) * 32 <= bytes < (pcm_millis(bytes) + 1) * 32,
{
}

/// The share of clipped samples is in whole percent, never above a hundred of samples that there are.
pub proof fn law_clipping_is_a_share(clipped: u32, samples: u32)
    requires
        clipped <= samples,
        samples <= 40_000_000,
    ensures
        samples == 0 ==> clip_percent(clipped, samples) == 0,
        samples > 0 ==> clip_percent(clipped, samples) * samples <= clipped * 100 < (clip_percent(
            clipped,
            samples,
        ) + 1) * samples,
        clip_percent(clipped, samples) <= 100,
{
    if samples > 0 {
        let share = (clipped * 100) / samples as int;
        assert(share * samples <= clipped * 100 < (share + 1) * samples && share <= 100)
            by (nonlinear_arith)
            requires
                samples > 0,
                0 <= clipped <= samples,
                share == (clipped * 100) / samples as int,
        ;
    }
}

/// What is shown of a run of frames adds up over its parts.
pub proof fn law_frames_add_up(a: Seq<CaptureFrameMetrics>, b: Seq<CaptureFrameMetrics>)
    ensures
        clipped_of(a + b) == clipped_of(a) + clipped_of(b),
        samples_of(a + b) == samples_of(a) + samples_of(b),
    decreases b.len(),
{
    if b.len() > 0 {
        law_frames_add_up(a, b.drop_last());
        assert((a + b).drop_last() =~= a + b.drop_last());
        assert((a + b).last() == b.last());
    } else {
        assert(a + b =~= a);
    }
}

/// The level is shown ten times a second at most, the first one at once; without voice detection, or
/// without a frame, nothing is shown and nothing changes.
pub proof fn law_level_is_shown_in_time(
    daemon: DaemonModel,
    frames: Seq<CaptureFrameMetrics>,
    now: u64,
)
    ensures
        frames.len() > 0 && daemon.live_vad is Some ==> {
            &&& level_shown(daemon, frames, now) is Some <==> (daemon.last_overlay_at is None || now
                >= daemon.last_overlay_at->0 + 100_000_000)
            &&& listened(daemon, frames, now).last_overlay_at == (if level_shown(
                daemon,
                frames,
                now,
            ) is Some {
                Some(now)
            } else {
                daemon.last_overlay_at
            })
            &&& listened(daemon, frames, now).last_live_audio is Some
            &&& level_shown(daemon, frames, now) is Some ==> (level_shown(daemon, frames, now)->0).0
                == listened(daemon, frames, now).last_live_audio->0
        },
        frames.len() == 0 || daemon.live_vad is None ==> level_shown(daemon, frames, now) is None
            && listened(daemon, frames, now) == daemon,
{
}

/// Every setting of the insertion is carried out as it is named.
pub proof fn law_insertion_goes_as_configured()
    ensures
        mode_for(InsertionBackend::Fcitx) == InsertionMode::Fcitx,
        mode_for(InsertionBackend::Clipboard) == InsertionMode::Clipboard,
        mode_for(InsertionBackend::Copy) == InsertionMode::Copy,
        mode_for(InsertionBackend::Auto) == InsertionMode::Auto,
{
}

/// A session that was cancelled is over: nothing records and nothing is recognized for it any more, its
/// target and its profile are let go, the job that ran is handed out, and the history stays. A client
/// that names another session changes nothing.
pub proof fn law_cancelled_dictation_is_over(
    before: VoxTypeDaemon,
    requested: Seq<char>,
    after: VoxTypeDaemon,
    r: Result<Option<RecognitionJob>, DaemonError>,
)
    requires
        cancels(before, requested, after, r),
    ensures
        r is Ok ==> {
            &&& after.controller().session_machine().current() is Cancelled
            &&& after.controller().session_machine().current().owner()->0@
                == before.controller().session_machine().current().owner()->0@
            &&& after@.recorder is None
            &&& after@.started_at is None
            &&& after@.live_vad is None
            &&& after@.job is None
            &&& after@.armed is None
            &&& after@.active_profile is None
            &&& after@.history == before@.history
            &&& after@.notices == before@.notices.push(NoticeModel::Cancelled)
            &&& r->Ok_0 is Some <==> before@.job is Some
            &&& r->Ok_0 is Some ==> (r->Ok_0->0)@ == before@.job->0
        },
        r is Err ==> after@ == before@ && after.controller().session_machine()
            == before.controller().session_machine(),
        before.controller().session_machine().current() is Idle ==> r is Err,
        !(before.controller().session_machine().current() is Idle)
            && before.controller()@.events.len() <= 254 && (requested.len() == 0 || requested
            == before.controller().session_machine().current().owner()->0@) ==> r is Ok,
{
}

/// Another configuration is taken exactly where nothing is recorded and nothing recognized; it keeps
/// the history unless it switches it off, counts on, and forgets what was held against providers.
pub proof fn law_idle_daemon_takes_a_configuration(
    before: VoxTypeDaemon,
    config: Config,
    registry: Map<Seq<char>, crate::route::SharedAdapter>,
    insertion_adapter: SharedInsertion,
    after: VoxTypeDaemon,
    r: Result<(), DaemonError>,
    name: Seq<char>,
    now: u64,
)
    requires
        reloads(before, config, registry, insertion_adapter, after, r),
    ensures
        r is Ok <==> before@.recorder is None && before@.job is None,
        r is Err ==> after@ == before@ && after.controller() == before.controller(),
        r is Ok ==> {
            &&& after@.config == config
            &&& after@.desktop == insertion_adapter
            &&& after.controller()@.registry == registry
            &&& config.desktop.transcript_history_enabled ==> after@.history == before@.history
            &&& !config.desktop.transcript_history_enabled ==> after@.history.len() == 0
            &&& crate::controller::usage_in(after.controller()@.accounts, name)
                == crate::controller::usage_in(before.controller()@.accounts, name)
            &&& crate::controller::route_available(after.controller()@, name, now)
                <==> registry.contains_key(name)
            &&& after.controller().session_machine() == before.controller().session_machine()
        },
{
}

/// A recording that is long enough and holds speech is handed on; one that is too short, or in which
/// none is found, completes its session, and nothing is inserted. Without voice detection everything
/// that is long enough is handed on whole.
pub proof fn law_speech_is_handed_on(
    before: VoxTypeDaemon,
    session: SessionId,
    audio: CapturedAudio,
    pcm: Seq<u8>,
    after: VoxTypeDaemon,
    r: Result<Hearing, DaemonError>,
)
    requires
        hears(before, session, audio, pcm, after, r),
    ensures
        ({
            let short = audio.duration_millis < before@.config.audio.minimum_duration_millis;
            let listened = before@.config.audio.vad_enabled;
            let found = crate::vad::recording_result(
                pcm,
                VadConfig {
                    rms_threshold: before@.config.audio.vad_rms_threshold,
                    minimum_voiced_frames: before@.config.audio.vad_minimum_voiced_frames,
                },
            ).speech_detected;
            &&& !short && (!listened || found) ==> {
                &&& r is Ok && r->Ok_0 is Speech
                &&& after@ == before@
                &&& after.controller() == before.controller()
                &&& !listened ==> r->Ok_0->keep is None && r->Ok_0->audio_millis
                    == audio.duration_millis
            }
            &&& short || listened && !found ==> {
                &&& r is Ok ==> r->Ok_0 is Nothing
                &&& r is Ok ==> after.controller().session_machine().current() is Completed
                &&& r is Ok ==> after@.notices.len() == before@.notices.len() + 1
                &&& short && r is Ok ==> after@.notices.last() == NoticeModel::TooShort
                &&& after@.history == before@.history
            }
        }),
{
}

} // verus!
