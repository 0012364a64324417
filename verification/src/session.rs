//! Single-session state machine.

use crate::error::{ErrorCategory, VoxError};
use crate::text::{blank, decimal, is_blank, join2, same_text, write_number};
use vstd::prelude::*;
use vstd::string::*;

verus! {

/// The name of one dictation session.
#[derive(Debug, Eq, Hash, PartialEq)]
pub struct SessionId {
    name: String,
}

impl Clone for SessionId {
    fn clone(&self) -> (r: Self)
        ensures
            r == *self,
    {
        SessionId { name: self.name.clone() }
    }
}

/// The name of the session that is started with the counter at `counter`.
pub open spec fn session_name(counter: nat) -> Seq<char> {
    "session-"@ + decimal(counter)
}

impl SessionId {
    pub closed spec fn view(&self) -> Seq<char> {
        self.name@
    }

    pub fn from_counter(counter: u64) -> (id: Self)
        ensures
            id@ == session_name(counter as nat),
    {
        let digits = write_number(counter);
        SessionId { name: join2("session-", digits.as_str()) }
    }

    pub fn as_str(&self) -> (r: &str)
        ensures
            r@ == self@,
    {
        self.name.as_str()
    }

    pub fn same(&self, other: &SessionId) -> (r: bool)
        ensures
            r == (self@ == other@),
    {
        same_text(self.name.as_str(), other.name.as_str())
    }
}

#[derive(Clone, Copy, Debug, Eq, PartialEq, Structural)]
pub enum TriggerMode {
    PushToTalk,
    Toggle,
}

#[derive(Clone, Debug, Eq, PartialEq)]
pub struct StartRequest {
    pub mode: TriggerMode,
    pub profile: Option<String>,
}

#[derive(Clone, Debug, Eq, PartialEq)]
pub enum Command {
    Start(StartRequest),
    Stop { session: SessionId },
    Cancel { session: SessionId },
    CaptureReady { session: SessionId },
    CaptureStopped { session: SessionId },
    NoSpeech { session: SessionId },
    TranscriptReady { session: SessionId, text: String },
    InsertionComplete { session: SessionId },
    Fail { session: SessionId, error: VoxError },
    Reset,
}

#[derive(Clone, Debug, Eq, PartialEq)]
pub enum SessionState {
    Idle,
    Preparing { session: SessionId, mode: TriggerMode },
    Listening { session: SessionId, mode: TriggerMode },
    Finalizing { session: SessionId },
    Inserting { session: SessionId, text: String },
    Completed { session: SessionId },
    Cancelled { session: SessionId },
    Failed { session: SessionId, error: VoxError },
}

impl SessionState {
    /// The word that stands for the state.
    pub open spec fn word(self) -> Seq<char> {
        match self {
            SessionState::Idle => "idle"@,
            SessionState::Preparing { .. } => "preparing"@,
            SessionState::Listening { .. } => "listening"@,
            SessionState::Finalizing { .. } => "finalizing"@,
            SessionState::Inserting { .. } => "inserting"@,
            SessionState::Completed { .. } => "completed"@,
            SessionState::Cancelled { .. } => "cancelled"@,
            SessionState::Failed { .. } => "failed"@,
        }
    }

    /// The session that the state belongs to.
    pub open spec fn owner(self) -> Option<SessionId> {
        match self {
            SessionState::Idle => None,
            SessionState::Preparing { session, .. } => Some(session),
            SessionState::Listening { session, .. } => Some(session),
            SessionState::Finalizing { session } => Some(session),
            SessionState::Inserting { session, .. } => Some(session),
            SessionState::Completed { session } => Some(session),
            SessionState::Cancelled { session } => Some(session),
            SessionState::Failed { session, .. } => Some(session),
        }
    }

    /// The session is over.
    pub open spec fn terminal(self) -> bool {
        self is Completed || self is Cancelled || self is Failed
    }

    /// Work for the session is going on.
    pub open spec fn active(self) -> bool {
        !(self is Idle) && !self.terminal()
    }

    pub fn name(&self) -> (r: &'static str)
        ensures
            r@ == self.word(),
    {
        match self {
            SessionState::Idle => "idle",
            SessionState::Preparing { .. } => "preparing",
            SessionState::Listening { .. } => "listening",
            SessionState::Finalizing { .. } => "finalizing",
            SessionState::Inserting { .. } => "inserting",
            SessionState::Completed { .. } => "completed",
            SessionState::Cancelled { .. } => "cancelled",
            SessionState::Failed { .. } => "failed",
        }
    }

    pub fn session(&self) -> (r: Option<&SessionId>)
        ensures
            match r {
                Some(session) => self.owner() == Some(*session),
                None => self.owner() is None,
            },
    {
        match self {
            SessionState::Idle => None,
            SessionState::Preparing { session, .. } => Some(session),
            SessionState::Listening { session, .. } => Some(session),
            SessionState::Finalizing { session } => Some(session),
            SessionState::Inserting { session, .. } => Some(session),
            SessionState::Completed { session } => Some(session),
            SessionState::Cancelled { session } => Some(session),
            SessionState::Failed { session, .. } => Some(session),
        }
    }
}

#[derive(Clone, Debug, Eq, PartialEq)]
pub enum CommandEffect {
    Nothing,
    BeginCapture { session: SessionId, request: StartRequest },
    StopCapture { session: SessionId },
    CancelWork { session: SessionId },
    InsertText { session: SessionId, text: String },
}

/// Why a command is refused.
pub enum Refusal {
    /// The state does not take the command.
    State(Seq<char>),
    /// The command is for another session.
    Session,
    /// The transcript is blank.
    EmptyTranscript,
}

impl Refusal {
    pub open spec fn category(self) -> ErrorCategory {
        match self {
            Refusal::State(_) => ErrorCategory::InvalidState,
            Refusal::Session => ErrorCategory::InvalidArgument,
            Refusal::EmptyTranscript => ErrorCategory::Protocol,
        }
    }

    pub open spec fn code(self) -> Seq<char> {
        match self {
            Refusal::State(_) => "session.invalid_state"@,
            Refusal::Session => "session.id_mismatch"@,
            Refusal::EmptyTranscript => "transcript.empty"@,
        }
    }

    pub open spec fn message(self) -> Seq<char> {
        match self {
            Refusal::State(message) => message,
            Refusal::Session => "command targets a different session"@,
            Refusal::EmptyTranscript => "provider returned an empty final transcript"@,
        }
    }

    pub open spec fn told_by(self, error: VoxError) -> bool {
        error.says(self.category(), self.code(), self.message(), false)
    }
}

/// The session that a command is for.
pub open spec fn target(command: Command) -> Option<SessionId> {
    match command {
        Command::Start(_) => None,
        Command::Stop { session } => Some(session),
        Command::Cancel { session } => Some(session),
        Command::CaptureReady { session } => Some(session),
        Command::CaptureStopped { session } => Some(session),
        Command::NoSpeech { session } => Some(session),
        Command::TranscriptReady { session, .. } => Some(session),
        Command::InsertionComplete { session } => Some(session),
        Command::Fail { session, .. } => Some(session),
        Command::Reset => None,
    }
}

/// Whether the state takes the command, apart from the session that it names.
pub open spec fn takes(state: SessionState, command: Command) -> bool {
    match command {
        Command::Start(_) => !state.active(),
        Command::Stop { .. } => state is Listening,
        Command::Cancel { .. } => !(state is Idle),
        Command::CaptureReady { .. } => state is Preparing,
        Command::CaptureStopped { .. } => state is Listening,
        Command::NoSpeech { .. } => state is Finalizing,
        Command::TranscriptReady { .. } => state is Finalizing,
        Command::InsertionComplete { .. } => state is Inserting,
        Command::Fail { .. } => !(state is Idle),
        Command::Reset => !state.active(),
    }
}

/// What is said when the state does not take the command.
pub open spec fn state_message(command: Command) -> Seq<char> {
    match command {
        Command::Start(_) => "a session is already active"@,
        Command::Stop { .. } => "stop requires a listening session"@,
        Command::Cancel { .. } => "there is no session to cancel"@,
        Command::CaptureReady { .. } => "capture-ready requires a preparing session"@,
        Command::CaptureStopped { .. } => "capture-stopped requires a listening session"@,
        Command::NoSpeech { .. } => "no-speech requires a finalizing session"@,
        Command::TranscriptReady { .. } => "a final transcript requires a finalizing session"@,
        Command::InsertionComplete { .. } => "insertion-complete requires an inserting session"@,
        Command::Fail { .. } => "there is no active session to fail"@,
        Command::Reset => "cannot reset an active session"@,
    }
}

/// Why the command is refused in the state, if it is.
pub open spec fn refusal(state: SessionState, command: Command) -> Option<Refusal> {
    if !takes(state, command) {
        Some(Refusal::State(state_message(command)))
    } else if target(command) is Some && state.owner()->0@ != target(command)->0@ {
        Some(Refusal::Session)
    } else if command is TranscriptReady && blank(command->text@) {
        Some(Refusal::EmptyTranscript)
    } else {
        None
    }
}

/// What an accepted command makes of the state, and the work that it asks for.
pub open spec fn advanced(
    state: SessionState,
    counter: u64,
    command: Command,
    after: SessionState,
    effect: CommandEffect,
) -> bool {
    match command {
        Command::Start(request) => {
            &&& after matches SessionState::Preparing { session, mode }
            &&& session@ == session_name(counter as nat)
            &&& mode == request.mode
            &&& effect == (CommandEffect::BeginCapture { session, request })
        },
        Command::Stop { .. } => {
            let session = state.owner()->0;
            &&& after == (SessionState::Finalizing { session })
            &&& effect == (CommandEffect::StopCapture { session })
        },
        Command::Cancel { .. } => {
            let session = state.owner()->0;
            &&& after == (SessionState::Cancelled { session })
            &&& effect == (CommandEffect::CancelWork { session })
        },
        Command::CaptureReady { .. } => {
            &&& state matches SessionState::Preparing { session, mode }
            &&& after == (SessionState::Listening { session, mode })
            &&& effect == CommandEffect::Nothing
        },
        Command::CaptureStopped { .. } => {
            &&& after == (SessionState::Finalizing { session: state.owner()->0 })
            &&& effect == CommandEffect::Nothing
        },
        Command::NoSpeech { .. } => {
            &&& after == (SessionState::Completed { session: state.owner()->0 })
            &&& effect == CommandEffect::Nothing
        },
        Command::TranscriptReady { text, .. } => {
            let session = state.owner()->0;
            &&& after == (SessionState::Inserting { session, text })
            &&& effect == (CommandEffect::InsertText { session, text })
        },
        Command::InsertionComplete { .. } => {
            &&& after == (SessionState::Completed { session: state.owner()->0 })
            &&& effect == CommandEffect::Nothing
        },
        Command::Fail { session, error } => {
            &&& after == (SessionState::Failed { session: state.owner()->0, error })
            &&& effect == (CommandEffect::CancelWork { session })
        },
        Command::Reset => after is Idle && effect == CommandEffect::Nothing,
    }
}

/// One session at a time, driven by commands.
#[derive(Debug)]
pub struct SessionMachine {
    state: SessionState,
    next_id: u64,
}

impl Default for SessionMachine {
    fn default() -> (machine: Self)
        ensures
            machine.current() is Idle,
            machine.counter() == 1,
    {
        SessionMachine { state: SessionState::Idle, next_id: 1 }
    }
}

impl SessionMachine {
    pub closed spec fn current(self) -> SessionState {
        self.state
    }

    /// The counter that names the next session.
    pub closed spec fn counter(self) -> u64 {
        self.next_id
    }

    pub fn state(&self) -> (r: &SessionState)
        ensures
            *r == self.current(),
    {
        &self.state
    }

    /// What a call that is handed `command` does to the machine and returns.
    pub open spec fn applied(
        before: SessionMachine,
        command: Command,
        after: SessionMachine,
        r: Result<CommandEffect, VoxError>,
    ) -> bool {
        match refusal(before.current(), command) {
            Some(why) => r matches Err(error) && why.told_by(error) && after == before,
            None => {
                &&& r matches Ok(effect)
                &&& advanced(
                    before.current(),
                    before.counter(),
                    command,
                    after.current(),
                    effect,
                )
                &&& after.counter() == (if command is Start && before.counter() < u64::MAX {
                    (before.counter() + 1) as u64
                } else {
                    before.counter()
                })
            },
        }
    }

    /// Applies one serialized command and returns work for an outer adapter.
    ///
    /// A command that is invalid for the current state or targets a different session is
    /// refused and changes nothing.
    pub fn apply(&mut self, command: Command) -> (r: Result<CommandEffect, VoxError>)
        ensures
            SessionMachine::applied(*old(self), command, *final(self), r),
    {
        match command {
            Command::Start(request) => self.start(request),
            Command::Stop { session } => self.stop(&session),
            Command::Cancel { session } => self.cancel(&session),
            Command::CaptureReady { session } => self.capture_ready(&session),
            Command::CaptureStopped { session } => self.capture_stopped(&session),
            Command::NoSpeech { session } => self.no_speech(&session),
            Command::TranscriptReady { session, text } => self.transcript_ready(&session, text),
            Command::InsertionComplete { session } => self.insertion_complete(&session),
            Command::Fail { session, error } => self.fail(&session, error),
            Command::Reset => self.reset(),
        }
    }

    fn start(&mut self, request: StartRequest) -> (r: Result<CommandEffect, VoxError>)
        ensures
            SessionMachine::applied(*old(self), Command::Start(request), *final(self), r),
    {
        match &self.state {
            SessionState::Idle => {},
            SessionState::Completed { .. } => {},
            SessionState::Cancelled { .. } => {},
            SessionState::Failed { .. } => {},
            _ => {
                return Err(invalid_state("a session is already active"));
            },
        }
        let session = SessionId::from_counter(self.next_id);
        self.next_id = self.next_id.saturating_add(1);
        self.state = SessionState::Preparing { session: session.clone(), mode: request.mode };
        Ok(CommandEffect::BeginCapture { session, request })
    }

    fn stop(&mut self, requested: &SessionId) -> (r: Result<CommandEffect, VoxError>)
        ensures
            SessionMachine::applied(
                *old(self),
                (Command::Stop { session: *requested }),
                *final(self),
                r,
            ),
    {
        let session = match &self.state {
            SessionState::Listening { session, .. } => session.clone(),
            _ => {
                return Err(invalid_state("stop requires a listening session"));
            },
        };
        if !session.same(requested) {
            return Err(other_session());
        }
        self.state = SessionState::Finalizing { session: session.clone() };
        Ok(CommandEffect::StopCapture { session })
    }

    fn cancel(&mut self, requested: &SessionId) -> (r: Result<CommandEffect, VoxError>)
        ensures
            SessionMachine::applied(
                *old(self),
                (Command::Cancel { session: *requested }),
                *final(self),
                r,
            ),
    {
        let session = match self.state.session() {
            Some(active) => active.clone(),
            None => {
                return Err(invalid_state("there is no session to cancel"));
            },
        };
        if !session.same(requested) {
            return Err(other_session());
        }
        self.state = SessionState::Cancelled { session: session.clone() };
        Ok(CommandEffect::CancelWork { session })
    }

    fn capture_ready(&mut self, requested: &SessionId) -> (r: Result<CommandEffect, VoxError>)
        ensures
            SessionMachine::applied(
                *old(self),
                (Command::CaptureReady { session: *requested }),
                *final(self),
                r,
            ),
    {
        let (session, mode) = match &self.state {
            SessionState::Preparing { session, mode } => (session.clone(), *mode),
            _ => {
                return Err(invalid_state("capture-ready requires a preparing session"));
            },
        };
        if !session.same(requested) {
            return Err(other_session());
        }
        self.state = SessionState::Listening { session, mode };
        Ok(CommandEffect::Nothing)
    }

    fn capture_stopped(&mut self, requested: &SessionId) -> (r: Result<CommandEffect, VoxError>)
        ensures
            SessionMachine::applied(
                *old(self),
                (Command::CaptureStopped { session: *requested }),
                *final(self),
                r,
            ),
    {
        let session = match &self.state {
            SessionState::Listening { session, .. } => session.clone(),
            _ => {
                return Err(invalid_state("capture-stopped requires a listening session"));
            },
        };
        if !session.same(requested) {
            return Err(other_session());
        }
        self.state = SessionState::Finalizing { session };
        Ok(CommandEffect::Nothing)
    }

    fn transcript_ready(&mut self, requested: &SessionId, text: String) -> (r: Result<
        CommandEffect,
        VoxError,
    >)
        ensures
            SessionMachine::applied(
                *old(self),
                (Command::TranscriptReady { session: *requested, text }),
                *final(self),
                r,
            ),
    {
        let session = match &self.state {
            SessionState::Finalizing { session } => session.clone(),
            _ => {
                return Err(invalid_state("a final transcript requires a finalizing session"));
            },
        };
        if !session.same(requested) {
            return Err(other_session());
        }
        if is_blank(text.as_str()) {
            return Err(
                VoxError::new(
                    ErrorCategory::Protocol,
                    "transcript.empty",
                    "provider returned an empty final transcript",
                ),
            );
        }
        self.state = SessionState::Inserting { session: session.clone(), text: text.clone() };
        Ok(CommandEffect::InsertText { session, text })
    }

    fn no_speech(&mut self, requested: &SessionId) -> (r: Result<CommandEffect, VoxError>)
        ensures
            SessionMachine::applied(
                *old(self),
                (Command::NoSpeech { session: *requested }),
                *final(self),
                r,
            ),
    {
        let session = match &self.state {
            SessionState::Finalizing { session } => session.clone(),
            _ => {
                return Err(invalid_state("no-speech requires a finalizing session"));
            },
        };
        if !session.same(requested) {
            return Err(other_session());
        }
        self.state = SessionState::Completed { session };
        Ok(CommandEffect::Nothing)
    }

    fn insertion_complete(&mut self, requested: &SessionId) -> (r: Result<CommandEffect, VoxError>)
        ensures
            SessionMachine::applied(
                *old(self),
                (Command::InsertionComplete { session: *requested }),
                *final(self),
                r,
            ),
    {
        let session = match &self.state {
            SessionState::Inserting { session, .. } => session.clone(),
            _ => {
                return Err(invalid_state("insertion-complete requires an inserting session"));
            },
        };
        if !session.same(requested) {
            return Err(other_session());
        }
        self.state = SessionState::Completed { session };
        Ok(CommandEffect::Nothing)
    }

    fn fail(&mut self, requested: &SessionId, error: VoxError) -> (r: Result<
        CommandEffect,
        VoxError,
    >)
        ensures
            SessionMachine::applied(
                *old(self),
                (Command::Fail { session: *requested, error }),
                *final(self),
                r,
            ),
    {
        let session = match self.state.session() {
            Some(active) => active.clone(),
            None => {
                return Err(invalid_state("there is no active session to fail"));
            },
        };
        if !session.same(requested) {
            return Err(other_session());
        }
        self.state = SessionState::Failed { session, error };
        Ok(CommandEffect::CancelWork { session: requested.clone() })
    }

    fn reset(&mut self) -> (r: Result<CommandEffect, VoxError>)
        ensures
            SessionMachine::applied(*old(self), Command::Reset, *final(self), r),
    {
        match &self.state {
            SessionState::Idle => {},
            SessionState::Completed { .. } => {},
            SessionState::Cancelled { .. } => {},
            SessionState::Failed { .. } => {},
            _ => {
                return Err(invalid_state("cannot reset an active session"));
            },
        }
        self.state = SessionState::Idle;
        Ok(CommandEffect::Nothing)
    }
}

fn invalid_state(message: &'static str) -> (error: VoxError)
    ensures
        Refusal::State(message@).told_by(error),
{
    VoxError::new(ErrorCategory::InvalidState, "session.invalid_state", message)
}

fn other_session() -> (error: VoxError)
    ensures
        Refusal::Session.told_by(error),
{
    VoxError::new(
        ErrorCategory::InvalidArgument,
        "session.id_mismatch",
        "command targets a different session",
    )
}

/// After a session is over, nothing that its work reports is accepted any more: text is never
/// inserted for it and it never completes.
pub proof fn law_terminal_session_takes_no_result(state: SessionState, command: Command)
    requires
        state.terminal(),
        command is TranscriptReady || command is InsertionComplete || command is NoSpeech
            || command is CaptureReady || command is CaptureStopped || command is Stop,
    ensures
        refusal(state, command) == Some(Refusal::State(state_message(command))),
{
}

/// A command for another session than the current one is refused in every state.
pub proof fn law_other_session_is_refused(state: SessionState, command: Command)
    requires
        target(command) is Some,
        state.owner() is None || state.owner()->0@ != target(command)->0@,
    ensures
        refusal(state, command) is Some,
{
}

/// While a session is active no other session starts.
pub proof fn law_one_session_at_a_time(state: SessionState, request: StartRequest)
    ensures
        state.active() <==> refusal(state, Command::Start(request)) is Some,
{
}

/// Text is handed out for insertion only for the transcript of a finalizing session, and the
/// text handed out is that transcript, which is not blank.
pub proof fn law_only_a_final_transcript_is_inserted(
    before: SessionMachine,
    command: Command,
    after: SessionMachine,
    session: SessionId,
    text: String,
)
    requires
        SessionMachine::applied(
            before,
            command,
            after,
            Ok((CommandEffect::InsertText { session, text })),
        ),
    ensures
        before.current() is Finalizing,
        before.current().owner() == Some(session),
        command matches Command::TranscriptReady { session: named, text: told } && named@
            == session@ && told == text,
        !blank(text@),
{
}

/// Cancelling and failing end every session, from any state that belongs to it.
pub proof fn law_cancel_is_terminal(
    before: SessionMachine,
    session: SessionId,
    after: SessionMachine,
    r: Result<CommandEffect, VoxError>,
)
    requires
        before.current().owner() is Some,
        before.current().owner()->0@ == session@,
        SessionMachine::applied(before, (Command::Cancel { session }), after, r),
    ensures
        r is Ok,
        after.current() is Cancelled,
        !(r->Ok_0 is InsertText),
{
}

/// Two sessions started with different counters have different names.
pub proof fn law_session_names_differ(a: nat, b: nat)
    requires
        a != b,
    ensures
        session_name(a) != session_name(b),
{
    let prefix = "session-"@;
    if session_name(a) == session_name(b) {
        assert(decimal(a) =~= session_name(a).skip(prefix.len() as int));
        assert(decimal(b) =~= session_name(b).skip(prefix.len() as int));
        let top = if a > b {
            a
        } else {
            b
        };
        crate::text::law_decimal_reads_back(a, top);
        crate::text::law_decimal_reads_back(b, top);
    }
}

/// A dictation runs through: from a machine without active work, a start names a session and asks
/// for its capture; once the capture is ready the session listens, in the mode asked for; a stop ends
/// the capture; the transcript is handed out for insertion, unchanged; and the inserted text
/// completes the session. No step on the way is refused.
pub proof fn law_dictation_runs_through(
    machines: Seq<SessionMachine>,
    results: Seq<Result<CommandEffect, VoxError>>,
    request: StartRequest,
    text: String,
)
    requires
        machines.len() == 6,
        results.len() == 5,
        machines[0].current() is Idle || machines[0].current() is Completed
            || machines[0].current() is Cancelled || machines[0].current() is Failed,
        !blank(text@),
        SessionMachine::applied(machines[0], Command::Start(request), machines[1], results[0]),
        ({
            let session = results[0]->Ok_0->BeginCapture_session;
            &&& SessionMachine::applied(
                machines[1],
                (Command::CaptureReady { session }),
                machines[2],
                results[1],
            )
            &&& SessionMachine::applied(
                machines[2],
                (Command::Stop { session }),
                machines[3],
                results[2],
            )
            &&& SessionMachine::applied(
                machines[3],
                (Command::TranscriptReady { session, text }),
                machines[4],
                results[3],
            )
            &&& SessionMachine::applied(
                machines[4],
                (Command::InsertionComplete { session }),
                machines[5],
                results[4],
            )
        }),
    ensures
        ({
            let session = results[0]->Ok_0->BeginCapture_session;
            &&& results[0] == Ok::<CommandEffect, VoxError>(
                (CommandEffect::BeginCapture { session, request }),
            )
            &&& session@ == "session-"@ + decimal(machines[0].counter() as nat)
            &&& machines[1].current() == (SessionState::Preparing { session, mode: request.mode })
            &&& results[1] == Ok::<CommandEffect, VoxError>(CommandEffect::Nothing)
            &&& machines[2].current() == (SessionState::Listening { session, mode: request.mode })
            &&& results[2] == Ok::<CommandEffect, VoxError>((CommandEffect::StopCapture { session }))
            &&& machines[3].current() == (SessionState::Finalizing { session })
            &&& results[3] == Ok::<CommandEffect, VoxError>(
                (CommandEffect::InsertText { session, text }),
            )
            &&& machines[4].current() == (SessionState::Inserting { session, text })
            &&& results[4] == Ok::<CommandEffect, VoxError>(CommandEffect::Nothing)
            &&& machines[5].current() == (SessionState::Completed { session })
            &&& machines[0].counter() < u64::MAX ==> machines[5].counter() == machines[0].counter()
                + 1
        }),
{
}

/// A capture that ends by itself leads where a stop leads, and a recording without speech completes
/// the session with nothing to insert.
pub proof fn law_silence_completes_the_session(
    first: SessionMachine,
    second: SessionMachine,
    third: SessionMachine,
    session: SessionId,
    mode: TriggerMode,
    stopped: Result<CommandEffect, VoxError>,
    ended: Result<CommandEffect, VoxError>,
)
    requires
        first.current() == (SessionState::Listening { session, mode }),
        SessionMachine::applied(first, (Command::CaptureStopped { session }), second, stopped),
        SessionMachine::applied(second, (Command::NoSpeech { session }), third, ended),
    ensures
        stopped == Ok::<CommandEffect, VoxError>(CommandEffect::Nothing),
        second.current() == (SessionState::Finalizing { session }),
        ended == Ok::<CommandEffect, VoxError>(CommandEffect::Nothing),
        third.current() == (SessionState::Completed { session }),
{
}

/// Every command that is refused changes nothing, whatever the state, and is told with one of three
/// codes; none of them may be retried as it is.
pub proof fn law_refused_command_changes_nothing(
    before: SessionMachine,
    command: Command,
    after: SessionMachine,
    r: Result<CommandEffect, VoxError>,
)
    requires
        SessionMachine::applied(before, command, after, r),
        r is Err,
    ensures
        after == before,
        !r->Err_0.retry(),
        r->Err_0.code_text() == "session.invalid_state"@ || r->Err_0.code_text()
            == "session.id_mismatch"@ || r->Err_0.code_text() == "transcript.empty"@,
{
}

/// In no state is a command taken out of its turn: a stop or the end of a capture needs a listening
/// session, the readiness of a capture a preparing one, a transcript or silence a finalizing one, and
/// the end of an insertion an inserting one.
pub proof fn law_commands_have_their_turn(
    before: SessionMachine,
    command: Command,
    after: SessionMachine,
    r: Result<CommandEffect, VoxError>,
)
    requires
        SessionMachine::applied(before, command, after, r),
    ensures
        r is Ok && (command is Stop || command is CaptureStopped) ==> before.current() is Listening,
        r is Ok && command is CaptureReady ==> before.current() is Preparing,
        r is Ok && (command is TranscriptReady || command is NoSpeech) ==> before.current()
            is Finalizing,
        r is Ok && command is InsertionComplete ==> before.current() is Inserting,
        r is Ok && (command is Cancel || command is Fail) ==> !(before.current() is Idle),
        r is Ok && (command is Start || command is Reset) ==> before.current() is Idle
            || before.current() is Completed || before.current() is Cancelled || before.current()
            is Failed,
{
}

/// A failure ends the session that it names, from every state that belongs to the session, keeps the
/// error and asks for the work to be cancelled.
pub proof fn law_failure_ends_the_session(
    before: SessionMachine,
    session: SessionId,
    error: VoxError,
    after: SessionMachine,
    r: Result<CommandEffect, VoxError>,
)
    requires
        before.current().owner() is Some,
        before.current().owner()->0@ == session@,
        SessionMachine::applied(before, (Command::Fail { session, error }), after, r),
    ensures
        r == Ok::<CommandEffect, VoxError>((CommandEffect::CancelWork { session })),
        after.current() matches SessionState::Failed { session: ended, error: kept } && ended@
            == session@ && kept == error,
        after.counter() == before.counter(),
{
}

/// A machine without active work is always idle after a reset, and starts again.
pub proof fn law_reset_makes_idle(
    before: SessionMachine,
    after: SessionMachine,
    r: Result<CommandEffect, VoxError>,
)
    requires
        SessionMachine::applied(before, Command::Reset, after, r),
    ensures
        before.current() is Preparing || before.current() is Listening || before.current()
            is Finalizing || before.current() is Inserting <==> r is Err,
        r is Ok ==> after.current() is Idle && after.counter() == before.counter(),
{
}

/// Every state but the idle one belongs to the session that it names.
pub proof fn law_states_belong_to_their_session(
    session: SessionId,
    mode: TriggerMode,
    text: String,
    error: VoxError,
)
    ensures
        SessionState::Idle.owner() is None,
        (SessionState::Preparing { session, mode }).owner() == Some(session),
        (SessionState::Listening { session, mode }).owner() == Some(session),
        (SessionState::Finalizing { session }).owner() == Some(session),
        (SessionState::Inserting { session, text }).owner() == Some(session),
        (SessionState::Completed { session }).owner() == Some(session),
        (SessionState::Cancelled { session }).owner() == Some(session),
        (SessionState::Failed { session, error }).owner() == Some(session),
{
}

} // verus!
