//! Single-writer application state and provider runtime accounting.
//!
//! Moments are in nanoseconds from an arbitrary beginning.

use crate::error::{ErrorCategory, VoxError};
use crate::provider::ProviderId;
use crate::route::{
    ProviderRegistry, ProviderUsage, RecognitionRouteResult, RecognitionSuccess, RouteAttempt,
    SharedAdapter,
};
use crate::routing::{
    candidates, usable, usable_ids, OrderedRouter, ProviderHealth, ProviderRouter, RoutePlan,
    RoutingPolicy,
};
use crate::session::{Command, CommandEffect, SessionId, SessionMachine, SessionState};
use crate::table::Table;
use crate::text::{owned, same_text};
use crate::wake::WakeHandle;
use vstd::prelude::*;
use vstd::string::*;

verus! {

pub const MAX_PENDING_EVENTS: usize = 256;

pub const MAX_SESSION_RESULTS: usize = 32;

pub const PROVIDER_VERIFICATION_TTL_SECONDS: u64 = 900;

pub const NANOS_PER_SECOND: u64 = 1_000_000_000;

/// How long a provider is left alone after its third failure in a row.
pub const BLOCK_NANOS: u64 = 60_000_000_000;

/// Transcript-free lifecycle event emitted to desktop and IPC adapters.
#[derive(Debug, Eq, PartialEq)]
pub enum AppEvent {
    StateChanged { state: String, session: String },
    SessionFinished {
        session: String,
        outcome: String,
        error_code: String,
        backend: String,
        char_count: u64,
    },
}

/// Bounded transcript-free terminal result retained for polling clients.
#[derive(Debug, Eq, PartialEq)]
pub struct TerminalSessionResult {
    pub session: String,
    pub outcome: String,
    pub error_code: String,
    pub backend: String,
    pub char_count: u64,
}

/// What a terminal result says.
pub struct ResultModel {
    pub session: Seq<char>,
    pub outcome: Seq<char>,
    pub error_code: Seq<char>,
    pub backend: Seq<char>,
    pub char_count: u64,
}

/// What an event says.
pub enum AppEventModel {
    StateChanged(Seq<char>, Seq<char>),
    SessionFinished(ResultModel),
}

impl AppEvent {
    pub open spec fn view(&self) -> AppEventModel {
        match self {
            AppEvent::StateChanged { state, session } => AppEventModel::StateChanged(
                state@,
                session@,
            ),
            AppEvent::SessionFinished { session, outcome, error_code, backend, char_count } =>
                AppEventModel::SessionFinished(
                ResultModel {
                    session: session@,
                    outcome: outcome@,
                    error_code: error_code@,
                    backend: backend@,
                    char_count: *char_count,
                },
            ),
        }
    }
}

impl TerminalSessionResult {
    pub open spec fn view(&self) -> ResultModel {
        ResultModel {
            session: self.session@,
            outcome: self.outcome@,
            error_code: self.error_code@,
            backend: self.backend@,
            char_count: self.char_count,
        }
    }
}

impl Clone for TerminalSessionResult {
    fn clone(&self) -> (r: Self)
        ensures
            r@ == self@,
    {
        TerminalSessionResult {
            session: self.session.clone(),
            outcome: self.outcome.clone(),
            error_code: self.error_code.clone(),
            backend: self.backend.clone(),
            char_count: self.char_count,
        }
    }
}

/// What is known of the health of a provider.
#[derive(Clone, Copy, Debug)]
pub struct ProviderHealthState {
    consecutive_failures: u32,
    blocked_until: Option<u64>,
    last_success_at: Option<u64>,
    last_failure_at: Option<u64>,
    last_error_category: Option<ErrorCategory>,
    last_error_code: Option<&'static str>,
}

/// The same as plain values.
pub struct HealthModel {
    pub consecutive_failures: u32,
    pub blocked_until: Option<u64>,
    pub last_success_at: Option<u64>,
    pub last_failure_at: Option<u64>,
    pub last_error_category: Option<ErrorCategory>,
    pub last_error_code: Option<Seq<char>>,
}

pub open spec fn opt_str(text: Option<&'static str>) -> Option<Seq<char>> {
    match text {
        Some(text) => Some(text@),
        None => None,
    }
}

/// Nothing is known of the provider.
pub open spec fn fresh_health() -> HealthModel {
    HealthModel {
        consecutive_failures: 0,
        blocked_until: None,
        last_success_at: None,
        last_failure_at: None,
        last_error_category: None,
        last_error_code: None,
    }
}

/// The health after a success.
pub open spec fn after_success(health: HealthModel, now: u64) -> HealthModel {
    HealthModel {
        last_success_at: Some(now),
        consecutive_failures: 0,
        blocked_until: None,
        ..health
    }
}

pub open spec fn later(now: u64, nanos: u64) -> u64 {
    if now + nanos > u64::MAX {
        u64::MAX
    } else {
        (now + nanos) as u64
    }
}

/// The health after a failure: from the third retryable one in a row on, the provider is left
/// alone for a minute.
pub open spec fn after_failure(health: HealthModel, now: u64, error: VoxError) -> HealthModel {
    let failures: u32 = if !error.retry() || health.consecutive_failures == u32::MAX {
        health.consecutive_failures
    } else {
        (health.consecutive_failures + 1) as u32
    };
    HealthModel {
        last_failure_at: Some(now),
        last_error_category: Some(error.kind()),
        last_error_code: Some(error.code_text()),
        consecutive_failures: failures,
        blocked_until: if error.retry() && failures >= 3 {
            Some(later(now, BLOCK_NANOS))
        } else {
            health.blocked_until
        },
        ..health
    }
}

/// The provider may be asked.
pub open spec fn available_at(health: HealthModel, now: u64) -> bool {
    health.blocked_until is None || now >= health.blocked_until->0
}

/// The whole seconds from one moment to another, none where the other comes first.
pub open spec fn seconds_since(now: u64, then_at: u64) -> u64 {
    if now >= then_at {
        ((now - then_at) / 1_000_000_000) as u64
    } else {
        0
    }
}

/// The provider succeeded not long ago.
pub open spec fn verified(health: HealthModel, now: u64) -> bool {
    match health.last_success_at {
        Some(success) => now <= success || now - success <= 900_000_000_000,
        None => false,
    }
}

impl ProviderHealthState {
    pub closed spec fn view(&self) -> HealthModel {
        HealthModel {
            consecutive_failures: self.consecutive_failures,
            blocked_until: self.blocked_until,
            last_success_at: self.last_success_at,
            last_failure_at: self.last_failure_at,
            last_error_category: self.last_error_category,
            last_error_code: opt_str(self.last_error_code),
        }
    }

    pub fn is_available_at(&self, now: u64) -> (r: bool)
        ensures
            r == available_at(self@, now),
    {
        match self.blocked_until {
            Some(deadline) => now >= deadline,
            None => true,
        }
    }

    pub fn record_success_at(&mut self, now: u64)
        ensures
            final(self)@ == after_success(old(self)@, now),
    {
        self.last_success_at = Some(now);
        self.consecutive_failures = 0;
        self.blocked_until = None;
    }

    pub fn record_failure_at(&mut self, now: u64, error: &VoxError)
        ensures
            final(self)@ == after_failure(old(self)@, now, *error),
    {
        self.last_failure_at = Some(now);
        self.last_error_category = Some(error.category());
        self.last_error_code = Some(error.code());
        if error.is_retryable() {
            self.consecutive_failures = self.consecutive_failures.saturating_add(1);
            if self.consecutive_failures >= 3 {
                self.blocked_until = Some(now.saturating_add(BLOCK_NANOS));
            }
        }
    }

    pub fn verified_at(&self, now: u64) -> (r: bool)
        ensures
            r == verified(self@, now),
    {
        match self.last_success_at {
            Some(success) => now.saturating_sub(success) <= 900_000_000_000,
            None => false,
        }
    }

    pub fn consecutive_failures(&self) -> (r: u32)
        ensures
            r == self@.consecutive_failures,
    {
        self.consecutive_failures
    }
}

impl Default for ProviderHealthState {
    fn default() -> (r: Self)
        ensures
            r@ == fresh_health(),
    {
        ProviderHealthState {
            consecutive_failures: 0,
            blocked_until: None,
            last_success_at: None,
            last_failure_at: None,
            last_error_category: None,
            last_error_code: None,
        }
    }
}

/// Time-relative provider health exposed to outer presentation adapters.
#[derive(Clone, Copy, Debug, Eq, PartialEq)]
pub struct ProviderHealthSnapshot {
    pub route_available: bool,
    pub verified: bool,
    pub verified_age_seconds: Option<u64>,
    pub verification_ttl_seconds: u64,
    pub consecutive_failures: u32,
    pub retry_after_seconds: Option<u64>,
    pub last_failure_age_seconds: Option<u64>,
    pub last_error_category: Option<ErrorCategory>,
    pub last_error_code: Option<&'static str>,
}

/// Session-local usage counters owned by the application layer.
#[derive(Clone, Copy, Debug, Eq, PartialEq)]
pub struct ProviderUsageSnapshot {
    pub attempts: u64,
    pub requests: u64,
    pub successes: u64,
    pub failures: u64,
    pub audio_millis: u64,
    pub token_reports: u64,
    pub input_tokens: u64,
    pub output_tokens: u64,
    pub total_tokens: u64,
    pub reported_tokens: u64,
}

pub open spec fn no_usage() -> ProviderUsageSnapshot {
    ProviderUsageSnapshot {
        attempts: 0,
        requests: 0,
        successes: 0,
        failures: 0,
        audio_millis: 0,
        token_reports: 0,
        input_tokens: 0,
        output_tokens: 0,
        total_tokens: 0,
        reported_tokens: 0,
    }
}

impl Default for ProviderUsageSnapshot {
    fn default() -> (r: Self)
        ensures
            r == no_usage(),
    {
        ProviderUsageSnapshot {
            attempts: 0,
            requests: 0,
            successes: 0,
            failures: 0,
            audio_millis: 0,
            token_reports: 0,
            input_tokens: 0,
            output_tokens: 0,
            total_tokens: 0,
            reported_tokens: 0,
        }
    }
}

/// The sum, or the largest number where it is larger.
pub open spec fn plus(a: u64, b: u64) -> u64 {
    if a + b > u64::MAX {
        u64::MAX
    } else {
        (a + b) as u64
    }
}

pub open spec fn or_zero(n: Option<u64>) -> u64 {
    match n {
        Some(n) => n,
        None => 0,
    }
}

/// The tokens that a report amounts to: its total, or else its two parts.
pub open spec fn reported(usage: ProviderUsage) -> u64 {
    match usage.total_tokens {
        Some(total) => total,
        None => plus(or_zero(usage.input_tokens), or_zero(usage.output_tokens)),
    }
}

/// The counters after a success; tokens count only where the provider reported some.
pub open spec fn with_report(
    counters: ProviderUsageSnapshot,
    usage: ProviderUsage,
) -> ProviderUsageSnapshot {
    let counted = ProviderUsageSnapshot { successes: plus(counters.successes, 1), ..counters };
    if usage.input_tokens is None && usage.output_tokens is None && usage.total_tokens is None {
        counted
    } else {
        ProviderUsageSnapshot {
            token_reports: plus(counters.token_reports, 1),
            input_tokens: plus(counters.input_tokens, or_zero(usage.input_tokens)),
            output_tokens: plus(counters.output_tokens, or_zero(usage.output_tokens)),
            total_tokens: plus(counters.total_tokens, or_zero(usage.total_tokens)),
            reported_tokens: plus(counters.reported_tokens, reported(usage)),
            ..counted
        }
    }
}

fn value_or_zero(n: Option<u64>) -> (r: u64)
    ensures
        r == or_zero(n),
{
    match n {
        Some(n) => n,
        None => 0,
    }
}

impl ProviderUsageSnapshot {
    pub fn record_success(&mut self, usage: ProviderUsage)
        ensures
            *final(self) == with_report(*old(self), usage),
    {
        self.successes = self.successes.saturating_add(1);
        if usage.input_tokens.is_none() && usage.output_tokens.is_none()
            && usage.total_tokens.is_none() {
            return;
        }
        self.token_reports = self.token_reports.saturating_add(1);
        let input: u64 = value_or_zero(usage.input_tokens);
        let output: u64 = value_or_zero(usage.output_tokens);
        self.input_tokens = self.input_tokens.saturating_add(input);
        self.output_tokens = self.output_tokens.saturating_add(output);
        self.total_tokens = self.total_tokens.saturating_add(value_or_zero(usage.total_tokens));
        let amount: u64 = match usage.total_tokens {
            Some(total) => total,
            None => input.saturating_add(output),
        };
        self.reported_tokens = self.reported_tokens.saturating_add(amount);
    }
}

/// The counters after an attempt.
pub open spec fn with_attempt(
    counters: ProviderUsageSnapshot,
    attempt: RouteAttempt,
    audio_millis: u64,
) -> ProviderUsageSnapshot {
    ProviderUsageSnapshot {
        attempts: plus(counters.attempts, 1),
        requests: if attempt.transport_started {
            plus(counters.requests, 1)
        } else {
            counters.requests
        },
        audio_millis: if attempt.audio_acceptance.may_have_left() {
            plus(counters.audio_millis, audio_millis)
        } else {
            counters.audio_millis
        },
        failures: if counts_as_failure(attempt) {
            plus(counters.failures, 1)
        } else {
            counters.failures
        },
        ..counters
    }
}

/// An attempt that failed, and not because it was cancelled.
pub open spec fn counts_as_failure(attempt: RouteAttempt) -> bool {
    attempt.error is Some && attempt.error->0.kind() != ErrorCategory::Cancelled
}

/// What is known of the providers by their names.
pub struct Accounts {
    pub health: Map<Seq<char>, HealthModel>,
    pub usage: Map<Seq<char>, ProviderUsageSnapshot>,
}

pub open spec fn health_in(accounts: Accounts, name: Seq<char>) -> HealthModel {
    if accounts.health.contains_key(name) {
        accounts.health[name]
    } else {
        fresh_health()
    }
}

pub open spec fn usage_in(accounts: Accounts, name: Seq<char>) -> ProviderUsageSnapshot {
    if accounts.usage.contains_key(name) {
        accounts.usage[name]
    } else {
        no_usage()
    }
}

/// The accounts after one attempt.
pub open spec fn charged(
    accounts: Accounts,
    attempt: RouteAttempt,
    audio_millis: u64,
    now: u64,
) -> Accounts {
    let name = attempt.provider_id@;
    Accounts {
        usage: accounts.usage.insert(
            name,
            with_attempt(usage_in(accounts, name), attempt, audio_millis),
        ),
        health: if counts_as_failure(attempt) {
            accounts.health.insert(
                name,
                after_failure(health_in(accounts, name), now, attempt.error->0),
            )
        } else {
            accounts.health
        },
    }
}

/// The accounts after the attempts of a route, in their order.
pub open spec fn charged_all(
    accounts: Accounts,
    attempts: Seq<RouteAttempt>,
    audio_millis: u64,
    now: u64,
) -> Accounts
    decreases attempts.len(),
{
    if attempts.len() == 0 {
        accounts
    } else {
        charged(
            charged_all(accounts, attempts.drop_last(), audio_millis, now),
            attempts.last(),
            audio_millis,
            now,
        )
    }
}

/// The accounts after a success.
pub open spec fn credited(accounts: Accounts, success: RecognitionSuccess, now: u64) -> Accounts {
    let name = success.provider_id@;
    Accounts {
        health: accounts.health.insert(name, after_success(health_in(accounts, name), now)),
        usage: accounts.usage.insert(
            name,
            with_report(usage_in(accounts, name), success.transcript.usage),
        ),
    }
}

/// The accounts after a route.
pub open spec fn settled(
    accounts: Accounts,
    result: RecognitionRouteResult,
    audio_millis: u64,
    now: u64,
) -> Accounts {
    let charged = charged_all(accounts, result.attempts@, audio_millis, now);
    match result.outcome {
        Ok(success) => credited(charged, success, now),
        Err(_) => charged,
    }
}

/// The results without the first one of a session.
pub open spec fn without_session(results: Seq<ResultModel>, session: Seq<char>) -> Seq<ResultModel>
    decreases results.len(),
{
    if results.len() == 0 {
        results
    } else if results[0].session == session {
        results.skip(1)
    } else {
        seq![results[0]] + without_session(results.skip(1), session)
    }
}

/// The results with a new one, which takes the place of one of the same session or, where there
/// is no room, of the oldest.
pub open spec fn with_result(results: Seq<ResultModel>, result: ResultModel) -> Seq<ResultModel> {
    let others = without_session(results, result.session);
    let kept = if others.len() == 32 {
        others.skip(1)
    } else {
        others
    };
    kept.push(result)
}

/// The newest result of a session.
pub open spec fn latest_result(results: Seq<ResultModel>, session: Seq<char>) -> Option<ResultModel>
    decreases results.len(),
{
    if results.len() == 0 {
        None
    } else if results.last().session == session {
        Some(results.last())
    } else {
        latest_result(results.drop_last(), session)
    }
}

/// What a state is published as.
pub open spec fn state_event(state: SessionState) -> AppEventModel {
    AppEventModel::StateChanged(
        state.word(),
        match state.owner() {
            Some(session) => session@,
            None => Seq::empty(),
        },
    )
}

/// The result that an accepted command ends its session with.
pub open spec fn ending(command: Command) -> Option<ResultModel> {
    match command {
        Command::Cancel { session } => Some(ended(session@, "cancelled"@, ""@)),
        Command::NoSpeech { session } => Some(ended(session@, "no-speech"@, ""@)),
        Command::Fail { session, error } => Some(
            ended(session@, "failed"@, error.code_text()),
        ),
        _ => None,
    }
}

pub open spec fn ended(
    session: Seq<char>,
    outcome: Seq<char>,
    error_code: Seq<char>,
) -> ResultModel {
    ResultModel { session, outcome, error_code, backend: ""@, char_count: 0 }
}

/// What the controller holds apart from the session machine.
pub struct ControllerModel {
    pub events: Seq<AppEventModel>,
    pub results: Seq<ResultModel>,
    pub registry: Map<Seq<char>, SharedAdapter>,
    pub accounts: Accounts,
}

/// The controller after a session ended with a result.
pub open spec fn finished(controller: ControllerModel, result: ResultModel) -> ControllerModel {
    ControllerModel {
        events: controller.events.push(AppEventModel::SessionFinished(result)),
        results: with_result(controller.results, result),
        ..controller
    }
}

/// The controller after a command brought the machine to a state.
pub open spec fn published(
    controller: ControllerModel,
    state: SessionState,
    command: Command,
) -> ControllerModel {
    let told = ControllerModel {
        events: controller.events.push(state_event(state)),
        ..controller
    };
    match ending(command) {
        Some(result) => finished(told, result),
        None => told,
    }
}

/// There is no room for more events.
pub open spec fn backpressure(error: VoxError) -> bool {
    error.says(
        ErrorCategory::Unavailable,
        "app.event_backpressure"@,
        "application event queue is temporarily full"@,
        true,
    )
}

/// The provider has an adapter and is not left alone.
pub open spec fn route_available(controller: ControllerModel, name: Seq<char>, now: u64) -> bool {
    controller.registry.contains_key(name) && available_at(
        health_in(controller.accounts, name),
        now,
    )
}

/// The available ones among `ids`, in their order.
pub open spec fn available_ids(
    ids: Seq<ProviderId>,
    controller: ControllerModel,
    now: u64,
) -> Seq<ProviderId>
    decreases ids.len(),
{
    if ids.len() == 0 {
        Seq::empty()
    } else if route_available(controller, ids.last()@, now) {
        available_ids(ids.drop_last(), controller, now).push(ids.last())
    } else {
        available_ids(ids.drop_last(), controller, now)
    }
}

proof fn lemma_available_ids(
    ids: Seq<ProviderId>,
    health: Table<ProviderHealth>,
    controller: ControllerModel,
    now: u64,
)
    requires
        forall|i: int|
            0 <= i < ids.len() ==> usable(health, (#[trigger] ids[i])@) == route_available(
                controller,
                ids[i]@,
                now,
            ),
    ensures
        usable_ids(ids, health) == available_ids(ids, controller, now),
    decreases ids.len(),
{
    if ids.len() > 0 {
        lemma_available_ids(ids.drop_last(), health, controller, now);
        assert(usable(health, ids[ids.len() - 1]@) == route_available(
            controller,
            ids[ids.len() - 1]@,
            now,
        ));
    }
}

fn full_queue() -> (error: VoxError)
    ensures
        backpressure(error),
{
    VoxError::new(
        ErrorCategory::Unavailable,
        "app.event_backpressure",
        "application event queue is temporarily full",
    ).with_retryable(true)
}

/// Counts an attempt.
fn count_attempt(counters: &mut ProviderUsageSnapshot, attempt: &RouteAttempt, audio_millis: u64)
    ensures
        *final(counters) == with_attempt(*old(counters), *attempt, audio_millis),
{
    counters.attempts = counters.attempts.saturating_add(1);
    if attempt.transport_started {
        counters.requests = counters.requests.saturating_add(1);
    }
    if attempt.audio_acceptance.may_have_left_process() {
        counters.audio_millis = counters.audio_millis.saturating_add(audio_millis);
    }
    match &attempt.error {
        Some(error) => {
            let cancelled = match error.category() {
                ErrorCategory::Cancelled => true,
                _ => false,
            };
            if !cancelled {
                counters.failures = counters.failures.saturating_add(1);
            }
        },
        None => {},
    }
}

/// The only owner of session state, provider runtime state, and lifecycle events.
pub struct AppController {
    machine: SessionMachine,
    events: Vec<AppEvent>,
    session_results: Vec<TerminalSessionResult>,
    registry: ProviderRegistry,
    provider_health: Table<ProviderHealthState>,
    provider_usage: Table<ProviderUsageSnapshot>,
    wake: WakeHandle,
}

pub open spec fn event_models(events: Seq<AppEvent>) -> Seq<AppEventModel> {
    Seq::new(events.len(), |i: int| events[i]@)
}

pub open spec fn result_models(results: Seq<TerminalSessionResult>) -> Seq<ResultModel> {
    Seq::new(results.len(), |i: int| results[i]@)
}

pub open spec fn health_models(table: Table<ProviderHealthState>) -> Map<Seq<char>, HealthModel> {
    Map::new(|name: Seq<char>| table.has(name), |name: Seq<char>| table.value_of(name)@)
}

impl AppController {
    pub closed spec fn view(&self) -> ControllerModel {
        ControllerModel {
            events: event_models(self.events@),
            results: result_models(self.session_results@),
            registry: self.registry@,
            accounts: Accounts {
                health: health_models(self.provider_health),
                usage: self.provider_usage.contents(),
            },
        }
    }

    /// The session machine of the controller.
    pub closed spec fn session_machine(&self) -> SessionMachine {
        self.machine
    }

    /// Whether somebody is woken by what happens here.
    pub closed spec fn wakes(&self) -> bool {
        self.wake.enabled()
    }

    /// What a call that is handed `command` does to the controller and returns.
    pub open spec fn applies(
        before: AppController,
        command: Command,
        after: AppController,
        r: Result<CommandEffect, VoxError>,
    ) -> bool {
        &&& after.wakes() == before.wakes()
        &&& if before@.events.len() > MAX_PENDING_EVENTS - 2 {
            &&& r matches Err(error)
            &&& backpressure(error)
            &&& after@ == before@
            &&& after.session_machine() == before.session_machine()
        } else {
            &&& SessionMachine::applied(
                before.session_machine(),
                command,
                after.session_machine(),
                r,
            )
            &&& after@ == (if r is Ok {
                published(before@, after.session_machine().current(), command)
            } else {
                before@
            })
        }
    }

    pub fn new(registry: ProviderRegistry) -> (controller: Self)
        ensures
            controller@ == new_controller(registry@),
            controller.session_machine().current() is Idle,
            controller.session_machine().counter() == 1,
            !controller.wakes(),
    {
        Self::with_wake(registry, WakeHandle::disabled())
    }

    pub fn with_wake(registry: ProviderRegistry, wake: WakeHandle) -> (controller: Self)
        ensures
            controller@ == new_controller(registry@),
            controller.session_machine().current() is Idle,
            controller.session_machine().counter() == 1,
            controller.wakes() == wake.enabled(),
    {
        let mut events: Vec<AppEvent> = Vec::new();
        events.push(AppEvent::StateChanged { state: owned("idle"), session: String::new() });
        let controller = AppController {
            machine: SessionMachine::default(),
            events,
            session_results: Vec::new(),
            registry,
            provider_health: Table::new(),
            provider_usage: Table::new(),
            wake,
        };
        proof {
            assert(controller@.events =~= new_controller(registry@).events);
            assert(controller@.results =~= Seq::<ResultModel>::empty());
            assert(controller@.accounts.health =~= Map::<Seq<char>, HealthModel>::empty());
        }
        controller
    }

    pub fn state(&self) -> (r: &SessionState)
        ensures
            *r == self.session_machine().current(),
    {
        self.machine.state()
    }

    /// The word for the state, and the name of its session or nothing.
    pub fn state_snapshot(&self) -> (r: (String, String))
        ensures
            AppEventModel::StateChanged(r.0@, r.1@) == state_event(
                self.session_machine().current(),
            ),
    {
        let state = self.machine.state();
        let session = match state.session() {
            Some(session) => owned(session.as_str()),
            None => String::new(),
        };
        (owned(state.name()), session)
    }

    fn queue_current_state(&mut self)
        ensures
            final(self)@ == (ControllerModel {
                events: old(self)@.events.push(state_event(old(self).session_machine().current())),
                ..old(self)@
            }),
            final(self).session_machine() == old(self).session_machine(),
            final(self).wakes() == old(self).wakes(),
    {
        let (state, session) = self.state_snapshot();
        self.events.push(AppEvent::StateChanged { state, session });
        assert(self@.events =~= old(self)@.events.push(
            state_event(old(self).session_machine().current()),
        ));
    }

    /// Removes the first result of a session.
    fn forget_result(&mut self, session: &str)
        ensures
            final(self)@ == (ControllerModel {
                results: without_session(old(self)@.results, session@),
                ..old(self)@
            }),
            final(self).session_machine() == old(self).session_machine(),
            final(self).wakes() == old(self).wakes(),
    {
        let mut i: usize = 0;
        let ghost all = self@.results;
        assert(all.skip(0) =~= all);
        while i < self.session_results.len()
            invariant
                *self == *old(self),
                all == old(self)@.results,
                i <= all.len(),
                self.session_results@.len() == all.len(),
                without_session(all, session@) == all.take(i as int) + without_session(
                    all.skip(i as int),
                    session@,
                ),
            decreases self.session_results@.len() - i,
        {
            proof {
                assert(all.skip(i as int)[0] == self.session_results@[i as int]@);
                assert(all.skip(i as int).skip(1) =~= all.skip(i + 1));
            }
            if same_text(self.session_results[i].session.as_str(), session) {
                let _gone = self.session_results.remove(i);
                proof {
                    assert(self@.results =~= all.take(i as int) + all.skip(i + 1));
                }
                return;
            }
            proof {
                assert(all.take(i as int) + (seq![all[i as int]] + without_session(
                    all.skip(i + 1),
                    session@,
                )) =~= all.take(i + 1) + without_session(all.skip(i + 1), session@));
            }
            i += 1;
        }
        assert(all.skip(all.len() as int) =~= Seq::<ResultModel>::empty());
        assert(without_session(all, session@) =~= all);
    }

    fn queue_session_finished(
        &mut self,
        session: &SessionId,
        outcome: &str,
        error_code: &str,
        backend: &str,
        char_count: u64,
    )
        ensures
            final(self)@ == finished(
                old(self)@,
                ResultModel {
                    session: session@,
                    outcome: outcome@,
                    error_code: error_code@,
                    backend: backend@,
                    char_count,
                },
            ),
            final(self).session_machine() == old(self).session_machine(),
            final(self).wakes() == old(self).wakes(),
    {
        let ghost result = ResultModel {
            session: session@,
            outcome: outcome@,
            error_code: error_code@,
            backend: backend@,
            char_count,
        };
        self.forget_result(session.as_str());
        let ghost others = self@.results;
        if self.session_results.len() == MAX_SESSION_RESULTS {
            let _oldest = self.session_results.remove(0);
            assert(self@.results =~= others.skip(1));
        }
        let ghost kept = self@.results;
        self.session_results.push(
            TerminalSessionResult {
                session: owned(session.as_str()),
                outcome: owned(outcome),
                error_code: owned(error_code),
                backend: owned(backend),
                char_count,
            },
        );
        assert(self@.results =~= kept.push(result));
        let ghost before = self@.events;
        self.events.push(
            AppEvent::SessionFinished {
                session: owned(session.as_str()),
                outcome: owned(outcome),
                error_code: owned(error_code),
                backend: owned(backend),
                char_count,
            },
        );
        assert(self@.events =~= before.push(AppEventModel::SessionFinished(result)));
    }

    /// Applies one serialized domain command and publishes its complete lifecycle sequence.
    ///
    /// A command is refused with a domain transition error or for bounded-event backpressure.
    pub fn apply(&mut self, command: Command) -> (r: Result<CommandEffect, VoxError>)
        ensures
            Self::applies(*old(self), command, *final(self), r),
    {
        if self.events.len() > MAX_PENDING_EVENTS - 2 {
            return Err(full_queue());
        }
        let terminal: Option<(SessionId, &'static str, &'static str)> = match &command {
            Command::Cancel { session } => Some((session.clone(), "cancelled", "")),
            Command::NoSpeech { session } => Some((session.clone(), "no-speech", "")),
            Command::Fail { session, error } => Some((session.clone(), "failed", error.code())),
            _ => None,
        };
        match self.machine.apply(command) {
            Err(error) => Err(error),
            Ok(effect) => {
                self.queue_current_state();
                match terminal {
                    Some((session, outcome, error_code)) => {
                        self.queue_session_finished(&session, outcome, error_code, "", 0);
                    },
                    None => {},
                }
                self.wake.notify();
                Ok(effect)
            },
        }
    }

    /// Records the metadata-only terminal result after successful insertion.
    ///
    /// Bounded-event backpressure leaves the result cache as it is.
    pub fn finish_session(
        &mut self,
        session: &SessionId,
        outcome: &str,
        error_code: &str,
        backend: &str,
        char_count: u64,
    ) -> (r: Result<(), VoxError>)
        ensures
            final(self).wakes() == old(self).wakes(),
            final(self).session_machine() == old(self).session_machine(),
            match r {
                Ok(_) => {
                    &&& old(self)@.events.len() != MAX_PENDING_EVENTS
                    &&& final(self)@ == finished(
                        old(self)@,
                        ResultModel {
                            session: session@,
                            outcome: outcome@,
                            error_code: error_code@,
                            backend: backend@,
                            char_count,
                        },
                    )
                },
                Err(error) => {
                    &&& old(self)@.events.len() == MAX_PENDING_EVENTS
                    &&& backpressure(error)
                    &&& final(self)@ == old(self)@
                },
            },
    {
        if self.events.len() == MAX_PENDING_EVENTS {
            return Err(full_queue());
        }
        self.queue_session_finished(session, outcome, error_code, backend, char_count);
        self.wake.notify();
        Ok(())
    }

    /// The newest result that is kept of a session.
    pub fn session_result(&self, session: &str) -> (r: Option<TerminalSessionResult>)
        ensures
            match r {
                Some(result) => latest_result(self@.results, session@) == Some(result@),
                None => latest_result(self@.results, session@) is None,
            },
    {
        let mut n: usize = self.session_results.len();
        let ghost all = self@.results;
        assert(all.take(n as int) =~= all);
        while n > 0
            invariant
                all == self@.results,
                n <= all.len(),
                self.session_results@.len() == all.len(),
                latest_result(all, session@) == latest_result(all.take(n as int), session@),
            decreases n,
        {
            proof {
                assert(all.take(n as int).last() == self.session_results@[n - 1]@);
                assert(all.take(n as int).drop_last() =~= all.take(n - 1));
            }
            if same_text(self.session_results[n - 1].session.as_str(), session) {
                return Some(self.session_results[n - 1].clone());
            }
            n -= 1;
        }
        None
    }

    /// Hands out the events that wait.
    pub fn drain_events(&mut self) -> (events: Vec<AppEvent>)
        ensures
            event_models(events@) == old(self)@.events,
            final(self)@ == (ControllerModel { events: Seq::empty(), ..old(self)@ }),
            final(self).session_machine() == old(self).session_machine(),
            final(self).wakes() == old(self).wakes(),
    {
        let mut events: Vec<AppEvent> = Vec::new();
        std::mem::swap(&mut events, &mut self.events);
        assert(self@.events =~= Seq::<AppEventModel>::empty());
        events
    }

    pub fn registry(&self) -> (r: ProviderRegistry)
        ensures
            r@ == self@.registry,
    {
        self.registry.clone()
    }

    /// Takes other adapters; what was known of the health of their providers is forgotten.
    pub fn replace_registry(&mut self, registry: ProviderRegistry)
        ensures
            final(self)@ == (ControllerModel {
                registry: registry@,
                accounts: Accounts { health: Map::empty(), ..old(self)@.accounts },
                ..old(self)@
            }),
            final(self).session_machine() == old(self).session_machine(),
            final(self).wakes() == old(self).wakes(),
    {
        self.registry = registry;
        self.provider_health = Table::new();
        assert(self@.accounts.health =~= Map::<Seq<char>, HealthModel>::empty());
    }

    pub fn wake_handle(&self) -> (r: WakeHandle)
        ensures
            r.enabled() == self.wakes(),
    {
        self.wake.clone()
    }

    fn health_of(&self, name: &str) -> (r: ProviderHealthState)
        ensures
            r@ == health_in(self@.accounts, name@),
    {
        match self.provider_health.get(name) {
            Some(state) => *state,
            None => ProviderHealthState::default(),
        }
    }

    fn usage_of(&self, name: &str) -> (r: ProviderUsageSnapshot)
        ensures
            r == usage_in(self@.accounts, name@),
    {
        match self.provider_usage.get(name) {
            Some(counters) => *counters,
            None => ProviderUsageSnapshot::default(),
        }
    }

    fn set_health(&mut self, name: &str, state: ProviderHealthState)
        ensures
            final(self)@ == (ControllerModel {
                accounts: Accounts {
                    health: old(self)@.accounts.health.insert(name@, state@),
                    ..old(self)@.accounts
                },
                ..old(self)@
            }),
            final(self).session_machine() == old(self).session_machine(),
            final(self).wakes() == old(self).wakes(),
    {
        self.provider_health.set(owned(name), state);
        assert(self@.accounts.health =~= old(self)@.accounts.health.insert(name@, state@));
    }

    fn set_usage(&mut self, name: &str, counters: ProviderUsageSnapshot)
        ensures
            final(self)@ == (ControllerModel {
                accounts: Accounts {
                    usage: old(self)@.accounts.usage.insert(name@, counters),
                    ..old(self)@.accounts
                },
                ..old(self)@
            }),
            final(self).session_machine() == old(self).session_machine(),
            final(self).wakes() == old(self).wakes(),
    {
        self.provider_usage.set(owned(name), counters);
    }

    fn is_route_available(&self, id: &ProviderId, now: u64) -> (r: bool)
        ensures
            r == route_available(self@, id@, now),
    {
        self.registry.contains(id) && self.health_of(id.as_str()).is_available_at(now)
    }

    fn put_health(&self, health: &mut Table<ProviderHealth>, id: &ProviderId, now: u64)
        ensures
            final(health).contents() == old(health).contents().insert(
                id@,
                (ProviderHealth {
                    available: route_available(self@, id@, now),
                    consecutive_failures: health_in(self@.accounts, id@).consecutive_failures,
                }),
            ),
    {
        let status = ProviderHealth {
            available: self.is_route_available(id, now),
            consecutive_failures: self.health_of(id.as_str()).consecutive_failures(),
        };
        health.set(owned(id.as_str()), status);
    }

    /// Plans a route from current cooldown state and registered adapters.
    ///
    /// There is none when every configured adapter is absent or cooling down.
    pub fn plan_route(&self, policy: &RoutingPolicy, now: u64) -> (r: Result<RoutePlan, VoxError>)
        ensures
            ({
                let providers = available_ids(candidates(*policy), self@, now);
                match r {
                    Ok(plan) => {
                        &&& plan.providers@ == providers
                        &&& plan.providers@.len() > 0
                        &&& plan.replay == policy.replay
                    },
                    Err(error) => providers.len() == 0 && error.says(
                        ErrorCategory::Unavailable,
                        "routing.no_provider"@,
                        "no configured provider is currently available"@,
                        true,
                    ),
                }
            }),
    {
        let ghost ids = candidates(*policy);
        let mut health: Table<ProviderHealth> = Table::new();
        self.put_health(&mut health, &policy.primary, now);
        for i in 0..policy.fallbacks.len()
            invariant
                ids == candidates(*policy),
                forall|k: int|
                    0 <= k <= i ==> health.contents().contains_key((#[trigger] ids[k])@),
                forall|name: Seq<char>| #[trigger]
                    health.contents().contains_key(name) ==> health.contents()[name].available
                        == route_available(self@, name, now),
        {
            self.put_health(&mut health, &policy.fallbacks[i], now);
        }
        proof {
            assert forall|k: int| 0 <= k < ids.len() implies usable(health, (#[trigger] ids[k])@)
                == route_available(self@, ids[k]@, now) by {
                assert(health.contents().contains_key(ids[k]@));
            }
            lemma_available_ids(ids, health, self@, now);
        }
        OrderedRouter.plan(policy, &health)
    }

    /// Counts one attempt of a route.
    fn record_attempt(&mut self, attempt: &RouteAttempt, audio_millis: u64, now: u64)
        ensures
            final(self)@ == (ControllerModel {
                accounts: charged(old(self)@.accounts, *attempt, audio_millis, now),
                ..old(self)@
            }),
            final(self).session_machine() == old(self).session_machine(),
            final(self).wakes() == old(self).wakes(),
    {
        let name = attempt.provider_id.as_str();
        let mut counters = self.usage_of(name);
        count_attempt(&mut counters, attempt, audio_millis);
        self.set_usage(name, counters);
        match &attempt.error {
            Some(error) => {
                let cancelled = match error.category() {
                    ErrorCategory::Cancelled => true,
                    _ => false,
                };
                if !cancelled {
                    let mut state = self.health_of(name);
                    state.record_failure_at(now, error);
                    self.set_health(name, state);
                }
            },
            None => {},
        }
    }

    /// Applies one completed route to health and usage accounting exactly once.
    pub fn record_route_result(
        &mut self,
        result: &RecognitionRouteResult,
        audio_millis: u64,
        now: u64,
    )
        ensures
            final(self)@ == (ControllerModel {
                accounts: settled(old(self)@.accounts, *result, audio_millis, now),
                ..old(self)@
            }),
            final(self).session_machine() == old(self).session_machine(),
            final(self).wakes() == old(self).wakes(),
    {
        let ghost attempts = result.attempts@;
        for i in 0..result.attempts.len()
            invariant
                attempts == result.attempts@,
                self@ == (ControllerModel {
                    accounts: charged_all(
                        old(self)@.accounts,
                        attempts.take(i as int),
                        audio_millis,
                        now,
                    ),
                    ..old(self)@
                }),
                self.session_machine() == old(self).session_machine(),
                self.wakes() == old(self).wakes(),
        {
            proof {
                assert(attempts.take(i + 1).drop_last() =~= attempts.take(i as int));
                assert(attempts.take(i + 1).last() == attempts[i as int]);
            }
            self.record_attempt(&result.attempts[i], audio_millis, now);
        }
        assert(attempts.take(attempts.len() as int) =~= attempts);
        match &result.outcome {
            Ok(success) => {
                let name = success.provider_id.as_str();
                let mut state = self.health_of(name);
                state.record_success_at(now);
                let mut counters = self.usage_of(name);
                counters.record_success(success.transcript.usage);
                self.set_health(name, state);
                self.set_usage(name, counters);
            },
            Err(_) => {},
        }
    }

    /// The health of a provider as it is seen now.
    pub fn provider_health_snapshot(&self, provider_id: &ProviderId, now: u64) -> (r:
        ProviderHealthSnapshot)
        ensures
            ({
                let health = health_in(self@.accounts, provider_id@);
                &&& r.route_available == route_available(self@, provider_id@, now)
                &&& r.verified == verified(health, now)
                &&& r.verified_age_seconds == (match health.last_success_at {
                    Some(success) => Some(seconds_since(now, success)),
                    None => None,
                })
                &&& r.verification_ttl_seconds == PROVIDER_VERIFICATION_TTL_SECONDS
                &&& r.consecutive_failures == health.consecutive_failures
                &&& r.retry_after_seconds == (match health.blocked_until {
                    Some(deadline) if deadline >= now => Some(seconds_since(deadline, now)),
                    _ => None,
                })
                &&& r.last_failure_age_seconds == (match health.last_failure_at {
                    Some(failure) => Some(seconds_since(now, failure)),
                    None => None,
                })
                &&& r.last_error_category == health.last_error_category
                &&& opt_str(r.last_error_code) == health.last_error_code
            }),
    {
        let state = self.health_of(provider_id.as_str());
        ProviderHealthSnapshot {
            route_available: self.is_route_available(provider_id, now),
            verified: state.verified_at(now),
            verified_age_seconds: match state.last_success_at {
                Some(success) => Some(whole_seconds(now, success)),
                None => None,
            },
            verification_ttl_seconds: PROVIDER_VERIFICATION_TTL_SECONDS,
            consecutive_failures: state.consecutive_failures,
            retry_after_seconds: match state.blocked_until {
                Some(deadline) => if deadline >= now {
                    Some(whole_seconds(deadline, now))
                } else {
                    None
                },
                None => None,
            },
            last_failure_age_seconds: match state.last_failure_at {
                Some(failure) => Some(whole_seconds(now, failure)),
                None => None,
            },
            last_error_category: state.last_error_category,
            last_error_code: state.last_error_code,
        }
    }

    pub fn provider_usage_snapshot(&self, provider_id: &ProviderId) -> (r: ProviderUsageSnapshot)
        ensures
            r == usage_in(self@.accounts, provider_id@),
    {
        self.usage_of(provider_id.as_str())
    }
}

/// A controller that has just been made.
pub open spec fn new_controller(registry: Map<Seq<char>, SharedAdapter>) -> ControllerModel {
    ControllerModel {
        events: seq![AppEventModel::StateChanged("idle"@, Seq::empty())],
        results: Seq::empty(),
        registry,
        accounts: Accounts { health: Map::empty(), usage: Map::empty() },
    }
}

fn whole_seconds(now: u64, then_at: u64) -> (r: u64)
    ensures
        r == seconds_since(now, then_at),
{
    now.saturating_sub(then_at) / NANOS_PER_SECOND
}

/// No two results are of the same session, and there are no more than 32.
pub open spec fn proper_results(results: Seq<ResultModel>) -> bool {
    &&& results.len() <= MAX_SESSION_RESULTS
    &&& forall|i: int, j: int|
        0 <= i < j < results.len() ==> (#[trigger] results[i]).session != (
        #[trigger] results[j]).session
}

proof fn lemma_without_session(results: Seq<ResultModel>, session: Seq<char>)
    requires
        forall|i: int, j: int|
            0 <= i < j < results.len() ==> (#[trigger] results[i]).session != (
            #[trigger] results[j]).session,
    ensures
        ({
            let others = without_session(results, session);
            &&& others.len() <= results.len()
            &&& forall|i: int, j: int|
                0 <= i < j < others.len() ==> (#[trigger] others[i]).session != (
                #[trigger] others[j]).session
            &&& forall|i: int|
                0 <= i < others.len() ==> (#[trigger] others[i]).session != session
                    && results.contains(others[i])
        }),
    decreases results.len(),
{
    if results.len() > 0 {
        let rest = results.skip(1);
        assert forall|i: int, j: int| 0 <= i < j < rest.len() implies (
        #[trigger] rest[i]).session != (#[trigger] rest[j]).session by {
            assert(results[i + 1].session != results[j + 1].session);
        }
        lemma_without_session(rest, session);
        let others = without_session(results, session);
        if results[0].session == session {
            assert forall|i: int| 0 <= i < others.len() implies (#[trigger] others[i]).session
                != session && results.contains(others[i]) by {
                assert(others[i] == results[i + 1]);
            }
        } else {
            let tail = without_session(rest, session);
            assert forall|i: int| 0 <= i < others.len() implies (#[trigger] others[i]).session
                != session && results.contains(others[i]) by {
                if i > 0 {
                    assert(others[i] == tail[i - 1]);
                    let k = choose|k: int| 0 <= k < rest.len() && rest[k] == tail[i - 1];
                    assert(results[k + 1] == others[i]);
                }
            }
            assert forall|i: int, j: int| 0 <= i < j < others.len() implies (
            #[trigger] others[i]).session != (#[trigger] others[j]).session by {
                assert(others[j] == tail[j - 1]);
                if i == 0 {
                    let k = choose|k: int| 0 <= k < rest.len() && rest[k] == tail[j - 1];
                    assert(results[0].session != results[k + 1].session);
                } else {
                    assert(others[i] == tail[i - 1]);
                }
            }
        }
    }
}

/// The cache of results stays bounded and holds one result for a session at most.
pub proof fn law_results_stay_bounded(results: Seq<ResultModel>, result: ResultModel)
    requires
        proper_results(results),
    ensures
        proper_results(with_result(results, result)),
{
    lemma_without_session(results, result.session);
}

/// The result that was recorded last for a session is the one that is found.
pub proof fn law_recorded_result_is_found(results: Seq<ResultModel>, result: ResultModel)
    ensures
        latest_result(with_result(results, result), result.session) == Some(result),
{
}

/// The queue of events never grows beyond its bound: where a call is not refused, there was room
/// for everything that it queues.
pub proof fn law_events_stay_bounded(
    controller: ControllerModel,
    state: SessionState,
    command: Command,
    result: ResultModel,
)
    requires
        controller.events.len() <= MAX_PENDING_EVENTS,
    ensures
        controller.events.len() <= MAX_PENDING_EVENTS - 2 ==> published(
            controller,
            state,
            command,
        ).events.len() <= MAX_PENDING_EVENTS,
        controller.events.len() != MAX_PENDING_EVENTS ==> finished(
            controller,
            result,
        ).events.len() <= MAX_PENDING_EVENTS,
{
}

/// A command that ends its session is published as the new state first and as the result of the
/// session then.
pub proof fn law_state_comes_before_the_result(
    controller: ControllerModel,
    state: SessionState,
    command: Command,
)
    requires
        ending(command) is Some,
    ensures
        ({
            let after = published(controller, state, command).events;
            let n = controller.events.len() as int;
            &&& after.len() == n + 2
            &&& after.take(n) == controller.events
            &&& after[n] == state_event(state)
            &&& after[n + 1] == AppEventModel::SessionFinished(ending(command)->0)
        }),
{
    let after = published(controller, state, command).events;
    assert(after.take(controller.events.len() as int) =~= controller.events);
}

/// The third retryable failure in a row keeps a provider from being asked for a minute.
pub proof fn law_third_failure_blocks(health: HealthModel, error: VoxError, now: u64, at: u64)
    requires
        health.consecutive_failures >= 2,
        error.retry(),
    ensures
        available_at(after_failure(health, now, error), at) <==> at >= later(now, BLOCK_NANOS),
        after_failure(health, now, error).consecutive_failures >= 3,
{
}

/// A failure that is not worth a retry neither counts nor blocks.
pub proof fn law_permanent_failure_does_not_block(
    health: HealthModel,
    error: VoxError,
    now: u64,
    at: u64,
)
    requires
        !error.retry(),
    ensures
        available_at(after_failure(health, now, error), at) == available_at(health, at),
        after_failure(health, now, error).consecutive_failures == health.consecutive_failures,
{
}

/// A success ends a block, counts the failures from the beginning and counts as a verification.
pub proof fn law_success_resets_health(health: HealthModel, now: u64, at: u64)
    ensures
        available_at(after_success(health, now), at),
        after_success(health, now).consecutive_failures == 0,
        verified(after_success(health, now), now),
        now + 900_000_000_000 < at ==> !verified(after_success(health, now), at),
{
}

/// A cancelled attempt says nothing of the health of its provider.
pub proof fn law_cancelled_attempt_leaves_health(
    accounts: Accounts,
    attempt: RouteAttempt,
    audio_millis: u64,
    now: u64,
)
    requires
        attempt.error is Some,
        attempt.error->0.kind() == ErrorCategory::Cancelled,
    ensures
        charged(accounts, attempt, audio_millis, now).health == accounts.health,
{
}

/// How many of the attempts are of a provider.
pub open spec fn attempts_of(attempts: Seq<RouteAttempt>, name: Seq<char>) -> nat
    decreases attempts.len(),
{
    if attempts.len() == 0 {
        0
    } else {
        attempts_of(attempts.drop_last(), name) + (if attempts.last().provider_id@ == name {
            1nat
        } else {
            0
        })
    }
}

/// Every attempt of a route is counted for its provider exactly once.
pub proof fn law_every_attempt_counts_once(
    accounts: Accounts,
    attempts: Seq<RouteAttempt>,
    audio_millis: u64,
    now: u64,
    name: Seq<char>,
)
    requires
        usage_in(accounts, name).attempts + attempts_of(attempts, name) <= u64::MAX,
    ensures
        usage_in(charged_all(accounts, attempts, audio_millis, now), name).attempts == usage_in(
            accounts,
            name,
        ).attempts + attempts_of(attempts, name),
    decreases attempts.len(),
{
    if attempts.len() > 0 {
        law_every_attempt_counts_once(accounts, attempts.drop_last(), audio_millis, now, name);
    }
}

/// Tokens are counted only where a provider reported some.
pub proof fn law_tokens_need_a_report(counters: ProviderUsageSnapshot, usage: ProviderUsage)
    requires
        usage.input_tokens is None,
        usage.output_tokens is None,
        usage.total_tokens is None,
    ensures
        with_report(counters, usage).token_reports == counters.token_reports,
        with_report(counters, usage).reported_tokens == counters.reported_tokens,
        with_report(counters, usage).successes == plus(counters.successes, 1),
{
}

/// A planned route holds configured providers that are available, and only those.
pub proof fn law_planned_providers_are_available(
    ids: Seq<ProviderId>,
    controller: ControllerModel,
    now: u64,
    i: int,
)
    requires
        0 <= i < available_ids(ids, controller, now).len(),
    ensures
        route_available(controller, available_ids(ids, controller, now)[i]@, now),
        ids.contains(available_ids(ids, controller, now)[i]),
    decreases ids.len(),
{
    if ids.len() > 0 {
        let before = ids.drop_last();
        if i < available_ids(before, controller, now).len() {
            law_planned_providers_are_available(before, controller, now, i);
            let id = available_ids(before, controller, now)[i];
            let k = choose|k: int| 0 <= k < before.len() && before[k] == id;
            assert(ids[k] == id);
        } else {
            assert(ids[ids.len() - 1] == ids.last());
        }
    }
}

/// Three retryable failures without a success between them keep a provider from being asked for a
/// minute from the third on, and no earlier.
pub proof fn law_three_failures_block_for_a_minute(
    health: HealthModel,
    first: VoxError,
    second: VoxError,
    third: VoxError,
    times: (u64, u64, u64),
    at: u64,
)
    requires
        health.consecutive_failures == 0,
        health.blocked_until is None,
        first.retry(),
        second.retry(),
        third.retry(),
        times.2 + 60_000_000_000 <= u64::MAX,
    ensures
        ({
            let once = after_failure(health, times.0, first);
            let twice = after_failure(once, times.1, second);
            let thrice = after_failure(twice, times.2, third);
            &&& available_at(once, at)
            &&& available_at(twice, at)
            &&& available_at(thrice, at) <==> at >= times.2 + 60_000_000_000
            &&& thrice.consecutive_failures == 3
        }),
{
}

/// A failure is remembered with its time, its category and its code, and does not touch what is known
/// of the last success; a success is remembered with its time and does not touch what is known of
/// the last failure.
pub proof fn law_health_remembers(health: HealthModel, error: VoxError, now: u64)
    ensures
        after_failure(health, now, error).last_failure_at == Some(now),
        after_failure(health, now, error).last_error_category == Some(error.kind()),
        after_failure(health, now, error).last_error_code == Some(error.code_text()),
        after_failure(health, now, error).last_success_at == health.last_success_at,
        after_success(health, now).last_success_at == Some(now),
        after_success(health, now).last_failure_at == health.last_failure_at,
        after_success(health, now).last_error_category == health.last_error_category,
        after_success(health, now).last_error_code == health.last_error_code,
{
}

/// Of a provider of which nothing is known, nothing is held against it: it may be asked, and it is not
/// verified.
pub proof fn law_unknown_provider_may_be_asked(now: u64)
    ensures
        available_at(fresh_health(), now),
        !verified(fresh_health(), now),
        fresh_health().consecutive_failures == 0,
{
}

/// Elapsed time is told in whole seconds and never runs backwards.
pub proof fn law_seconds_are_whole(now: u64, then_at: u64)
    ensures
        now < then_at ==> seconds_since(now, then_at) == 0,
        now >= then_at ==> seconds_since(now, then_at) * 1_000_000_000 <= now - then_at < (
        seconds_since(now, then_at) + 1) * 1_000_000_000,
{
    if now >= then_at {
        let d = now - then_at;
        assert(d / 1_000_000_000 * 1_000_000_000 <= d < (d / 1_000_000_000 + 1) * 1_000_000_000)
            by (nonlinear_arith)
            requires
                d >= 0,
        ;
    }
}

/// What an attempt adds to the counters of its provider: one attempt; one request where a connection
/// was begun; the length of the recording where the recording may have left the machine; one failure
/// where it failed and was not cancelled; and nothing else.
pub proof fn law_attempt_is_accounted(
    counters: ProviderUsageSnapshot,
    attempt: RouteAttempt,
    audio_millis: u64,
)
    requires
        counters.attempts < u64::MAX,
        counters.requests < u64::MAX,
        counters.failures < u64::MAX,
        counters.audio_millis + audio_millis <= u64::MAX,
    ensures
        ({
            let after = with_attempt(counters, attempt, audio_millis);
            let failed = attempt.error is Some && attempt.error->0.kind()
                != ErrorCategory::Cancelled;
            &&& after.attempts == counters.attempts + 1
            &&& after.requests == counters.requests + (if attempt.transport_started {
                1int
            } else {
                0
            })
            &&& after.audio_millis == counters.audio_millis + (if attempt.audio_acceptance
                == crate::provider::AudioAcceptance::NotAccepted {
                0int
            } else {
                audio_millis as int
            })
            &&& after.failures == counters.failures + (if failed {
                1int
            } else {
                0
            })
            &&& after.successes == counters.successes
            &&& after.token_reports == counters.token_reports
            &&& after.input_tokens == counters.input_tokens
            &&& after.output_tokens == counters.output_tokens
            &&& after.total_tokens == counters.total_tokens
            &&& after.reported_tokens == counters.reported_tokens
        }),
{
}

/// What a success adds to the counters of its provider: one success and, where tokens were reported,
/// one report with each number that it holds; a report without a total amounts to its two parts. The
/// counters of attempts stay as they are.
pub proof fn law_success_is_accounted(
    counters: ProviderUsageSnapshot,
    usage: ProviderUsage,
    input: u64,
    output: u64,
    total: u64,
)
    requires
        counters.successes < u64::MAX,
        counters.token_reports < u64::MAX,
        counters.input_tokens + input <= u64::MAX,
        counters.output_tokens + output <= u64::MAX,
        counters.total_tokens + total <= u64::MAX,
        input + output <= u64::MAX,
        counters.reported_tokens + total <= u64::MAX,
        counters.reported_tokens + input + output <= u64::MAX,
        usage.input_tokens == Some(input) || usage.input_tokens is None && input == 0,
        usage.output_tokens == Some(output) || usage.output_tokens is None && output == 0,
        usage.total_tokens == Some(total) || usage.total_tokens is None && total == 0,
    ensures
        ({
            let after = with_report(counters, usage);
            let told = usage.input_tokens is Some || usage.output_tokens is Some
                || usage.total_tokens is Some;
            &&& after.successes == counters.successes + 1
            &&& after.token_reports == counters.token_reports + (if told {
                1int
            } else {
                0
            })
            &&& after.input_tokens == counters.input_tokens + input
            &&& after.output_tokens == counters.output_tokens + output
            &&& after.total_tokens == counters.total_tokens + total
            &&& after.reported_tokens == counters.reported_tokens + (
            if usage.total_tokens is Some {
                total as int
            } else {
                input + output
            })
            &&& after.attempts == counters.attempts
            &&& after.requests == counters.requests
            &&& after.failures == counters.failures
            &&& after.audio_millis == counters.audio_millis
        }),
{
}

/// A counter that would overflow stays at its greatest value.
pub proof fn law_counters_saturate(a: u64, b: u64)
    ensures
        a + b <= u64::MAX ==> plus(a, b) == a + b && later(a, b) == a + b,
        a + b > u64::MAX ==> plus(a, b) == u64::MAX && later(a, b) == u64::MAX,
{
}

/// A route leaves the accounts of every provider that it did not ask as they were.
pub proof fn law_route_leaves_others_alone(
    accounts: Accounts,
    result: RecognitionRouteResult,
    audio_millis: u64,
    now: u64,
    name: Seq<char>,
)
    requires
        forall|i: int|
            0 <= i < result.attempts@.len() ==> (#[trigger] result.attempts@[i]).provider_id@
                != name,
        result.outcome matches Ok(success) ==> success.provider_id@ != name,
    ensures
        health_in(settled(accounts, result, audio_millis, now), name) == health_in(accounts, name),
        usage_in(settled(accounts, result, audio_millis, now), name) == usage_in(accounts, name),
{
    lemma_others_uncharged(accounts, result.attempts@, audio_millis, now, name);
}

proof fn lemma_others_uncharged(
    accounts: Accounts,
    attempts: Seq<RouteAttempt>,
    audio_millis: u64,
    now: u64,
    name: Seq<char>,
)
    requires
        forall|i: int|
            0 <= i < attempts.len() ==> (#[trigger] attempts[i]).provider_id@ != name,
    ensures
        health_in(charged_all(accounts, attempts, audio_millis, now), name) == health_in(
            accounts,
            name,
        ),
        usage_in(charged_all(accounts, attempts, audio_millis, now), name) == usage_in(
            accounts,
            name,
        ),
    decreases attempts.len(),
{
    if attempts.len() > 0 {
        let before = attempts.drop_last();
        assert forall|i: int| 0 <= i < before.len() implies (#[trigger] before[i]).provider_id@
            != name by {
            assert(before[i] == attempts[i]);
        }
        lemma_others_uncharged(accounts, before, audio_millis, now, name);
        assert(attempts[attempts.len() - 1].provider_id@ != name);
    }
}

/// A route that succeeded leaves the provider that answered verified and available, with one success
/// more.
pub proof fn law_answering_provider_is_verified(
    accounts: Accounts,
    result: RecognitionRouteResult,
    audio_millis: u64,
    now: u64,
    at: u64,
)
    requires
        result.outcome is Ok,
    ensures
        ({
            let name = result.outcome->Ok_0.provider_id@;
            let after = settled(accounts, result, audio_millis, now);
            &&& health_in(after, name).last_success_at == Some(now)
            &&& health_in(after, name).consecutive_failures == 0
            &&& available_at(health_in(after, name), at)
            &&& usage_in(accounts, name).successes < u64::MAX ==> usage_in(after, name).successes
                == usage_in(accounts, name).successes + 1
        }),
{
    lemma_attempts_leave_successes(
        accounts,
        result.attempts@,
        audio_millis,
        now,
        result.outcome->Ok_0.provider_id@,
    );
}

proof fn lemma_attempts_leave_successes(
    accounts: Accounts,
    attempts: Seq<RouteAttempt>,
    audio_millis: u64,
    now: u64,
    name: Seq<char>,
)
    ensures
        usage_in(charged_all(accounts, attempts, audio_millis, now), name).successes == usage_in(
            accounts,
            name,
        ).successes,
    decreases attempts.len(),
{
    if attempts.len() > 0 {
        lemma_attempts_leave_successes(accounts, attempts.drop_last(), audio_millis, now, name);
    }
}

/// A recorded result takes the place of the one of its session and leaves every other result where it
/// can be found; where 32 other results stand, the oldest one makes room.
pub proof fn law_other_results_stay(
    results: Seq<ResultModel>,
    result: ResultModel,
    session: Seq<char>,
)
    requires
        session != result.session,
    ensures
        results.len() < 32 ==> latest_result(with_result(results, result), session)
            == latest_result(results, session),
        results.len() == 32 && (forall|i: int|
            0 <= i < 32 ==> (#[trigger] results[i]).session != result.session) ==> with_result(
            results,
            result,
        ) == results.skip(1).push(result),
{
    let others = without_session(results, result.session);
    lemma_without_session_length(results, result.session);
    if results.len() < 32 {
        lemma_found_without(results, result.session, session);
        assert(with_result(results, result).drop_last() =~= others);
    }
    if results.len() == 32 && (forall|i: int|
        0 <= i < 32 ==> (#[trigger] results[i]).session != result.session) {
        lemma_nothing_to_leave_out(results, result.session);
    }
}

proof fn lemma_without_session_length(results: Seq<ResultModel>, session: Seq<char>)
    ensures
        without_session(results, session).len() <= results.len(),
    decreases results.len(),
{
    if results.len() > 0 {
        lemma_without_session_length(results.skip(1), session);
    }
}

proof fn lemma_nothing_to_leave_out(results: Seq<ResultModel>, session: Seq<char>)
    requires
        forall|i: int| 0 <= i < results.len() ==> (#[trigger] results[i]).session != session,
    ensures
        without_session(results, session) == results,
    decreases results.len(),
{
    if results.len() > 0 {
        let rest = results.skip(1);
        assert forall|i: int| 0 <= i < rest.len() implies (#[trigger] rest[i]).session
            != session by {
            assert(rest[i] == results[i + 1]);
        }
        lemma_nothing_to_leave_out(rest, session);
        assert(without_session(results, session) =~= results);
    }
}

proof fn lemma_found_in_front(first: ResultModel, rest: Seq<ResultModel>, session: Seq<char>)
    ensures
        latest_result(seq![first] + rest, session) == (if latest_result(rest, session) is Some {
            latest_result(rest, session)
        } else if first.session == session {
            Some(first)
        } else {
            None
        }),
    decreases rest.len(),
{
    let whole = seq![first] + rest;
    if rest.len() > 0 {
        lemma_found_in_front(first, rest.drop_last(), session);
        assert(whole.drop_last() =~= seq![first] + rest.drop_last());
        assert(whole.last() == rest.last());
    } else {
        assert(whole.drop_last() =~= Seq::<ResultModel>::empty());
        assert(whole.last() == first);
        assert(latest_result(whole.drop_last(), session) is None);
    }
}

proof fn lemma_found_without(results: Seq<ResultModel>, left_out: Seq<char>, session: Seq<char>)
    requires
        session != left_out,
    ensures
        latest_result(without_session(results, left_out), session) == latest_result(
            results,
            session,
        ),
    decreases results.len(),
{
    if results.len() > 0 {
        let rest = results.skip(1);
        assert(results =~= seq![results[0]] + rest);
        lemma_found_in_front(results[0], rest, session);
        if results[0].session != left_out {
            lemma_found_without(rest, left_out, session);
            lemma_found_in_front(results[0], without_session(rest, left_out), session);
        }
    }
}

/// The three commands that end a session early are told with their outcome: cancelled, no-speech, or
/// failed with the code of the error. No other command ends a session with a result of its own.
pub proof fn law_endings_are_told(
    controller: ControllerModel,
    state: SessionState,
    session: SessionId,
    error: VoxError,
    command: Command,
)
    ensures
        published(controller, state, (Command::Cancel { session })).events.last()
            == AppEventModel::SessionFinished(
            ResultModel {
                session: session@,
                outcome: "cancelled"@,
                error_code: ""@,
                backend: ""@,
                char_count: 0,
            },
        ),
        published(controller, state, (Command::NoSpeech { session })).events.last()
            == AppEventModel::SessionFinished(
            ResultModel {
                session: session@,
                outcome: "no-speech"@,
                error_code: ""@,
                backend: ""@,
                char_count: 0,
            },
        ),
        published(controller, state, (Command::Fail { session, error })).events.last()
            == AppEventModel::SessionFinished(
            ResultModel {
                session: session@,
                outcome: "failed"@,
                error_code: error.code_text(),
                backend: ""@,
                char_count: 0,
            },
        ),
        !(command is Cancel) && !(command is NoSpeech) && !(command is Fail) ==> {
            &&& published(controller, state, command).events == controller.events.push(
                AppEventModel::StateChanged(
                    state.word(),
                    if state.owner() is Some {
                        state.owner()->0@
                    } else {
                        Seq::empty()
                    },
                ),
            )
            &&& published(controller, state, command).results == controller.results
        },
        published(controller, state, command).accounts == controller.accounts,
        published(controller, state, command).registry == controller.registry,
{
}

/// Every configured provider that has an adapter and is not left alone is planned, and two planned
/// providers stand in the order in which they are configured.
pub proof fn law_available_providers_are_planned(
    ids: Seq<ProviderId>,
    controller: ControllerModel,
    now: u64,
    i: int,
)
    requires
        0 <= i < ids.len(),
        controller.registry.contains_key(ids[i]@),
        !controller.accounts.health.contains_key(ids[i]@)
            || controller.accounts.health[ids[i]@].blocked_until is None
            || controller.accounts.health[ids[i]@].blocked_until->0 <= now,
    ensures
        available_ids(ids, controller, now).contains(ids[i]),
        available_ids(ids, controller, now) == available_ids(ids.take(i), controller, now).push(
            ids[i],
        ) + available_ids(ids.skip(i + 1), controller, now),
{
    lemma_available_split(ids, controller, now, i + 1);
    assert(ids.take(i + 1).drop_last() =~= ids.take(i));
    assert(ids.take(i + 1).last() == ids[i]);
    let front = available_ids(ids.take(i), controller, now);
    let all = available_ids(ids, controller, now);
    assert(all[front.len() as int] == ids[i]);
}

proof fn lemma_available_split(
    ids: Seq<ProviderId>,
    controller: ControllerModel,
    now: u64,
    n: int,
)
    requires
        0 <= n <= ids.len(),
    ensures
        available_ids(ids, controller, now) == available_ids(ids.take(n), controller, now)
            + available_ids(ids.skip(n), controller, now),
    decreases ids.len(),
{
    if n == ids.len() {
        assert(ids.take(n) =~= ids);
        assert(ids.skip(n) =~= Seq::<ProviderId>::empty());
        assert(available_ids(ids.skip(n), controller, now) =~= Seq::<ProviderId>::empty());
        assert(available_ids(ids, controller, now) =~= available_ids(ids.take(n), controller, now)
            + available_ids(ids.skip(n), controller, now));
    } else {
        let before = ids.drop_last();
        lemma_available_split(before, controller, now, n);
        assert(before.take(n) =~= ids.take(n));
        assert(before.skip(n) =~= ids.skip(n).drop_last());
        assert(ids.skip(n).last() == ids.last());
        assert(available_ids(ids, controller, now) =~= available_ids(ids.take(n), controller, now)
            + available_ids(ids.skip(n), controller, now));
    }
}

} // verus!
