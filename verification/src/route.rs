//! Provider registry and privacy-aware route execution.

use crate::cancellation::CancellationToken;
use crate::error::{ErrorCategory, VoxError};
use crate::provider::{
    AudioAcceptance, ProviderAttemptFailure, ProviderCapabilities, ProviderId,
};
use crate::routing::{may_fallback, replay_allowed, FallbackReason, ReplayPolicy, RoutePlan};
use crate::table::Table;
use crate::text::{blank, is_blank, join3};
use std::sync::Arc;
use vstd::prelude::*;
use vstd::string::*;

verus! {

/// Provider-neutral usage reported authoritatively by one recognition service.
#[derive(Clone, Copy, Debug, Eq, PartialEq)]
pub struct ProviderUsage {
    pub input_tokens: Option<u64>,
    pub output_tokens: Option<u64>,
    pub total_tokens: Option<u64>,
}

impl Default for ProviderUsage {
    fn default() -> (usage: Self)
        ensures
            usage.input_tokens is None,
            usage.output_tokens is None,
            usage.total_tokens is None,
    {
        ProviderUsage { input_tokens: None, output_tokens: None, total_tokens: None }
    }
}

/// Final provider output accepted by the application boundary.
#[derive(Debug, Eq, PartialEq)]
pub struct ProviderTranscript {
    pub text: String,
    pub usage: ProviderUsage,
}

impl Clone for ProviderTranscript {
    fn clone(&self) -> (r: Self)
        ensures
            r == *self,
    {
        ProviderTranscript { text: self.text.clone(), usage: self.usage }
    }
}

/// Successful provider attempt together with audio-disclosure evidence.
#[derive(Debug, Eq, PartialEq)]
pub struct ProviderSuccess {
    pub transcript: ProviderTranscript,
    pub transport_started: bool,
    pub audio_acceptance: AudioAcceptance,
}

impl Clone for ProviderSuccess {
    fn clone(&self) -> (r: Self)
        ensures
            r == *self,
    {
        ProviderSuccess {
            transcript: self.transcript.clone(),
            transport_started: self.transport_started,
            audio_acceptance: self.audio_acceptance,
        }
    }
}

/// Runtime-neutral recorded-audio recognition input.
#[derive(Clone, Copy, Debug)]
pub struct RecognitionInput<'a> {
    pub pcm_path: &'a str,
    pub language: &'a str,
}

/// The one runtime contract used by application orchestration.
///
/// Concrete adapters own credentials, transport setup, codecs, and response parsing. They are to
/// return conservative audio-acceptance evidence on every failure so that replay consent can be
/// enforced.
pub trait ProviderAdapter: Send + Sync {
    /// The provider goes by this name. One that does not say may go by any.
    open spec fn goes_by(&self, name: Seq<char>) -> bool {
        true
    }

    fn id(&self) -> (r: &ProviderId)
        ensures
            self.goes_by(r@),
    ;

    fn capabilities(&self) -> ProviderCapabilities;

    /// The provider may answer `r` to the input. Which answers those are is each provider's own;
    /// one that does not say may answer anything.
    open spec fn may_answer(
        &self,
        input: RecognitionInput<'_>,
        cancellation: &CancellationToken,
        r: Result<ProviderSuccess, ProviderAttemptFailure>,
    ) -> bool {
        true
    }

    /// Recognizes one recorded PCM input, or fails with transport and audio-acceptance evidence.
    fn recognize(&self, input: RecognitionInput<'_>, cancellation: &CancellationToken) -> (r:
        Result<ProviderSuccess, ProviderAttemptFailure>)
        ensures
            self.may_answer(input, cancellation, r),
    ;
}

/// A shared adapter.
pub struct SharedAdapter {
    pub adapter: Arc<Box<dyn ProviderAdapter>>,
}

impl Clone for SharedAdapter {
    fn clone(&self) -> (r: Self)
        ensures
            r == *self,
    {
        SharedAdapter { adapter: self.adapter.clone() }
    }
}

/// Composed provider instances by their identifiers.
pub struct ProviderRegistry {
    adapters: Table<SharedAdapter>,
}

impl ProviderRegistry {
    /// The adapters by the names of their providers.
    pub closed spec fn view(&self) -> Map<Seq<char>, SharedAdapter> {
        self.adapters.contents()
    }

    pub fn new() -> (registry: Self)
        ensures
            registry@ == Map::<Seq<char>, SharedAdapter>::empty(),
    {
        ProviderRegistry { adapters: Table::new() }
    }

    /// What a registration under the name `id` does and returns.
    pub open spec fn registers(
        before: Map<Seq<char>, SharedAdapter>,
        id: Seq<char>,
        adapter: SharedAdapter,
        after: Map<Seq<char>, SharedAdapter>,
        r: Result<(), VoxError>,
    ) -> bool {
        match r {
            Ok(_) => !before.contains_key(id) && after == before.insert(id, adapter),
            Err(error) => {
                &&& before.contains_key(id)
                &&& after == before
                &&& error.says(
                    ErrorCategory::Configuration,
                    "provider.duplicate_registration"@,
                    "provider "@ + id + " is already registered"@,
                    false,
                )
            },
        }
    }

    /// Registers an adapter under an identifier that is not taken.
    pub fn register_as(&mut self, id: ProviderId, adapter: SharedAdapter) -> (r: Result<
        (),
        VoxError,
    >)
        ensures
            Self::registers(old(self)@, id@, adapter, final(self)@, r),
    {
        if self.adapters.contains(id.as_str()) {
            let message = join3("provider ", id.as_str(), " is already registered");
            return Err(
                VoxError::new(
                    ErrorCategory::Configuration,
                    "provider.duplicate_registration",
                    message.as_str(),
                ),
            );
        }
        self.adapters.set(String::from_str(id.as_str()), adapter);
        Ok(())
    }

    /// Registers one composed adapter under the identifier that it gives itself.
    pub fn register(&mut self, adapter: SharedAdapter) -> (r: Result<(), VoxError>)
        ensures
            exists|id: Seq<char>|
                adapter.adapter.goes_by(id) && #[trigger] Self::registers(
                    old(self)@,
                    id,
                    adapter,
                    final(self)@,
                    r,
                ),
    {
        let id = adapter.adapter.id().clone();
        let ghost name = id@;
        let r = self.register_as(id, adapter);
        assert(Self::registers(old(self)@, name, adapter, self@, r));
        r
    }

    pub fn get(&self, id: &ProviderId) -> (r: Option<&SharedAdapter>)
        ensures
            match r {
                Some(adapter) => self@.contains_key(id@) && *adapter == self@[id@],
                None => !self@.contains_key(id@),
            },
    {
        self.adapters.get(id.as_str())
    }

    pub fn contains(&self, id: &ProviderId) -> (r: bool)
        ensures
            r == self@.contains_key(id@),
    {
        self.adapters.contains(id.as_str())
    }

    /// The names of the providers, in their order.
    pub fn ids(&self) -> (names: Vec<String>)
        ensures
            forall|i: int, j: int|
                0 <= i < j < names@.len() ==> crate::table::text_before(
                    (#[trigger] names@[i])@,
                    (#[trigger] names@[j])@,
                ),
            forall|i: int| 0 <= i < names@.len() ==> self@.contains_key((#[trigger] names@[i])@),
            forall|name: Seq<char>|
                self@.contains_key(name) ==> exists|i: int|
                    0 <= i < names@.len() && #[trigger] names@[i]@ == name,
    {
        let mut names: Vec<String> = Vec::new();
        let ghost rows = self.adapters.rows();
        let total: usize = self.adapters.len();
        for i in 0..total
            invariant
                rows == self.adapters.rows(),
                total == rows.len(),
                names@.len() == i,
                forall|j: int| 0 <= j < i ==> (#[trigger] names@[j])@ == rows[j].0,
        {
            names.push(String::from_str(self.adapters.name_at(i)));
        }
        proof {
            assert forall|i: int| 0 <= i < names@.len() implies self@.contains_key(
                (#[trigger] names@[i])@,
            ) by {
                assert(rows[i].0 == names@[i]@);
            }
            assert forall|name: Seq<char>| self@.contains_key(name) implies exists|i: int|
                0 <= i < names@.len() && #[trigger] names@[i]@ == name by {
                let i = self.adapters.position_of(name);
                assert(names@[i]@ == name);
            }
        }
        names
    }

    pub fn is_empty(&self) -> (r: bool)
        ensures
            r == (self@ == Map::<Seq<char>, SharedAdapter>::empty()),
    {
        let empty = self.adapters.is_empty();
        proof {
            if empty {
                assert(self@ =~= Map::<Seq<char>, SharedAdapter>::empty());
            } else {
                let name = self.adapters.rows()[0].0;
                assert(self.adapters.has(name));
                assert(self@.contains_key(name));
            }
        }
        empty
    }
}

impl Clone for ProviderRegistry {
    fn clone(&self) -> (r: Self)
        ensures
            r@ == self@,
    {
        let mut copy = ProviderRegistry::new();
        let ghost rows = self.adapters.rows();
        let total: usize = self.adapters.len();
        for i in 0..total
            invariant
                rows == self.adapters.rows(),
                total == rows.len(),
                Table::<SharedAdapter>::ordered(rows),
                forall|name: Seq<char>| #[trigger]
                    copy@.contains_key(name) ==> self@.contains_key(name) && copy@[name]
                        == self@[name],
                forall|j: int| 0 <= j < i ==> copy@.contains_key((#[trigger] rows[j]).0),
        {
            let name = String::from_str(self.adapters.name_at(i));
            let adapter = self.adapters.value_at(i).clone();
            proof {
                assert(rows[i as int].0 == name@);
                Table::<SharedAdapter>::lemma_one_position(
                    rows,
                    i as int,
                    self.adapters.position_of(name@),
                );
                assert(self@.contains_key(name@) && self@[name@] == adapter);
            }
            let ghost before = copy@;
            let ghost key = name@;
            copy.adapters.set(name, adapter);
            assert(copy@ == before.insert(key, adapter));
        }
        proof {
            assert forall|name: Seq<char>| self@.contains_key(name) implies copy@.contains_key(
                name,
            ) by {
                let i = self.adapters.position_of(name);
                assert(copy@.contains_key(rows[i].0));
            }
            assert(copy@ =~= self@);
        }
        copy
    }
}

/// Lifecycle evidence retained for every provider attempted by a route.
#[derive(Debug, Eq, PartialEq)]
pub struct RouteAttempt {
    pub provider_id: ProviderId,
    pub transport_started: bool,
    pub audio_acceptance: AudioAcceptance,
    pub error: Option<VoxError>,
}

/// Successful routed recognition.
#[derive(Debug, Eq, PartialEq)]
pub struct RecognitionSuccess {
    pub provider_id: ProviderId,
    pub transcript: ProviderTranscript,
}

/// Complete route result, including failed attempts for health and usage accounting.
#[derive(Debug, Eq, PartialEq)]
pub struct RecognitionRouteResult {
    pub attempts: Vec<RouteAttempt>,
    pub outcome: Result<RecognitionSuccess, VoxError>,
}

/// What came of one provider of a route.
#[derive(Debug)]
pub enum Answer {
    /// The work was cancelled before the provider was asked.
    Cancelled,
    /// The provider has no adapter.
    Unregistered,
    Recognized(ProviderSuccess),
    Failed(ProviderAttemptFailure),
}

/// The reason for which a failure of this category may lead to another provider.
pub open spec fn reason_of(category: ErrorCategory) -> Option<FallbackReason> {
    match category {
        ErrorCategory::Connection => Some(FallbackReason::Connection),
        ErrorCategory::Timeout => Some(FallbackReason::Timeout),
        ErrorCategory::RateLimited => Some(FallbackReason::RateLimited),
        ErrorCategory::Unavailable => Some(FallbackReason::Unavailable),
        _ => None,
    }
}

pub fn fallback_reason(category: ErrorCategory) -> (r: Option<FallbackReason>)
    ensures
        r == reason_of(category),
{
    match category {
        ErrorCategory::Connection => Some(FallbackReason::Connection),
        ErrorCategory::Timeout => Some(FallbackReason::Timeout),
        ErrorCategory::RateLimited => Some(FallbackReason::RateLimited),
        ErrorCategory::Unavailable => Some(FallbackReason::Unavailable),
        _ => None,
    }
}

/// A failure that may be followed by the next provider: it is transient, and the audio may go to
/// another one.
pub open spec fn may_follow(failure: ProviderAttemptFailure, replay: ReplayPolicy) -> bool {
    &&& failure.error.retry()
    &&& reason_of(failure.error.kind()) is Some
    &&& replay_allowed(failure.audio_acceptance, replay)
}

/// The route goes on after the answer.
pub open spec fn continues(answer: Answer, replay: ReplayPolicy) -> bool {
    match answer {
        Answer::Failed(failure) => may_follow(failure, replay),
        _ => false,
    }
}

/// The error that an answer stands for.
pub open spec fn tells(error: VoxError, id: Seq<char>, answer: Answer) -> bool {
    match answer {
        Answer::Cancelled => error.says(
            ErrorCategory::Cancelled,
            "provider.cancelled"@,
            "provider work was cancelled"@,
            false,
        ),
        Answer::Unregistered => error.says(
            ErrorCategory::Configuration,
            "provider.not_registered"@,
            "provider "@ + id + " has no runtime adapter"@,
            false,
        ),
        Answer::Recognized(success) => blank(success.transcript.text@) && error.says(
            ErrorCategory::Protocol,
            "provider.empty_transcript"@,
            "provider returned an empty final transcript"@,
            false,
        ),
        Answer::Failed(failure) => error == failure.error,
    }
}

/// A recognition with a text.
pub open spec fn succeeds(answer: Answer) -> bool {
    answer matches Answer::Recognized(success) && !blank(success.transcript.text@)
}

/// The attempt that an answer is kept as.
pub open spec fn records(attempt: RouteAttempt, id: ProviderId, answer: Answer) -> bool {
    &&& attempt.provider_id == id
    &&& attempt.transport_started == (match answer {
        Answer::Recognized(success) => success.transport_started,
        Answer::Failed(failure) => failure.transport_started,
        _ => false,
    })
    &&& attempt.audio_acceptance == (match answer {
        Answer::Recognized(success) => success.audio_acceptance,
        Answer::Failed(failure) => failure.audio_acceptance,
        _ => AudioAcceptance::NotAccepted,
    })
    &&& match attempt.error {
        None => succeeds(answer),
        Some(error) => !succeeds(answer) && tells(error, id@, answer),
    }
}

/// What the last answer makes of the route.
pub open spec fn concludes(
    outcome: Result<RecognitionSuccess, VoxError>,
    id: ProviderId,
    answer: Answer,
) -> bool {
    match outcome {
        Ok(success) => {
            &&& succeeds(answer)
            &&& success.provider_id == id
            &&& success.transcript == answer->Recognized_0.transcript
        },
        Err(error) => !succeeds(answer) && tells(error, id@, answer),
    }
}

/// The result follows from the answers of the first providers of a route.
pub open spec fn follows(
    result: RecognitionRouteResult,
    route: RoutePlan,
    answers: Seq<Answer>,
) -> bool {
    let asked = answers.len();
    let kept = result.attempts@.len();
    &&& asked <= route.providers@.len()
    &&& forall|i: int| 0 <= i < asked - 1 ==> continues(#[trigger] answers[i], route.replay)
    &&& asked < route.providers@.len() ==> asked > 0 && !continues(answers.last(), route.replay)
    &&& kept == (if asked > 0 && answers.last() is Cancelled {
        asked - 1
    } else {
        asked as int
    })
    &&& forall|i: int|
        0 <= i < kept ==> records(
            #[trigger] result.attempts@[i],
            route.providers@[i],
            answers[i],
        )
    &&& if asked > 0 {
        concludes(result.outcome, route.providers@[asked - 1], answers.last())
    } else {
        result.outcome matches Err(error) && error.says(
            ErrorCategory::Unavailable,
            "provider.no_route"@,
            "no provider was attempted"@,
            false,
        )
    }
}

/// An answer that a registry can give: a provider without adapter is never asked, and one with
/// an adapter is never called unregistered. What stands for a provider's answer is one that its
/// own adapter may give to this input.
pub open spec fn fits_registry(
    answer: Answer,
    id: ProviderId,
    registered: Map<Seq<char>, SharedAdapter>,
    input: RecognitionInput<'_>,
    cancellation: &CancellationToken,
) -> bool {
    match answer {
        Answer::Cancelled => true,
        Answer::Unregistered => !registered.contains_key(id@),
        Answer::Recognized(success) => {
            &&& registered.contains_key(id@)
            &&& registered[id@].adapter.may_answer(input, cancellation, Ok(success))
        },
        Answer::Failed(failure) => {
            &&& registered.contains_key(id@)
            &&& registered[id@].adapter.may_answer(input, cancellation, Err(failure))
        },
    }
}

/// What one answer adds to a route.
#[derive(Debug)]
pub struct RouteStep {
    /// The attempt to be kept, if the provider was attempted.
    pub attempt: Option<RouteAttempt>,
    /// What the route ends with if it ends here.
    pub outcome: Result<RecognitionSuccess, VoxError>,
    pub goes_on: bool,
}

fn cancelled_error() -> (error: VoxError)
    ensures
        error.says(
            ErrorCategory::Cancelled,
            "provider.cancelled"@,
            "provider work was cancelled"@,
            false,
        ),
{
    VoxError::new(
        ErrorCategory::Cancelled,
        "provider.cancelled",
        "provider work was cancelled",
    )
}

fn failed_step(
    provider_id: &ProviderId,
    transport_started: bool,
    audio_acceptance: AudioAcceptance,
    error: VoxError,
    goes_on: bool,
) -> (step: RouteStep)
    ensures
        step.attempt == Some(
            RouteAttempt {
                provider_id: *provider_id,
                transport_started,
                audio_acceptance,
                error: Some(error),
            },
        ),
        step.outcome == Err::<RecognitionSuccess, VoxError>(error),
        step.goes_on == goes_on,
{
    RouteStep {
        attempt: Some(
            RouteAttempt {
                provider_id: provider_id.clone(),
                transport_started,
                audio_acceptance,
                error: Some(error.clone()),
            },
        ),
        outcome: Err(error),
        goes_on,
    }
}

/// Decides what an answer of a provider means for its route.
pub fn route_step(provider_id: &ProviderId, replay: ReplayPolicy, answer: Answer) -> (step:
    RouteStep)
    ensures
        step.goes_on == continues(answer, replay),
        concludes(step.outcome, *provider_id, answer),
        match step.attempt {
            Some(attempt) => !(answer is Cancelled) && records(attempt, *provider_id, answer),
            None => answer is Cancelled,
        },
{
    match answer {
        Answer::Cancelled => RouteStep {
            attempt: None,
            outcome: Err(cancelled_error()),
            goes_on: false,
        },
        Answer::Unregistered => {
            let message = join3("provider ", provider_id.as_str(), " has no runtime adapter");
            let error = VoxError::new(
                ErrorCategory::Configuration,
                "provider.not_registered",
                message.as_str(),
            );
            failed_step(provider_id, false, AudioAcceptance::NotAccepted, error, false)
        },
        Answer::Recognized(success) => {
            if is_blank(success.transcript.text.as_str()) {
                let error = VoxError::new(
                    ErrorCategory::Protocol,
                    "provider.empty_transcript",
                    "provider returned an empty final transcript",
                );
                return failed_step(
                    provider_id,
                    success.transport_started,
                    success.audio_acceptance,
                    error,
                    false,
                );
            }
            RouteStep {
                attempt: Some(
                    RouteAttempt {
                        provider_id: provider_id.clone(),
                        transport_started: success.transport_started,
                        audio_acceptance: success.audio_acceptance,
                        error: None,
                    },
                ),
                outcome: Ok(
                    RecognitionSuccess {
                        provider_id: provider_id.clone(),
                        transcript: success.transcript,
                    },
                ),
                goes_on: false,
            }
        },
        Answer::Failed(failure) => {
            let retryable = failure.error.is_retryable();
            let allowed = match fallback_reason(failure.error.category()) {
                Some(reason) => may_fallback(reason, failure.audio_acceptance, replay),
                None => false,
            };
            failed_step(
                provider_id,
                failure.transport_started,
                failure.audio_acceptance,
                failure.error,
                retryable && allowed,
            )
        },
    }
}

/// Asks one provider of a route, with what was seen of cancellation before it.
fn ask(
    registry: &ProviderRegistry,
    provider_id: &ProviderId,
    input: RecognitionInput<'_>,
    cancellation: &CancellationToken,
    is_cancelled: bool,
) -> (answer: Answer)
    ensures
        (answer is Cancelled) == is_cancelled,
        fits_registry(answer, *provider_id, registry@, input, cancellation),
{
    if is_cancelled {
        return Answer::Cancelled;
    }
    match registry.get(provider_id) {
        None => Answer::Unregistered,
        Some(provider) => match provider.adapter.recognize(input, cancellation) {
            Ok(success) => Answer::Recognized(success),
            Err(failure) => Answer::Failed(failure),
        },
    }
}

/// Executes providers in route order while enforcing replay consent.
///
/// What a provider answers is its own; the result follows from the answers of the providers in
/// their order, up to the first one after which the route does not go on.
pub fn run_recognition_route(
    registry: &ProviderRegistry,
    route: &RoutePlan,
    input: RecognitionInput<'_>,
    cancellation: &CancellationToken,
) -> (result: RecognitionRouteResult)
    ensures
        exists|answers: Seq<Answer>| #[trigger]
            follows(result, *route, answers) && forall|i: int|
                0 <= i < answers.len() ==> fits_registry(
                    #[trigger] answers[i],
                    route.providers@[i],
                    registry@,
                    input,
                    cancellation,
                ),
{
    let mut attempts: Vec<RouteAttempt> = Vec::new();
    let ghost mut answers: Seq<Answer> = Seq::empty();
    let mut outcome: Result<RecognitionSuccess, VoxError> = Err(
        VoxError::new(
            ErrorCategory::Unavailable,
            "provider.no_route",
            "no provider was attempted",
        ),
    );
    let mut i: usize = 0;
    let mut open = true;
    while open && i < route.providers.len()
        invariant
            i <= route.providers@.len(),
            answers.len() == i,
            open ==> attempts@.len() == i,
            open ==> forall|k: int|
                0 <= k < i ==> continues(#[trigger] answers[k], route.replay),
            follows(
                RecognitionRouteResult { attempts, outcome },
                *route,
                answers,
            ) || (open && i < route.providers@.len()),
            forall|k: int| 0 <= k < i ==> fits_registry(
                #[trigger] answers[k],
                route.providers@[k],
                registry@,
                input,
                cancellation,
            ),
            forall|k: int| 0 <= k < attempts@.len() ==> records(
                #[trigger] attempts@[k],
                route.providers@[k],
                answers[k],
            ),
            i > 0 ==> concludes(outcome, route.providers@[i - 1], answers.last()),
            i == 0 ==> outcome is Err && outcome->Err_0.says(
                ErrorCategory::Unavailable,
                "provider.no_route"@,
                "no provider was attempted"@,
                false,
            ),
        decreases route.providers@.len() - i,
    {
        let provider_id = &route.providers[i];
        let is_cancelled = cancellation.is_cancelled();
        let answer = ask(registry, provider_id, input, cancellation, is_cancelled);
        let ghost given = answer;
        let step = route_step(provider_id, route.replay, answer);
        match step.attempt {
            Some(attempt) => {
                attempts.push(attempt);
            },
            None => {},
        }
        outcome = step.outcome;
        open = step.goes_on;
        proof {
            answers = answers.push(given);
        }
        i += 1;
    }
    let result = RecognitionRouteResult { attempts, outcome };
    assert(follows(result, *route, answers));
    result
}

/// Another provider is asked only after a transient failure whose audio may be replayed: audio
/// that may have left the process goes to a second provider only with consent.
pub proof fn law_route_replays_only_with_consent(
    result: RecognitionRouteResult,
    route: RoutePlan,
    answers: Seq<Answer>,
    i: int,
)
    requires
        follows(result, route, answers),
        0 <= i < result.attempts@.len() - 1,
    ensures
        result.attempts@[i].error is Some,
        result.attempts@[i].error->0.retry(),
        replay_allowed(result.attempts@[i].audio_acceptance, route.replay),
        result.attempts@[i].audio_acceptance.may_have_left() ==> route.replay
            == ReplayPolicy::BufferedWithConsent,
{
    assert(continues(answers[i], route.replay));
    assert(records(result.attempts@[i], route.providers@[i], answers[i]));
}

/// The attempts are those of the first providers of the route, in their order.
pub proof fn law_attempts_keep_the_route_order(
    result: RecognitionRouteResult,
    route: RoutePlan,
    answers: Seq<Answer>,
    i: int,
)
    requires
        follows(result, route, answers),
        0 <= i < result.attempts@.len(),
    ensures
        i < route.providers@.len(),
        result.attempts@[i].provider_id == route.providers@[i],
{
    assert(records(result.attempts@[i], route.providers@[i], answers[i]));
}

/// A successful route ends with its only successful attempt, and its text is not blank.
pub proof fn law_success_ends_the_route(
    result: RecognitionRouteResult,
    route: RoutePlan,
    answers: Seq<Answer>,
)
    requires
        follows(result, route, answers),
        result.outcome is Ok,
    ensures
        !blank(result.outcome->Ok_0.transcript.text@),
        result.attempts@.len() > 0,
        result.attempts@.last().error is None,
        result.attempts@.last().provider_id == result.outcome->Ok_0.provider_id,
        forall|i: int|
            0 <= i < result.attempts@.len() - 1 ==> (#[trigger] result.attempts@[i]).error is Some,
{
    let last = result.attempts@.len() - 1;
    assert(records(result.attempts@[last], route.providers@[last], answers[last]));
    assert forall|i: int| 0 <= i < last implies (#[trigger] result.attempts@[i]).error is Some by {
        law_route_replays_only_with_consent(result, route, answers, i);
    }
}

/// A route that was cancelled before its first provider asks none.
pub proof fn law_cancelled_route_asks_nobody(
    result: RecognitionRouteResult,
    route: RoutePlan,
    answers: Seq<Answer>,
)
    requires
        follows(result, route, answers),
        answers.len() > 0,
        answers[0] is Cancelled,
    ensures
        result.attempts@.len() == 0,
        result.outcome is Err,
        result.outcome->Err_0.kind() == ErrorCategory::Cancelled,
{
    if answers.len() > 1 {
        assert(continues(answers[0], route.replay));
    }
}

/// A transient failure is followed by the next provider, unless the route was cancelled: the error
/// may be retried, its category is one of a passing disturbance, and no audio was accepted or
/// replaying it has consent. Nothing else that is known of the attempt decides.
pub proof fn law_transient_failure_is_followed(
    result: RecognitionRouteResult,
    route: RoutePlan,
    answers: Seq<Answer>,
    i: int,
)
    requires
        follows(result, route, answers),
        0 <= i < result.attempts@.len(),
        i + 1 < route.providers@.len(),
        result.attempts@[i].error is Some,
        result.attempts@[i].error->0.retry(),
        ({
            let kind = result.attempts@[i].error->0.kind();
            kind == ErrorCategory::Connection || kind == ErrorCategory::Timeout || kind
                == ErrorCategory::RateLimited || kind == ErrorCategory::Unavailable
        }),
        result.attempts@[i].audio_acceptance == AudioAcceptance::NotAccepted || route.replay
            == ReplayPolicy::BufferedWithConsent,
    ensures
        i + 1 < result.attempts@.len() || (i + 1 == result.attempts@.len() && result.outcome is Err
            && result.outcome->Err_0.kind() == ErrorCategory::Cancelled),
        i + 1 < result.attempts@.len() ==> result.attempts@[i + 1].provider_id
            == route.providers@[i + 1],
{
    assert(records(result.attempts@[i], route.providers@[i], answers[i]));
    assert(continues(answers[i], route.replay));
    if i + 1 < result.attempts@.len() {
        assert(records(result.attempts@[i + 1], route.providers@[i + 1], answers[i + 1]));
    }
}

/// A route goes on only behind a transient failure: every attempt but the last failed with an error
/// that may be retried and has the category of a passing disturbance, with no audio accepted unless
/// replaying it has consent.
pub proof fn law_only_transient_failures_are_followed(
    result: RecognitionRouteResult,
    route: RoutePlan,
    answers: Seq<Answer>,
    i: int,
)
    requires
        follows(result, route, answers),
        0 <= i < result.attempts@.len() - 1,
    ensures
        result.attempts@[i].error is Some,
        result.attempts@[i].error->0.retry(),
        ({
            let kind = result.attempts@[i].error->0.kind();
            kind == ErrorCategory::Connection || kind == ErrorCategory::Timeout || kind
                == ErrorCategory::RateLimited || kind == ErrorCategory::Unavailable
        }),
        result.attempts@[i].audio_acceptance == AudioAcceptance::NotAccepted || route.replay
            == ReplayPolicy::BufferedWithConsent,
{
    assert(continues(answers[i], route.replay));
    assert(records(result.attempts@[i], route.providers@[i], answers[i]));
}

/// The result of a route is that of its last attempt: a text that is not blank from a provider that
/// recognized it, or the error of that attempt; a route that was cancelled before another attempt
/// says so. The first provider of a route is asked unless the route was cancelled.
pub proof fn law_route_ends_as_its_last_attempt(
    result: RecognitionRouteResult,
    route: RoutePlan,
    answers: Seq<Answer>,
)
    requires
        follows(result, route, answers),
    ensures
        result.attempts@.len() <= route.providers@.len(),
        route.providers@.len() > 0 && result.attempts@.len() == 0 ==> result.outcome is Err
            && result.outcome->Err_0.kind() == ErrorCategory::Cancelled,
        route.providers@.len() == 0 ==> result.outcome is Err && result.outcome->Err_0.kind()
            == ErrorCategory::Unavailable,
        result.attempts@.len() > 0 && result.attempts@.last().error is None ==> result.outcome is Ok
            && result.outcome->Ok_0.provider_id == result.attempts@.last().provider_id,
        result.attempts@.len() > 0 && result.attempts@.last().error is Some ==> {
            &&& result.outcome is Err
            &&& result.outcome->Err_0.kind() == result.attempts@.last().error->0.kind()
                || result.outcome->Err_0.kind() == ErrorCategory::Cancelled
        },
        answers.len() > 0 && answers.last() is Failed ==> result.outcome == Err::<
            RecognitionSuccess,
            VoxError,
        >(answers.last()->Failed_0.error),
        answers.len() > 0 && answers.last() is Recognized && !blank(
            answers.last()->Recognized_0.transcript.text@,
        ) ==> {
            &&& result.outcome is Ok
            &&& result.outcome->Ok_0.transcript == answers.last()->Recognized_0.transcript
        },
        answers.len() > 0 && answers.last() is Recognized && blank(
            answers.last()->Recognized_0.transcript.text@,
        ) ==> result.outcome is Err && result.outcome->Err_0.kind() == ErrorCategory::Protocol,
{
    if result.attempts@.len() > 0 {
        let last = result.attempts@.len() - 1;
        assert(records(result.attempts@[last], route.providers@[last], answers[last]));
    }
}

/// An attempt tells what its provider told of transport and audio, and no more.
pub proof fn law_attempts_keep_the_evidence(
    result: RecognitionRouteResult,
    route: RoutePlan,
    answers: Seq<Answer>,
    i: int,
)
    requires
        follows(result, route, answers),
        0 <= i < result.attempts@.len(),
    ensures
        match answers[i] {
            Answer::Recognized(success) => {
                &&& result.attempts@[i].transport_started == success.transport_started
                &&& result.attempts@[i].audio_acceptance == success.audio_acceptance
                &&& (result.attempts@[i].error is None) == !blank(success.transcript.text@)
            },
            Answer::Failed(failure) => {
                &&& result.attempts@[i].transport_started == failure.transport_started
                &&& result.attempts@[i].audio_acceptance == failure.audio_acceptance
                &&& result.attempts@[i].error == Some(failure.error)
            },
            Answer::Unregistered => {
                &&& !result.attempts@[i].transport_started
                &&& result.attempts@[i].audio_acceptance == AudioAcceptance::NotAccepted
                &&& result.attempts@[i].error is Some
                &&& result.attempts@[i].error->0.kind() == ErrorCategory::Configuration
            },
            Answer::Cancelled => false,
        },
{
    assert(records(result.attempts@[i], route.providers@[i], answers[i]));
    if i < answers.len() - 1 {
        assert(continues(answers[i], route.replay));
    }
}

} // verus!
