//! Composition of configured provider adapters, and the rules of the local ones.

use crate::audio::{AudioFormat, SampleFormat};
use crate::cancellation::CancellationToken;
use crate::config::{Config, ProviderConfig};
use crate::curl::BoundedRead;
use crate::deepgram;
use crate::error::{ErrorCategory, VoxError};
use crate::provider::{
    provider_name, AudioAcceptance, ProviderAttemptFailure, ProviderCapabilities, ProviderId,
};
use crate::rest;
use crate::route::{
    ProviderAdapter, ProviderRegistry, ProviderSuccess, ProviderTranscript, ProviderUsage,
    RecognitionInput, SharedAdapter,
};
use crate::text::{
    blank, decode_text, is_blank, join2, owned, trim, trimmed, utf8_complaint,
};
use vstd::prelude::*;
use vstd::string::*;
use vstd::utf8::*;

verus! {

/// The most that is kept of the output of a command.
pub const MAX_COMMAND_OUTPUT_BYTES: usize = 1_048_576;

/// The first row from `i` on whose name is not one of a provider.
pub open spec fn first_misnamed(rows: Seq<(Seq<char>, ProviderConfig)>, i: int) -> Option<int>
    decreases rows.len() - i,
{
    if i < 0 || i >= rows.len() {
        None
    } else if !provider_name(rows[i].0) {
        Some(i)
    } else {
        first_misnamed(rows, i + 1)
    }
}

/// The identifiers of the configured providers, in the order of their rows. An adapter is to be
/// composed for each of them from the configuration in its row.
pub fn provider_ids(config: &Config) -> (r: Result<Vec<ProviderId>, VoxError>)
    ensures
        ({
            let rows = config.providers.rows();
            match r {
                Ok(ids) => {
                    &&& first_misnamed(rows, 0) is None
                    &&& ids@.len() == rows.len()
                    &&& forall|i: int|
                        0 <= i < ids@.len() ==> (#[trigger] ids@[i])@ == rows[i].0
                },
                Err(error) => first_misnamed(rows, 0) is Some && error.says(
                    ErrorCategory::Configuration,
                    "provider.invalid_id"@,
                    "provider ID must contain lowercase ASCII letters, digits, or hyphens"@,
                    false,
                ),
            }
        }),
{
    let ghost rows = config.providers.rows();
    let total: usize = config.providers.len();
    let mut ids: Vec<ProviderId> = Vec::new();
    for i in 0..total
        invariant
            rows == config.providers.rows(),
            total == rows.len(),
            ids@.len() == i,
            forall|k: int| 0 <= k < i ==> (#[trigger] ids@[k])@ == rows[k].0,
            first_misnamed(rows, 0) == first_misnamed(rows, i as int),
    {
        match ProviderId::new(config.providers.name_at(i)) {
            Ok(id) => {
                ids.push(id);
            },
            Err(_) => {
                return Err(
                    VoxError::new(
                        ErrorCategory::Configuration,
                        "provider.invalid_id",
                        "provider ID must contain lowercase ASCII letters, digits, or hyphens",
                    ),
                );
            },
        }
    }
    Ok(ids)
}

/// The adapters of the first `n` rows, each under the name of its row.
pub open spec fn composed(
    rows: Seq<(Seq<char>, ProviderConfig)>,
    adapters: Seq<SharedAdapter>,
    n: nat,
) -> Map<Seq<char>, SharedAdapter>
    decreases n,
{
    if n == 0 {
        Map::empty()
    } else {
        composed(rows, adapters, (n - 1) as nat).insert(rows[n - 1].0, adapters[n - 1])
    }
}

proof fn lemma_composed_names(
    rows: Seq<(Seq<char>, ProviderConfig)>,
    adapters: Seq<SharedAdapter>,
    n: nat,
    name: Seq<char>,
)
    requires
        n <= rows.len(),
        composed(rows, adapters, n).contains_key(name),
    ensures
        exists|i: int| 0 <= i < n && (#[trigger] rows[i]).0 == name,
    decreases n,
{
    if rows[n - 1].0 != name {
        lemma_composed_names(rows, adapters, (n - 1) as nat, name);
    }
}

/// Registers the adapter that was composed for each configured provider, in the order of the rows.
///
/// A configuration with a name that is not one of a provider is refused.
pub fn build_provider_registry(config: &Config, adapters: &Vec<SharedAdapter>) -> (r: Result<
    ProviderRegistry,
    VoxError,
>)
    requires
        adapters@.len() == config.providers.rows().len(),
    ensures
        ({
            let rows = config.providers.rows();
            match r {
                Ok(registry) => {
                    &&& first_misnamed(rows, 0) is None
                    &&& registry@ == composed(rows, adapters@, rows.len())
                },
                Err(error) => first_misnamed(rows, 0) is Some && error.says(
                    ErrorCategory::Configuration,
                    "provider.invalid_id"@,
                    "provider ID must contain lowercase ASCII letters, digits, or hyphens"@,
                    false,
                ),
            }
        }),
{
    let ids = match provider_ids(config) {
        Ok(ids) => ids,
        Err(error) => {
            return Err(error);
        },
    };
    let ghost rows = config.providers.rows();
    let total: usize = config.providers.len();
    let mut registry = ProviderRegistry::new();
    assert(registry@ =~= composed(rows, adapters@, 0));
    for i in 0..total
        invariant
            rows == config.providers.rows(),
            crate::table::Table::<ProviderConfig>::ordered(rows),
            total == rows.len(),
            total == adapters@.len(),
            total == ids@.len(),
            first_misnamed(rows, 0) is None,
            forall|k: int| 0 <= k < total ==> (#[trigger] ids@[k])@ == rows[k].0,
            registry@ == composed(rows, adapters@, i as nat),
    {
        proof {
            if registry@.contains_key(rows[i as int].0) {
                lemma_composed_names(rows, adapters@, i as nat, rows[i as int].0);
                let at = choose|at: int|
                    0 <= at < i && (#[trigger] rows[at]).0 == rows[i as int].0;
                crate::table::Table::<ProviderConfig>::lemma_one_position(rows, at, i as int);
            }
        }
        match registry.register_as(ids[i].clone(), adapters[i].clone()) {
            Ok(_) => {},
            Err(error) => {
                return Err(error);
            },
        }
    }
    Ok(registry)
}

/// A whole recording of mono 16 kHz samples is taken, in any language, and one final result given.
pub open spec fn takes_recordings(capabilities: ProviderCapabilities) -> bool {
    &&& capabilities.languages@.len() == 0
    &&& capabilities.accepted_formats@.len() == 1
    &&& capabilities.accepted_formats@[0].sample_rate_hz == 16_000
    &&& capabilities.accepted_formats@[0].channels == 1
    &&& capabilities.accepted_formats@[0].sample_format == SampleFormat::I16Le
    &&& !capabilities.streaming
    &&& !capabilities.partial_results
    &&& !capabilities.provider_vad
}

/// Every adapter takes a whole recording and gives one final result.
pub fn recorded_pcm_capabilities() -> (r: ProviderCapabilities)
    ensures
        takes_recordings(r),
{
    let mut accepted_formats: Vec<AudioFormat> = Vec::new();
    accepted_formats.push(AudioFormat::pcm_16khz_mono());
    ProviderCapabilities {
        languages: Vec::new(),
        accepted_formats,
        streaming: false,
        partial_results: false,
        provider_vad: false,
    }
}

pub fn success_after_audio(text: String, usage: ProviderUsage) -> (r: ProviderSuccess)
    ensures
        r.transcript.text@ == text@,
        r.transcript.usage == usage,
        r.transport_started,
        r.audio_acceptance == AudioAcceptance::Accepted,
{
    ProviderSuccess {
        transcript: ProviderTranscript { text, usage },
        transport_started: true,
        audio_acceptance: AudioAcceptance::Accepted,
    }
}

pub fn success_without_transport(text: String, usage: ProviderUsage) -> (r: ProviderSuccess)
    ensures
        r.transcript.text@ == text@,
        r.transcript.usage == usage,
        !r.transport_started,
        r.audio_acceptance == AudioAcceptance::NotAccepted,
{
    ProviderSuccess {
        transcript: ProviderTranscript { text, usage },
        transport_started: false,
        audio_acceptance: AudioAcceptance::NotAccepted,
    }
}

/// What a REST transcription is worth to the route.
pub fn rest_success(transcription: rest::Transcription) -> (r: ProviderSuccess)
    ensures
        r.transcript.text@ == transcription.text@,
        r.transcript.usage.input_tokens == transcription.usage.input_tokens,
        r.transcript.usage.output_tokens == transcription.usage.output_tokens,
        r.transcript.usage.total_tokens == transcription.usage.total_tokens,
        r.transport_started,
        r.audio_acceptance == AudioAcceptance::Accepted,
{
    success_after_audio(
        transcription.text,
        ProviderUsage {
            input_tokens: transcription.usage.input_tokens,
            output_tokens: transcription.usage.output_tokens,
            total_tokens: transcription.usage.total_tokens,
        },
    )
}

/// What a Deepgram transcription is worth to the route; it reports no tokens.
pub fn deepgram_success(transcription: deepgram::Transcription) -> (r: ProviderSuccess)
    ensures
        r.transcript.text@ == transcription.text@,
        r.transcript.usage.input_tokens is None,
        r.transcript.usage.output_tokens is None,
        r.transcript.usage.total_tokens is None,
        r.transport_started,
        r.audio_acceptance == AudioAcceptance::Accepted,
{
    success_after_audio(transcription.text, ProviderUsage::default())
}

/// The error of work that was cancelled.
pub open spec fn recognition_cancelled(error: VoxError) -> bool {
    error.says(
        ErrorCategory::Cancelled,
        "provider.cancelled"@,
        "recognition was cancelled"@,
        false,
    )
}

fn cancelled_error() -> (error: VoxError)
    ensures
        recognition_cancelled(error),
{
    VoxError::new(ErrorCategory::Cancelled, "provider.cancelled", "recognition was cancelled")
}

/// The failure of work that was cancelled before anything was sent.
pub open spec fn cancelled_unsent(failure: ProviderAttemptFailure) -> bool {
    &&& recognition_cancelled(failure.error)
    &&& !failure.transport_started
    &&& failure.audio_acceptance == AudioAcceptance::NotAccepted
}

/// Whether work may begin, with what is known of cancellation.
pub fn check_not_cancelled(is_cancelled: bool) -> (r: Result<(), ProviderAttemptFailure>)
    ensures
        match r {
            Ok(_) => !is_cancelled,
            Err(failure) => is_cancelled && cancelled_unsent(failure),
        },
{
    if is_cancelled {
        Err(ProviderAttemptFailure::before_transport(cancelled_error()))
    } else {
        Ok(())
    }
}

/// Whether work may begin.
pub fn ensure_not_cancelled(cancellation: &CancellationToken) -> (r: Result<
    (),
    ProviderAttemptFailure,
>)
    ensures
        r matches Err(failure) ==> cancelled_unsent(failure),
{
    check_not_cancelled(cancellation.is_cancelled())
}

/// A provider that always hears the same text.
#[derive(Debug)]
pub struct MockAdapter {
    pub id: ProviderId,
    pub text: String,
}

/// `r` is what a provider that always hears `text` answers.
pub open spec fn mock_answer(
    r: Result<ProviderSuccess, ProviderAttemptFailure>,
    text: Seq<char>,
    is_cancelled: bool,
) -> bool {
    match r {
        Ok(success) => {
            &&& !is_cancelled && !blank(text)
            &&& success.transcript.text@ == text
            &&& success.transcript.usage.input_tokens is None
            &&& success.transcript.usage.output_tokens is None
            &&& success.transcript.usage.total_tokens is None
            &&& !success.transport_started
            &&& success.audio_acceptance == AudioAcceptance::NotAccepted
        },
        Err(failure) => if is_cancelled {
            cancelled_unsent(failure)
        } else {
            &&& blank(text)
            &&& failure.error.says(
                ErrorCategory::Protocol,
                "provider.mock_empty"@,
                "mock provider text is empty"@,
                false,
            )
            &&& !failure.transport_started
            &&& failure.audio_acceptance == AudioAcceptance::NotAccepted
        },
    }
}

impl MockAdapter {
    /// What the provider answers, with what is known of cancellation.
    pub fn answer(&self, is_cancelled: bool) -> (r: Result<ProviderSuccess, ProviderAttemptFailure>)
        ensures
            mock_answer(r, self.text@, is_cancelled),
    {
        match check_not_cancelled(is_cancelled) {
            Ok(_) => {},
            Err(failure) => {
                return Err(failure);
            },
        }
        if is_blank(self.text.as_str()) {
            return Err(
                ProviderAttemptFailure::before_transport(
                    VoxError::new(
                        ErrorCategory::Protocol,
                        "provider.mock_empty",
                        "mock provider text is empty",
                    ),
                ),
            );
        }
        Ok(success_without_transport(self.text.clone(), ProviderUsage::default()))
    }
}

impl ProviderAdapter for MockAdapter {
    open spec fn goes_by(&self, name: Seq<char>) -> bool {
        name == self.id@
    }

    fn id(&self) -> (r: &ProviderId)
        ensures
            *r == self.id,
    {
        &self.id
    }

    fn capabilities(&self) -> (r: ProviderCapabilities)
        ensures
            takes_recordings(r),
    {
        recorded_pcm_capabilities()
    }

    /// The text of the provider, or what its cancellation or a blank text leads to.
    open spec fn may_answer(
        &self,
        input: RecognitionInput<'_>,
        cancellation: &CancellationToken,
        r: Result<ProviderSuccess, ProviderAttemptFailure>,
    ) -> bool {
        exists|is_cancelled: bool| mock_answer(r, self.text@, is_cancelled)
    }

    fn recognize(&self, _input: RecognitionInput<'_>, cancellation: &CancellationToken) -> (r:
        Result<ProviderSuccess, ProviderAttemptFailure>) {
        let is_cancelled = cancellation.is_cancelled();
        let r = self.answer(is_cancelled);
        assert(mock_answer(r, self.text@, is_cancelled));
        r
    }
}

/// A command that could not be started.
pub fn command_unstarted(reason: &str) -> (failure: ProviderAttemptFailure)
    ensures
        failure.error.says(
            ErrorCategory::Unavailable,
            "provider.command_failed"@,
            reason@,
            true,
        ),
        !failure.transport_started,
        failure.audio_acceptance == AudioAcceptance::NotAccepted,
{
    ProviderAttemptFailure::before_transport(
        VoxError::new(
            ErrorCategory::Unavailable,
            "provider.command_failed",
            reason,
        ).with_retryable(true),
    )
}

/// A command that could not be waited for.
pub fn command_wait_failed(reason: &str) -> (failure: ProviderAttemptFailure)
    ensures
        failure.error.says(
            ErrorCategory::Unavailable,
            "provider.command_wait"@,
            reason@,
            false,
        ),
        failure.transport_started,
        failure.audio_acceptance == AudioAcceptance::PossiblyAccepted,
{
    ProviderAttemptFailure::after_transport(
        VoxError::new(ErrorCategory::Unavailable, "provider.command_wait", reason),
        AudioAcceptance::PossiblyAccepted,
    )
}

/// Whether a command that is still running may go on; if not, it is to be killed.
pub fn command_may_run(now_nanos: u64, deadline_nanos: u64, is_cancelled: bool) -> (r: Result<
    (),
    ProviderAttemptFailure,
>)
    ensures
        match r {
            Ok(_) => now_nanos < deadline_nanos && !is_cancelled,
            Err(failure) => {
                &&& failure.transport_started
                &&& failure.audio_acceptance == AudioAcceptance::PossiblyAccepted
                &&& if now_nanos >= deadline_nanos {
                    failure.error.says(
                        ErrorCategory::Timeout,
                        "provider.command_timeout"@,
                        "command provider timed out"@,
                        true,
                    )
                } else {
                    is_cancelled && recognition_cancelled(failure.error)
                }
            },
        },
{
    if now_nanos >= deadline_nanos {
        return Err(
            ProviderAttemptFailure::after_transport(
                VoxError::new(
                    ErrorCategory::Timeout,
                    "provider.command_timeout",
                    "command provider timed out",
                ).with_retryable(true),
                AudioAcceptance::PossiblyAccepted,
            ),
        );
    }
    if is_cancelled {
        return Err(
            ProviderAttemptFailure::after_transport(
                cancelled_error(),
                AudioAcceptance::PossiblyAccepted,
            ),
        );
    }
    Ok(())
}

/// The output of a command could not be read.
pub fn command_output_failed(category: ErrorCategory, reason: &str) -> (failure:
    ProviderAttemptFailure)
    ensures
        failure.error.says(category, "provider.command_output"@, reason@, false),
        failure.transport_started,
        failure.audio_acceptance == AudioAcceptance::Accepted,
{
    ProviderAttemptFailure::after_transport(
        VoxError::new(category, "provider.command_output", reason),
        AudioAcceptance::Accepted,
    )
}

/// How a command ended: whether it succeeded, and how its status is shown.
#[derive(Debug)]
pub struct CommandExit {
    pub success: bool,
    pub status: String,
}

/// `r` is what the output of a command amounts to.
pub open spec fn command_result(
    r: Result<String, ProviderAttemptFailure>,
    exit: CommandExit,
    output: BoundedRead,
) -> bool {
    let bytes = output.bytes@;
    match r {
        Ok(text) => {
            &&& !output.overflowed && exit.success && valid_utf8(bytes)
            &&& text@ == trimmed(decode_utf8(bytes))
            &&& text@.len() > 0
        },
        Err(failure) => {
            &&& failure.transport_started
            &&& failure.audio_acceptance == AudioAcceptance::Accepted
            &&& if output.overflowed {
                failure.error.says(
                    ErrorCategory::Protocol,
                    "provider.command_output_too_large"@,
                    "command provider output exceeded 1048576 bytes"@,
                    false,
                )
            } else if !exit.success {
                failure.error.says(
                    ErrorCategory::Unavailable,
                    "provider.command_exit"@,
                    "command exited with "@ + exit.status@,
                    true,
                )
            } else if !valid_utf8(bytes) {
                failure.error.says(
                    ErrorCategory::Protocol,
                    "provider.command_output"@,
                    utf8_complaint(bytes),
                    false,
                )
            } else {
                &&& trimmed(decode_utf8(bytes)).len() == 0
                &&& failure.error.says(
                    ErrorCategory::Protocol,
                    "provider.command_empty"@,
                    "command provider returned empty output"@,
                    false,
                )
            }
        },
    }
}

/// Concludes a command from its end and from what was kept of its output.
pub fn finish_command_output(exit: &CommandExit, output: BoundedRead) -> (r: Result<
    String,
    ProviderAttemptFailure,
>)
    ensures
        command_result(r, *exit, output),
{
    if output.overflowed {
        return Err(
            ProviderAttemptFailure::after_transport(
                VoxError::new(
                    ErrorCategory::Protocol,
                    "provider.command_output_too_large",
                    "command provider output exceeded 1048576 bytes",
                ),
                AudioAcceptance::Accepted,
            ),
        );
    }
    if !exit.success {
        let message = join2("command exited with ", exit.status.as_str());
        return Err(
            ProviderAttemptFailure::after_transport(
                VoxError::new(
                    ErrorCategory::Unavailable,
                    "provider.command_exit",
                    message.as_str(),
                ).with_retryable(true),
                AudioAcceptance::Accepted,
            ),
        );
    }
    match decode_text(output.bytes) {
        Err(reason) => Err(command_output_failed(ErrorCategory::Protocol, reason.as_str())),
        Ok(text) => {
            let spoken = trim(text.as_str());
            if spoken.unicode_len() == 0 {
                return Err(
                    ProviderAttemptFailure::after_transport(
                        VoxError::new(
                            ErrorCategory::Protocol,
                            "provider.command_empty",
                            "command provider returned empty output",
                        ),
                        AudioAcceptance::Accepted,
                    ),
                );
            }
            Ok(owned(spoken))
        },
    }
}

/// A provider with a fixed text gives exactly that text, unless it is blank or the work was cancelled,
/// and never sends anything.
pub proof fn law_fixed_text_is_given(
    r: Result<ProviderSuccess, ProviderAttemptFailure>,
    text: Seq<char>,
    is_cancelled: bool,
)
    requires
        mock_answer(r, text, is_cancelled),
    ensures
        r is Ok <==> !is_cancelled && !blank(text),
        r is Ok ==> r->Ok_0.transcript.text@ == text && !r->Ok_0.transport_started
            && r->Ok_0.audio_acceptance == AudioAcceptance::NotAccepted,
        r is Err ==> !r->Err_0.transport_started && r->Err_0.audio_acceptance
            == AudioAcceptance::NotAccepted,
        is_cancelled ==> r->Err_0.error.kind() == ErrorCategory::Cancelled,
{
}

/// A command that succeeded with a text that is not blank gives that text, without the white space
/// around it; one that failed may be tried again, one that wrote something unusable may not.
pub proof fn law_command_gives_its_output(
    r: Result<String, ProviderAttemptFailure>,
    exit: CommandExit,
    output: BoundedRead,
)
    requires
        command_result(r, exit, output),
    ensures
        r is Ok <==> exit.success && !output.overflowed && valid_utf8(output.bytes@) && !blank(
            decode_utf8(output.bytes@),
        ),
        r is Ok ==> r->Ok_0@ == trimmed(decode_utf8(output.bytes@)),
        r is Err ==> (r->Err_0.error.retry() <==> !exit.success && !output.overflowed),
        r is Err ==> r->Err_0.audio_acceptance == AudioAcceptance::Accepted,
{
    crate::text::lemma_trimmed_empty(decode_utf8(output.bytes@));
}

/// Each configured provider is asked through the adapter that was made for it, and there is no other
/// adapter.
pub proof fn law_each_provider_has_its_adapter(
    rows: Seq<(Seq<char>, ProviderConfig)>,
    adapters: Seq<SharedAdapter>,
    n: nat,
    i: int,
)
    requires
        n <= rows.len(),
        n <= adapters.len(),
        forall|a: int, b: int|
            0 <= a < b < rows.len() ==> (#[trigger] rows[a]).0 != (#[trigger] rows[b]).0,
        0 <= i < n,
    ensures
        composed(rows, adapters, n).contains_key(rows[i].0),
        composed(rows, adapters, n)[rows[i].0] == adapters[i],
        forall|name: Seq<char>| #[trigger]
            composed(rows, adapters, n).contains_key(name) ==> exists|k: int|
                0 <= k < n && (#[trigger] rows[k]).0 == name,
    decreases n,
{
    if i < n - 1 {
        law_each_provider_has_its_adapter(rows, adapters, (n - 1) as nat, i);
        assert(rows[i].0 != rows[n - 1].0);
    }
    assert forall|name: Seq<char>| #[trigger]
        composed(rows, adapters, n).contains_key(name) implies exists|k: int|
            0 <= k < n && (#[trigger] rows[k]).0 == name by {
        lemma_composed_names(rows, adapters, n, name);
    }
}

/// The first row with a bad name is the one that is complained about.
pub proof fn law_first_bad_name_is_found(rows: Seq<(Seq<char>, ProviderConfig)>, i: int)
    requires
        0 <= i <= rows.len(),
        forall|k: int| 0 <= k < i ==> provider_name((#[trigger] rows[k]).0),
        i == rows.len() || !provider_name(rows[i].0),
    ensures
        i < rows.len() ==> first_misnamed(rows, 0) == Some(i),
        i == rows.len() ==> first_misnamed(rows, 0) is None,
{
    lemma_misnamed_from(rows, 0, i);
}

proof fn lemma_misnamed_from(rows: Seq<(Seq<char>, ProviderConfig)>, from: int, i: int)
    requires
        0 <= from <= i <= rows.len(),
        forall|k: int| from <= k < i ==> provider_name((#[trigger] rows[k]).0),
        i == rows.len() || !provider_name(rows[i].0),
    ensures
        i < rows.len() ==> first_misnamed(rows, from) == Some(i),
        i == rows.len() ==> first_misnamed(rows, from) is None,
    decreases i - from,
{
    if from < i {
        assert(provider_name(rows[from].0));
        lemma_misnamed_from(rows, from + 1, i);
    }
}

} // verus!
