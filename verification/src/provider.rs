//! Provider-neutral recognition types and attempt lifecycle evidence.

use crate::audio::AudioFormat;
use crate::error::{ErrorCategory, VoxError};
use vstd::prelude::*;
use vstd::string::*;

verus! {

/// What is known about a provider receiving the current audio.
///
/// Failure after a transport starts is often ambiguous: a client may be cancelled or lose the
/// connection after sending some bytes but before the provider acknowledges them. Routing treats
/// that case conservatively so that audio is not replayed to another provider without consent.
#[derive(Clone, Copy, Debug, Eq, PartialEq, Structural)]
pub enum AudioAcceptance {
    NotAccepted,
    PossiblyAccepted,
    Accepted,
}

impl Default for AudioAcceptance {
    fn default() -> (r: Self)
        ensures
            r == AudioAcceptance::NotAccepted,
    {
        AudioAcceptance::NotAccepted
    }
}

impl AudioAcceptance {
    /// Audio may have left the process unless it is known that none was accepted.
    pub open spec fn may_have_left(self) -> bool {
        self != AudioAcceptance::NotAccepted
    }

    pub fn may_have_left_process(self) -> (r: bool)
        ensures
            r == self.may_have_left(),
    {
        match self {
            AudioAcceptance::NotAccepted => false,
            AudioAcceptance::PossiblyAccepted => true,
            AudioAcceptance::Accepted => true,
        }
    }
}

/// A provider failure together with the lifecycle evidence needed by routing and usage
/// accounting.
#[derive(Debug, Eq, PartialEq)]
pub struct ProviderAttemptFailure {
    pub error: VoxError,
    pub transport_started: bool,
    pub audio_acceptance: AudioAcceptance,
}

impl Clone for ProviderAttemptFailure {
    fn clone(&self) -> (r: Self)
        ensures
            r == *self,
    {
        ProviderAttemptFailure {
            error: self.error.clone(),
            transport_started: self.transport_started,
            audio_acceptance: self.audio_acceptance,
        }
    }
}

impl ProviderAttemptFailure {
    pub fn before_transport(error: VoxError) -> (failure: Self)
        ensures
            failure.error == error,
            !failure.transport_started,
            failure.audio_acceptance == AudioAcceptance::NotAccepted,
    {
        ProviderAttemptFailure {
            error,
            transport_started: false,
            audio_acceptance: AudioAcceptance::NotAccepted,
        }
    }

    pub fn after_transport(error: VoxError, audio_acceptance: AudioAcceptance) -> (failure: Self)
        ensures
            failure.error == error,
            failure.transport_started,
            failure.audio_acceptance == audio_acceptance,
    {
        ProviderAttemptFailure { error, transport_started: true, audio_acceptance }
    }

    pub fn into_error(self) -> (error: VoxError)
        ensures
            error == self.error,
    {
        self.error
    }
}

/// A normalized provider identifier.
#[derive(Debug, Eq, Hash, Ord, PartialEq, PartialOrd)]
pub struct ProviderId {
    name: String,
}

impl Clone for ProviderId {
    fn clone(&self) -> (r: Self)
        ensures
            r == *self,
    {
        ProviderId { name: self.name.clone() }
    }
}

/// A character that a provider identifier may hold.
pub open spec fn provider_char(c: char) -> bool {
    'a' <= c <= 'z' || '0' <= c <= '9' || c == '-'
}

/// A provider identifier has one to 64 lowercase ASCII letters, digits and hyphens.
pub open spec fn provider_name(text: Seq<char>) -> bool {
    0 < text.len() <= 64 && forall|i: int| 0 <= i < text.len() ==> provider_char(#[trigger] text[i])
}

impl ProviderId {
    pub closed spec fn view(&self) -> Seq<char> {
        self.name@
    }

    /// Creates a normalized provider identifier.
    ///
    /// The value is refused when it is empty, too long, or contains anything other than
    /// lowercase ASCII letters, digits, and hyphens.
    pub fn new(value: &str) -> (r: Result<Self, VoxError>)
        ensures
            match r {
                Ok(id) => provider_name(value@) && id@ == value@,
                Err(error) => !provider_name(value@) && error.says(
                    ErrorCategory::InvalidArgument,
                    "provider.invalid_id"@,
                    "provider ID must contain lowercase ASCII letters, digits, or hyphens"@,
                    false,
                ),
            },
    {
        let length: usize = value.unicode_len();
        let mut valid = 0 < length && length <= 64;
        for c in it: value.chars()
            invariant
                it.seq() == value@,
                length == value@.len(),
                valid == (0 < length <= 64 && forall|i: int|
                    0 <= i < it.index() ==> provider_char(#[trigger] value@[i])),
        {
            valid = valid && (('a' <= c && c <= 'z') || ('0' <= c && c <= '9') || c == '-');
        }
        if valid {
            Ok(ProviderId { name: String::from_str(value) })
        } else {
            Err(
                VoxError::new(
                    ErrorCategory::InvalidArgument,
                    "provider.invalid_id",
                    "provider ID must contain lowercase ASCII letters, digits, or hyphens",
                ),
            )
        }
    }

    pub fn as_str(&self) -> (r: &str)
        ensures
            r@ == self@,
    {
        self.name.as_str()
    }

    pub fn same(&self, other: &ProviderId) -> (r: bool)
        ensures
            r == (self@ == other@),
    {
        self.name == other.name
    }
}

#[derive(Clone, Debug, Eq, PartialEq)]
pub struct ProviderCapabilities {
    pub languages: Vec<String>,
    pub accepted_formats: Vec<AudioFormat>,
    pub streaming: bool,
    pub partial_results: bool,
    pub provider_vad: bool,
}

#[derive(Clone, Debug, Eq, PartialEq)]
pub struct RecognitionRequest {
    pub language: String,
    pub punctuation: bool,
}

#[derive(Clone, Debug, Eq, PartialEq)]
pub enum RecognitionEvent {
    Ready,
    SpeechStarted,
    Partial { text: String, sequence: Option<u64> },
    Final { text: String, sequence: Option<u64> },
    SpeechEnded,
    Finished,
}

/// The name of a provider has from 1 to 64 characters: lower-case letters from a to z, digits and
/// hyphens.
pub proof fn law_provider_names_are_plain(text: Seq<char>)
    ensures
        provider_name(text) <==> 1 <= text.len() <= 64 && forall|i: int|
            0 <= i < text.len() ==> 'a' <= (#[trigger] text[i]) <= 'z' || '0' <= text[i] <= '9'
                || text[i] == '-',
{
    if provider_name(text) {
        assert forall|i: int| 0 <= i < text.len() implies 'a' <= (#[trigger] text[i]) <= 'z' || '0'
            <= text[i] <= '9' || text[i] == '-' by {
            assert(provider_char(text[i]));
        }
    }
    if forall|i: int|
        0 <= i < text.len() ==> 'a' <= (#[trigger] text[i]) <= 'z' || '0' <= text[i] <= '9'
            || text[i] == '-' {
        assert forall|i: int| 0 <= i < text.len() implies provider_char(#[trigger] text[i]) by {}
    }
}

} // verus!
