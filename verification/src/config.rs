//! User configuration and the secrets that it refers to.

use crate::curl::secure_endpoint;
use crate::error::{ErrorCategory, VoxError};
use crate::routing::ReplayPolicy;
use crate::secret::SecretString;
use crate::table::Table;
use crate::text::{
    begins, blank, decode_lossy, decode_text, is_blank, join2, join3, lossy_text, owned,
    starts_with, texts, to_chars, trim, trimmed,
};
use vstd::prelude::*;
use vstd::string::*;
use vstd::utf8::*;

verus! {

/// The configuration of a new user.
pub const DEFAULT_CONFIG: &'static str = "schema_version = 1
default_profile = \"test\"

[desktop]
restore_clipboard = true
retain_recordings = false
transcript_history_enabled = false
insertion_backend = \"fcitx\"

[audio]
minimum_duration_millis = 250
maximum_duration_seconds = 120
vad_enabled = true
vad_rms_threshold = 300
vad_minimum_voiced_frames = 2

[profiles.test]
primary = \"mock\"
fallbacks = []
language = \"zh\"
replay = \"never\"

[providers.mock]
kind = \"mock\"
text = \"VoxType 本地集成测试\"
";

pub struct Config {
    pub schema_version: u32,
    pub default_profile: String,
    pub desktop: DesktopConfig,
    pub audio: AudioConfig,
    pub profiles: Table<ProfileConfig>,
    pub providers: Table<ProviderConfig>,
    pub quotas: Table<ProviderQuotaConfig>,
}

#[derive(Clone, Copy, Debug, Eq, PartialEq, Structural)]
pub struct DesktopConfig {
    pub restore_clipboard: bool,
    pub retain_recordings: bool,
    pub transcript_history_enabled: bool,
    pub insertion_backend: InsertionBackend,
}

impl Default for DesktopConfig {
    fn default() -> (r: Self)
        ensures
            r == (DesktopConfig {
                restore_clipboard: true,
                retain_recordings: false,
                transcript_history_enabled: false,
                insertion_backend: InsertionBackend::Fcitx,
            }),
    {
        DesktopConfig {
            restore_clipboard: true,
            retain_recordings: false,
            transcript_history_enabled: false,
            insertion_backend: InsertionBackend::Fcitx,
        }
    }
}

#[derive(Clone, Copy, Debug, Eq, PartialEq, Structural)]
pub enum InsertionBackend {
    Fcitx,
    Clipboard,
    Copy,
    Auto,
}

impl Default for InsertionBackend {
    fn default() -> (r: Self)
        ensures
            r == InsertionBackend::Fcitx,
    {
        InsertionBackend::Fcitx
    }
}

#[derive(Debug, Eq, PartialEq)]
pub struct AudioConfig {
    /// The source to record from; a blank one stands for the default.
    pub device: String,
    pub minimum_duration_millis: u64,
    pub maximum_duration_seconds: u64,
    pub vad_enabled: bool,
    pub vad_rms_threshold: u16,
    pub vad_minimum_voiced_frames: u32,
}

impl Default for AudioConfig {
    fn default() -> (r: Self)
        ensures
            r.device@.len() == 0,
            r.minimum_duration_millis == 250,
            r.maximum_duration_seconds == 120,
            r.vad_enabled,
            r.vad_rms_threshold == 300,
            r.vad_minimum_voiced_frames == 2,
    {
        AudioConfig {
            device: String::new(),
            minimum_duration_millis: 250,
            maximum_duration_seconds: 120,
            vad_enabled: true,
            vad_rms_threshold: 300,
            vad_minimum_voiced_frames: 2,
        }
    }
}

#[derive(Debug, Eq, PartialEq)]
pub struct ProfileConfig {
    pub primary: String,
    pub fallbacks: Vec<String>,
    pub language: String,
    pub replay: ReplaySetting,
}

#[derive(Clone, Copy, Debug, Eq, PartialEq, Structural)]
pub enum ReplaySetting {
    Never,
    BeforeAudioAccepted,
    BufferedWithConsent,
}

impl Default for ReplaySetting {
    fn default() -> (r: Self)
        ensures
            r == ReplaySetting::Never,
    {
        ReplaySetting::Never
    }
}

impl ReplaySetting {
    /// The policy that the setting stands for.
    pub open spec fn meant(self) -> ReplayPolicy {
        match self {
            ReplaySetting::Never => ReplayPolicy::Never,
            ReplaySetting::BeforeAudioAccepted => ReplayPolicy::BeforeAudioAccepted,
            ReplaySetting::BufferedWithConsent => ReplayPolicy::BufferedWithConsent,
        }
    }

    pub fn policy(self) -> (r: ReplayPolicy)
        ensures
            r == self.meant(),
    {
        match self {
            ReplaySetting::Never => ReplayPolicy::Never,
            ReplaySetting::BeforeAudioAccepted => ReplayPolicy::BeforeAudioAccepted,
            ReplaySetting::BufferedWithConsent => ReplayPolicy::BufferedWithConsent,
        }
    }
}

#[derive(Debug, Eq, PartialEq)]
pub enum ProviderConfig {
    Mock { text: String },
    OpenaiCompatible { endpoint: String, model: String, secret: String, timeout_seconds: u64 },
    Deepgram {
        endpoint: String,
        model: String,
        secret: String,
        timeout_seconds: u64,
        smart_format: bool,
    },
    Command { program: String, args: Vec<String>, timeout_seconds: u64 },
}

#[derive(Clone, Copy, Debug, Eq, PartialEq)]
pub struct ProviderQuotaConfig {
    pub request_limit: Option<u64>,
    pub audio_seconds_limit: Option<u64>,
    pub token_limit: Option<u64>,
}

impl Default for ProviderQuotaConfig {
    fn default() -> (r: Self)
        ensures
            r.request_limit is None,
            r.audio_seconds_limit is None,
            r.token_limit is None,
    {
        ProviderQuotaConfig { request_limit: None, audio_seconds_limit: None, token_limit: None }
    }
}

/// The language of a profile that names none.
pub fn default_language() -> (r: String)
    ensures
        r@ == "zh"@,
{
    owned("zh")
}

pub const DEFAULT_TIMEOUT_SECONDS: u64 = 30;

/// What is wrong with a configuration: a code and a message.
pub type Complaint = (Seq<char>, Seq<char>);

pub open spec fn invalid(message: Seq<char>) -> Option<Complaint> {
    Some(("config.invalid"@, message))
}

/// The providers of a profile, the primary one first.
pub open spec fn profile_providers(profile: ProfileConfig) -> Seq<Seq<char>> {
    seq![profile.primary@] + texts(profile.fallbacks@)
}

/// The first of the providers from position `i` on that is not configured.
pub open spec fn first_unknown(
    names: Seq<Seq<char>>,
    providers: Table<ProviderConfig>,
    i: int,
) -> Option<Seq<char>>
    decreases names.len() - i,
{
    if i < 0 || i >= names.len() {
        None
    } else if !providers.has(names[i]) {
        Some(names[i])
    } else {
        first_unknown(names, providers, i + 1)
    }
}

/// What is wrong with the first faulty profile from row `i` on.
pub open spec fn profile_complaint(
    rows: Seq<(Seq<char>, ProfileConfig)>,
    providers: Table<ProviderConfig>,
    i: int,
) -> Option<Complaint>
    decreases rows.len() - i,
{
    if i < 0 || i >= rows.len() {
        None
    } else {
        match first_unknown(profile_providers(rows[i].1), providers, 0) {
            Some(unknown) => invalid(
                "profile "@ + rows[i].0 + " references unknown provider "@ + unknown,
            ),
            None => profile_complaint(rows, providers, i + 1),
        }
    }
}

pub open spec fn timeout_complaint(timeout_seconds: u64) -> Option<Complaint> {
    if 1 <= timeout_seconds <= 300 {
        None
    } else {
        invalid("provider timeout must be between 1 and 300 seconds"@)
    }
}

pub open spec fn endpoint_complaint(endpoint: Seq<char>, message: Seq<char>) -> Option<Complaint> {
    if secure_endpoint(endpoint) {
        None
    } else {
        Some(("provider.insecure_endpoint"@, message))
    }
}

pub open spec fn cloud_complaint(
    model: Seq<char>,
    secret: Seq<char>,
    timeout_seconds: u64,
    endpoint: Seq<char>,
    message: Seq<char>,
) -> Option<Complaint> {
    if blank(model) || blank(secret) {
        invalid("cloud provider model and secret reference are required"@)
    } else if timeout_complaint(timeout_seconds) is Some {
        timeout_complaint(timeout_seconds)
    } else {
        endpoint_complaint(endpoint, message)
    }
}

/// What is wrong with a provider.
pub open spec fn provider_complaint(provider: ProviderConfig) -> Option<Complaint> {
    match provider {
        ProviderConfig::Mock { text } => if blank(text@) {
            invalid("mock provider text is empty"@)
        } else {
            None
        },
        ProviderConfig::OpenaiCompatible { endpoint, model, secret, timeout_seconds } =>
            cloud_complaint(
            model@,
            secret@,
            timeout_seconds,
            endpoint@,
            "provider endpoint must use HTTPS or loopback HTTP"@,
        ),
        ProviderConfig::Deepgram { endpoint, model, secret, timeout_seconds, .. } =>
            cloud_complaint(
            model@,
            secret@,
            timeout_seconds,
            endpoint@,
            "Deepgram endpoint must use HTTPS or loopback HTTP"@,
        ),
        ProviderConfig::Command { program, timeout_seconds, .. } => if timeout_complaint(
            timeout_seconds,
        ) is Some {
            timeout_complaint(timeout_seconds)
        } else if blank(program@) {
            invalid("command provider program is empty"@)
        } else if !begins(program@, "/"@) {
            invalid("command provider program must be an absolute path"@)
        } else {
            None
        },
    }
}

/// What is wrong with the first faulty provider from row `i` on.
pub open spec fn providers_complaint(rows: Seq<(Seq<char>, ProviderConfig)>, i: int) -> Option<
    Complaint,
>
    decreases rows.len() - i,
{
    if i < 0 || i >= rows.len() {
        None
    } else if provider_complaint(rows[i].1) is Some {
        provider_complaint(rows[i].1)
    } else {
        providers_complaint(rows, i + 1)
    }
}

/// What is wrong with the first faulty quota from row `i` on.
pub open spec fn quota_complaint(
    rows: Seq<(Seq<char>, ProviderQuotaConfig)>,
    providers: Table<ProviderConfig>,
    i: int,
) -> Option<Complaint>
    decreases rows.len() - i,
{
    if i < 0 || i >= rows.len() {
        None
    } else if !providers.has(rows[i].0) {
        invalid("quota references unknown provider "@ + rows[i].0)
    } else if rows[i].1.request_limit == Some(0u64) || rows[i].1.audio_seconds_limit == Some(0u64)
        || rows[i].1.token_limit == Some(0u64) {
        invalid("provider quota limits must be positive"@)
    } else {
        quota_complaint(rows, providers, i + 1)
    }
}

/// What is wrong with the limits of recording.
pub open spec fn audio_complaint(audio: AudioConfig) -> Option<Complaint> {
    if !(1 <= audio.vad_rms_threshold <= 10_000) {
        invalid("VAD RMS threshold must be between 1 and 10000"@)
    } else if !(5 <= audio.maximum_duration_seconds <= 3_600) {
        invalid("maximum recording duration must be between 5 and 3600 seconds"@)
    } else if !(1 <= audio.vad_minimum_voiced_frames <= 100) {
        invalid("VAD minimum voiced frames must be between 1 and 100"@)
    } else if !(50 <= audio.minimum_duration_millis <= 10_000) {
        invalid("minimum recording duration must be between 50 and 10000 milliseconds"@)
    } else {
        None
    }
}

/// What is wrong with a configuration, the first of its faults.
pub open spec fn config_complaint(config: Config) -> Option<Complaint> {
    let profiles = profile_complaint(config.profiles.rows(), config.providers, 0);
    let providers = providers_complaint(config.providers.rows(), 0);
    let quotas = quota_complaint(config.quotas.rows(), config.providers, 0);
    if config.schema_version != 1 {
        invalid("unsupported schema_version"@)
    } else if !config.profiles.has(config.default_profile@) {
        invalid("default_profile does not exist"@)
    } else if profiles is Some {
        profiles
    } else if providers is Some {
        providers
    } else if quotas is Some {
        quotas
    } else {
        audio_complaint(config.audio)
    }
}

/// `r` is what a check that finds `complaint` returns.
pub open spec fn checks(r: Result<(), VoxError>, complaint: Option<Complaint>) -> bool {
    match r {
        Ok(_) => complaint is None,
        Err(error) => complaint is Some && error.says(
            ErrorCategory::Configuration,
            (complaint->0).0,
            (complaint->0).1,
            false,
        ),
    }
}

fn configuration(message: &str) -> (error: VoxError)
    ensures
        error.says(ErrorCategory::Configuration, "config.invalid"@, message@, false),
{
    VoxError::new(ErrorCategory::Configuration, "config.invalid", message)
}

fn check_profile(name: &str, profile: &ProfileConfig, providers: &Table<ProviderConfig>) -> (r:
    Result<(), VoxError>)
    ensures
        checks(
            r,
            match first_unknown(profile_providers(*profile), *providers, 0) {
                Some(unknown) => invalid(
                    "profile "@ + name@ + " references unknown provider "@ + unknown,
                ),
                None => None,
            },
        ),
{
    let ghost names = profile_providers(*profile);
    let total: usize = profile.fallbacks.len();
    if !providers.contains(profile.primary.as_str()) {
        return Err(unknown_provider(name, profile.primary.as_str()));
    }
    for i in 0..total
        invariant
            names == profile_providers(*profile),
            total == profile.fallbacks@.len(),
            first_unknown(names, *providers, 0) == first_unknown(names, *providers, i + 1),
    {
        let provider = profile.fallbacks[i].as_str();
        assert(provider@ == names[i + 1]);
        if !providers.contains(provider) {
            return Err(unknown_provider(name, provider));
        }
    }
    Ok(())
}

fn unknown_provider(profile: &str, provider: &str) -> (error: VoxError)
    ensures
        error.says(
            ErrorCategory::Configuration,
            "config.invalid"@,
            "profile "@ + profile@ + " references unknown provider "@ + provider@,
            false,
        ),
{
    let mut message = join3("profile ", profile, " references unknown provider ");
    message.append(provider);
    configuration(message.as_str())
}

fn check_timeout(timeout_seconds: u64) -> (r: Result<(), VoxError>)
    ensures
        checks(r, timeout_complaint(timeout_seconds)),
{
    if 1 <= timeout_seconds && timeout_seconds <= 300 {
        Ok(())
    } else {
        Err(configuration("provider timeout must be between 1 and 300 seconds"))
    }
}

fn check_cloud(
    model: &str,
    secret: &str,
    timeout_seconds: u64,
    endpoint: &str,
    message: &'static str,
) -> (r: Result<(), VoxError>)
    ensures
        checks(r, cloud_complaint(model@, secret@, timeout_seconds, endpoint@, message@)),
{
    if is_blank(model) || is_blank(secret) {
        return Err(configuration("cloud provider model and secret reference are required"));
    }
    match check_timeout(timeout_seconds) {
        Ok(_) => {},
        Err(error) => {
            return Err(error);
        },
    }
    crate::curl::validate_endpoint(endpoint, message)
}

fn check_provider(provider: &ProviderConfig) -> (r: Result<(), VoxError>)
    ensures
        checks(r, provider_complaint(*provider)),
{
    match provider {
        ProviderConfig::Mock { text } => if is_blank(text.as_str()) {
            Err(configuration("mock provider text is empty"))
        } else {
            Ok(())
        },
        ProviderConfig::OpenaiCompatible { endpoint, model, secret, timeout_seconds } =>
            check_cloud(
            model.as_str(),
            secret.as_str(),
            *timeout_seconds,
            endpoint.as_str(),
            "provider endpoint must use HTTPS or loopback HTTP",
        ),
        ProviderConfig::Deepgram { endpoint, model, secret, timeout_seconds, .. } => check_cloud(
            model.as_str(),
            secret.as_str(),
            *timeout_seconds,
            endpoint.as_str(),
            "Deepgram endpoint must use HTTPS or loopback HTTP",
        ),
        ProviderConfig::Command { program, timeout_seconds, .. } => {
            match check_timeout(*timeout_seconds) {
                Ok(_) => {},
                Err(error) => {
                    return Err(error);
                },
            }
            if is_blank(program.as_str()) {
                Err(configuration("command provider program is empty"))
            } else if !starts_with(program.as_str(), "/") {
                Err(configuration("command provider program must be an absolute path"))
            } else {
                Ok(())
            }
        },
    }
}

fn is_zero(limit: Option<u64>) -> (r: bool)
    ensures
        r == (limit == Some(0u64)),
{
    match limit {
        Some(limit) => limit == 0,
        None => false,
    }
}

fn check_quota(name: &str, quota: &ProviderQuotaConfig, providers: &Table<ProviderConfig>) -> (r:
    Result<(), VoxError>)
    ensures
        checks(
            r,
            if !providers.has(name@) {
                invalid("quota references unknown provider "@ + name@)
            } else if quota.request_limit == Some(0u64) || quota.audio_seconds_limit == Some(0u64)
                || quota.token_limit == Some(0u64) {
                invalid("provider quota limits must be positive"@)
            } else {
                None
            },
        ),
{
    if !providers.contains(name) {
        let message = join2("quota references unknown provider ", name);
        return Err(configuration(message.as_str()));
    }
    if is_zero(quota.request_limit) || is_zero(quota.audio_seconds_limit) || is_zero(
        quota.token_limit,
    ) {
        return Err(configuration("provider quota limits must be positive"));
    }
    Ok(())
}

fn check_audio(audio: &AudioConfig) -> (r: Result<(), VoxError>)
    ensures
        checks(r, audio_complaint(*audio)),
{
    if audio.vad_rms_threshold == 0 || audio.vad_rms_threshold > 10_000 {
        return Err(configuration("VAD RMS threshold must be between 1 and 10000"));
    }
    if audio.maximum_duration_seconds < 5 || audio.maximum_duration_seconds > 3_600 {
        return Err(
            configuration("maximum recording duration must be between 5 and 3600 seconds"),
        );
    }
    if audio.vad_minimum_voiced_frames < 1 || audio.vad_minimum_voiced_frames > 100 {
        return Err(configuration("VAD minimum voiced frames must be between 1 and 100"));
    }
    if audio.minimum_duration_millis < 50 || audio.minimum_duration_millis > 10_000 {
        return Err(
            configuration("minimum recording duration must be between 50 and 10000 milliseconds"),
        );
    }
    Ok(())
}

impl Config {
    fn check_profiles(&self) -> (r: Result<(), VoxError>)
        ensures
            checks(r, profile_complaint(self.profiles.rows(), self.providers, 0)),
    {
        let ghost rows = self.profiles.rows();
        let total: usize = self.profiles.len();
        for i in 0..total
            invariant
                rows == self.profiles.rows(),
                total == rows.len(),
                profile_complaint(rows, self.providers, 0) == profile_complaint(
                    rows,
                    self.providers,
                    i as int,
                ),
        {
            match check_profile(
                self.profiles.name_at(i),
                self.profiles.value_at(i),
                &self.providers,
            ) {
                Ok(_) => {},
                Err(error) => {
                    return Err(error);
                },
            }
        }
        Ok(())
    }

    fn check_providers(&self) -> (r: Result<(), VoxError>)
        ensures
            checks(r, providers_complaint(self.providers.rows(), 0)),
    {
        let ghost rows = self.providers.rows();
        let total: usize = self.providers.len();
        for i in 0..total
            invariant
                rows == self.providers.rows(),
                total == rows.len(),
                providers_complaint(rows, 0) == providers_complaint(rows, i as int),
        {
            match check_provider(self.providers.value_at(i)) {
                Ok(_) => {},
                Err(error) => {
                    return Err(error);
                },
            }
        }
        Ok(())
    }

    fn check_quotas(&self) -> (r: Result<(), VoxError>)
        ensures
            checks(r, quota_complaint(self.quotas.rows(), self.providers, 0)),
    {
        let ghost rows = self.quotas.rows();
        let total: usize = self.quotas.len();
        for i in 0..total
            invariant
                rows == self.quotas.rows(),
                total == rows.len(),
                quota_complaint(rows, self.providers, 0) == quota_complaint(
                    rows,
                    self.providers,
                    i as int,
                ),
        {
            match check_quota(self.quotas.name_at(i), self.quotas.value_at(i), &self.providers) {
                Ok(_) => {},
                Err(error) => {
                    return Err(error);
                },
            }
        }
        Ok(())
    }

    /// Validates cross-references and safety limits.
    ///
    /// Unsupported schema versions, missing providers or profiles, and unsafe limits are refused.
    pub fn validate(&self) -> (r: Result<(), VoxError>)
        ensures
            checks(r, config_complaint(*self)),
    {
        if self.schema_version != 1 {
            return Err(configuration("unsupported schema_version"));
        }
        if !self.profiles.contains(self.default_profile.as_str()) {
            return Err(configuration("default_profile does not exist"));
        }
        match self.check_profiles() {
            Ok(_) => {},
            Err(error) => {
                return Err(error);
            },
        }
        match self.check_providers() {
            Ok(_) => {},
            Err(error) => {
                return Err(error);
            },
        }
        match self.check_quotas() {
            Ok(_) => {},
            Err(error) => {
                return Err(error);
            },
        }
        check_audio(&self.audio)
    }

    /// The name under which a profile is looked up.
    pub open spec fn profile_name(self, requested: Option<Seq<char>>) -> Seq<char> {
        match requested {
            Some(name) if name.len() > 0 => name,
            _ => self.default_profile@,
        }
    }

    /// The profile that was asked for, or the default one, with its name.
    pub fn profile(&self, requested: Option<&str>) -> (r: Option<(&str, &ProfileConfig)>)
        ensures
            ({
                let name = self.profile_name(
                    match requested {
                        Some(name) => Some(name@),
                        None => None,
                    },
                );
                match r {
                    Some(found) => {
                        &&& self.profiles.has(name)
                        &&& found.0@ == name
                        &&& *found.1 == self.profiles.value_of(name)
                    },
                    None => !self.profiles.has(name),
                }
            }),
    {
        match requested {
            Some(name) => {
                if name.unicode_len() > 0 {
                    return self.profiles.get_row(name);
                }
            },
            None => {},
        }
        self.profiles.get_row(self.default_profile.as_str())
    }
}

/// The file of the configuration could not be parsed.
pub fn parse_failure(path: &str, reason: &str) -> (error: VoxError)
    ensures
        error.says(
            ErrorCategory::Configuration,
            "config.parse_failed"@,
            path@ + ": "@ + reason@,
            false,
        ),
{
    let message = join3(path, ": ", reason);
    VoxError::new(ErrorCategory::Configuration, "config.parse_failed", message.as_str())
}

/// The file of the configuration could not be read or written.
pub fn config_io(reason: &str) -> (error: VoxError)
    ensures
        error.says(ErrorCategory::Configuration, "config.io_failed"@, reason@, false),
{
    VoxError::new(ErrorCategory::Configuration, "config.io_failed", reason)
}

/// What `secret-tool` said to a lookup.
#[derive(Debug)]
pub enum SecretLookup {
    /// It could not be started, for this reason.
    Unstarted(String),
    Missing,
    Found(Vec<u8>),
}

/// The arguments of `secret-tool` that look a secret up.
pub fn lookup_arguments(name: &str) -> (arguments: Vec<String>)
    ensures
        texts(arguments@) == seq!["lookup"@, "application"@, "voxtype"@, "name"@, name@],
{
    let mut arguments: Vec<String> = Vec::new();
    arguments.push(owned("lookup"));
    arguments.push(owned("application"));
    arguments.push(owned("voxtype"));
    arguments.push(owned("name"));
    arguments.push(owned(name));
    assert(texts(arguments@) =~= seq!["lookup"@, "application"@, "voxtype"@, "name"@, name@]);
    arguments
}

/// The arguments of `secret-tool` that store a secret.
pub fn store_arguments(name: &str) -> (arguments: Vec<String>)
    ensures
        texts(arguments@) == seq![
            "store"@,
            "--label=VoxType provider: "@ + name@,
            "application"@,
            "voxtype"@,
            "name"@,
            name@,
        ],
{
    let mut arguments: Vec<String> = Vec::new();
    arguments.push(owned("store"));
    arguments.push(join2("--label=VoxType provider: ", name));
    arguments.push(owned("application"));
    arguments.push(owned("voxtype"));
    arguments.push(owned("name"));
    arguments.push(owned(name));
    assert(texts(arguments@) =~= seq![
        "store"@,
        "--label=VoxType provider: "@ + name@,
        "application"@,
        "voxtype"@,
        "name"@,
        name@,
    ]);
    arguments
}

/// The text without the line breaks at its end.
pub open spec fn without_line_end(text: Seq<char>) -> Seq<char>
    decreases text.len(),
{
    if text.len() > 0 && (text.last() == '\n' || text.last() == '\r') {
        without_line_end(text.drop_last())
    } else {
        text
    }
}

fn strip_line_end(text: &str) -> (r: &str)
    ensures
        r@ == without_line_end(text@),
{
    let chars = to_chars(text);
    let mut n: usize = chars.len();
    assert(text@.take(n as int) =~= text@);
    while n > 0 && (chars[n - 1] == '\n' || chars[n - 1] == '\r')
        invariant
            chars@ == text@,
            n <= chars@.len(),
            without_line_end(text@) == without_line_end(text@.take(n as int)),
        decreases n,
    {
        assert(text@.take(n as int).drop_last() =~= text@.take(n - 1));
        n -= 1;
    }
    let r = text.substring_char(0, n);
    assert(r@ =~= text@.take(n as int));
    r
}

/// The text that a lookup found.
pub open spec fn stored_text(lookup: SecretLookup) -> Option<Seq<char>> {
    match lookup {
        SecretLookup::Found(bytes) => if valid_utf8(bytes@) && without_line_end(
            decode_utf8(bytes@),
        ).len() > 0 {
            Some(without_line_end(decode_utf8(bytes@)))
        } else {
            None
        },
        _ => None,
    }
}

/// Why a lookup of the secret `name` found no text.
pub open spec fn lookup_error(error: VoxError, name: Seq<char>, lookup: SecretLookup) -> bool {
    match lookup {
        SecretLookup::Unstarted(reason) => error.says(
            ErrorCategory::Unavailable,
            "secret.service_unavailable"@,
            "could not start secret-tool: "@ + reason@,
            false,
        ),
        SecretLookup::Missing => error.says(
            ErrorCategory::Authentication,
            "secret.not_found"@,
            "secret "@ + name + " is not available in Secret Service"@,
            false,
        ),
        SecretLookup::Found(bytes) => if !valid_utf8(bytes@) {
            error.says(
                ErrorCategory::Authentication,
                "secret.invalid_encoding"@,
                "stored secret is not valid UTF-8"@,
                false,
            )
        } else {
            error.says(
                ErrorCategory::Authentication,
                "secret.empty"@,
                "secret "@ + name + " is empty"@,
                false,
            )
        },
    }
}

/// The text of a secret that was looked up.
pub fn lookup_secret_text(name: &str, lookup: SecretLookup) -> (r: Result<String, VoxError>)
    ensures
        match stored_text(lookup) {
            Some(text) => r matches Ok(value) && value@ == text,
            None => r matches Err(error) && lookup_error(error, name@, lookup),
        },
{
    match lookup {
        SecretLookup::Unstarted(reason) => {
            let message = join2("could not start secret-tool: ", reason.as_str());
            Err(
                VoxError::new(
                    ErrorCategory::Unavailable,
                    "secret.service_unavailable",
                    message.as_str(),
                ),
            )
        },
        SecretLookup::Missing => {
            let message = join3("secret ", name, " is not available in Secret Service");
            Err(
                VoxError::new(
                    ErrorCategory::Authentication,
                    "secret.not_found",
                    message.as_str(),
                ),
            )
        },
        SecretLookup::Found(bytes) => match decode_text(bytes) {
            Err(_) => Err(
                VoxError::new(
                    ErrorCategory::Authentication,
                    "secret.invalid_encoding",
                    "stored secret is not valid UTF-8",
                ),
            ),
            Ok(stored) => {
                let value = strip_line_end(stored.as_str());
                if value.unicode_len() == 0 {
                    let message = join3("secret ", name, " is empty");
                    return Err(
                        VoxError::new(
                            ErrorCategory::Authentication,
                            "secret.empty",
                            message.as_str(),
                        ),
                    );
                }
                Ok(owned(value))
            },
        },
    }
}

/// The secret that was looked up, if it is one that may go into a header.
pub fn lookup_secret(name: &str, lookup: SecretLookup) -> (r: Result<SecretString, VoxError>)
    ensures
        match stored_text(lookup) {
            Some(text) => SecretString::tried(r, text),
            None => r matches Err(error) && lookup_error(error, name@, lookup),
        },
{
    match lookup_secret_text(name, lookup) {
        Err(error) => Err(error),
        Ok(value) => SecretString::try_new(value),
    }
}

/// The secret of a Deepgram provider that was looked up, under the same rules.
pub fn lookup_deepgram_secret(name: &str, lookup: SecretLookup) -> (r: Result<
    SecretString,
    VoxError,
>)
    ensures
        match stored_text(lookup) {
            Some(text) => SecretString::tried(r, text),
            None => r matches Err(error) && lookup_error(error, name@, lookup),
        },
{
    lookup_secret(name, lookup)
}

/// `secret-tool` could not store a secret, from its diagnostics.
pub fn store_failure(stderr: &[u8]) -> (error: VoxError)
    ensures
        error.says(
            ErrorCategory::Unavailable,
            "secret.store_failed"@,
            trimmed(lossy_text(stderr@)),
            false,
        ),
{
    let diagnostics = decode_lossy(stderr);
    VoxError::new(
        ErrorCategory::Unavailable,
        "secret.store_failed",
        trim(diagnostics.as_str()),
    )
}

/// What is known of a secret without its value: whether the lookup could be started, and whether
/// it succeeded.
pub fn secret_state(success: Option<bool>) -> (r: &'static str)
    ensures
        r@ == (match success {
            Some(true) => "configured"@,
            Some(false) => "missing"@,
            None => "unavailable"@,
        }),
{
    match success {
        Some(found) => if found {
            "configured"
        } else {
            "missing"
        },
        None => "unavailable",
    }
}

/// A configuration without fault names only providers that it configures, and its default profile
/// exists.
pub proof fn law_valid_references(config: Config, row: int, at: int)
    requires
        config_complaint(config) is None,
        0 <= row < config.profiles.rows().len(),
        0 <= at < profile_providers(config.profiles.rows()[row].1).len(),
    ensures
        config.profiles.has(config.default_profile@),
        config.providers.has(profile_providers(config.profiles.rows()[row].1)[at]),
{
    lemma_profile_row(config.profiles.rows(), config.providers, 0, row);
    lemma_known(profile_providers(config.profiles.rows()[row].1), config.providers, 0, at);
}

proof fn lemma_profile_row(
    rows: Seq<(Seq<char>, ProfileConfig)>,
    providers: Table<ProviderConfig>,
    i: int,
    row: int,
)
    requires
        0 <= i <= row < rows.len(),
        profile_complaint(rows, providers, i) is None,
    ensures
        first_unknown(profile_providers(rows[row].1), providers, 0) is None,
    decreases rows.len() - i,
{
    if i < row {
        lemma_profile_row(rows, providers, i + 1, row);
    }
}

proof fn lemma_known(names: Seq<Seq<char>>, providers: Table<ProviderConfig>, i: int, at: int)
    requires
        0 <= i <= at < names.len(),
        first_unknown(names, providers, i) is None,
    ensures
        providers.has(names[at]),
    decreases names.len() - i,
{
    if i < at {
        lemma_known(names, providers, i + 1, at);
    }
}

/// A provider without fault never sends audio or a key over a plain connection to another
/// machine.
pub proof fn law_valid_endpoint_is_secure(provider: ProviderConfig)
    requires
        provider_complaint(provider) is None,
    ensures
        provider matches ProviderConfig::OpenaiCompatible { endpoint, .. } ==> secure_endpoint(
            endpoint@,
        ),
        provider matches ProviderConfig::Deepgram { endpoint, .. } ==> secure_endpoint(endpoint@),
{
}

/// A provider that can be used as it is configured: a fixed text says something; a service has a
/// model, a key and a safe address; a program is named by its full path; and what may take its time
/// has from 1 to 300 seconds.
pub open spec fn usable_provider(provider: ProviderConfig) -> bool {
    match provider {
        ProviderConfig::Mock { text } => !blank(text@),
        ProviderConfig::OpenaiCompatible { endpoint, model, secret, timeout_seconds } => {
            &&& !blank(model@) && !blank(secret@)
            &&& 1 <= timeout_seconds <= 300
            &&& secure_endpoint(endpoint@)
        },
        ProviderConfig::Deepgram { endpoint, model, secret, timeout_seconds, .. } => {
            &&& !blank(model@) && !blank(secret@)
            &&& 1 <= timeout_seconds <= 300
            &&& secure_endpoint(endpoint@)
        },
        ProviderConfig::Command { program, timeout_seconds, .. } => {
            &&& 1 <= timeout_seconds <= 300
            &&& program@.len() > 0 && program@[0] == '/'
        },
    }
}

/// A limit that a quota sets is above zero.
pub open spec fn positive(limit: Option<u64>) -> bool {
    limit is None || limit->0 > 0
}

/// A configuration is accepted exactly where it has the version 1, its default profile exists, every
/// profile names configured providers only, every provider is usable, every quota is of a configured
/// provider and positive, and the numbers for the recording lie in their ranges.
pub proof fn law_good_configuration_is_accepted(config: Config)
    ensures
        config_complaint(config) is None <==> {
            &&& config.schema_version == 1
            &&& config.profiles.has(config.default_profile@)
            &&& forall|i: int, k: int|
                0 <= i < config.profiles.rows().len() && 0 <= k < profile_providers(
                    config.profiles.rows()[i].1,
                ).len() ==> config.providers.has(
                    #[trigger] profile_providers(config.profiles.rows()[i].1)[k],
                )
            &&& forall|i: int|
                0 <= i < config.providers.rows().len() ==> usable_provider(
                    (#[trigger] config.providers.rows()[i]).1,
                )
            &&& forall|i: int|
                0 <= i < config.quotas.rows().len() ==> {
                    let row = #[trigger] config.quotas.rows()[i];
                    &&& config.providers.has(row.0)
                    &&& positive(row.1.request_limit) && positive(row.1.audio_seconds_limit)
                        && positive(row.1.token_limit)
                }
            &&& 1 <= config.audio.vad_rms_threshold <= 10_000
            &&& 5 <= config.audio.maximum_duration_seconds <= 3_600
            &&& 1 <= config.audio.vad_minimum_voiced_frames <= 100
            &&& 50 <= config.audio.minimum_duration_millis <= 10_000
        },
{
    lemma_profiles_known(config.profiles.rows(), config.providers, 0);
    lemma_providers_usable(config.providers.rows(), 0);
    lemma_quotas_positive(config.quotas.rows(), config.providers, 0);
}

proof fn lemma_all_known(names: Seq<Seq<char>>, providers: Table<ProviderConfig>, from: int)
    requires
        0 <= from <= names.len(),
    ensures
        first_unknown(names, providers, from) is None <==> forall|k: int|
            from <= k < names.len() ==> providers.has(#[trigger] names[k]),
    decreases names.len() - from,
{
    if from < names.len() {
        lemma_all_known(names, providers, from + 1);
    }
}

proof fn lemma_profiles_known(
    rows: Seq<(Seq<char>, ProfileConfig)>,
    providers: Table<ProviderConfig>,
    from: int,
)
    requires
        0 <= from <= rows.len(),
    ensures
        profile_complaint(rows, providers, from) is None <==> forall|i: int, k: int|
            from <= i < rows.len() && 0 <= k < profile_providers(rows[i].1).len()
                ==> providers.has(#[trigger] profile_providers(rows[i].1)[k]),
    decreases rows.len() - from,
{
    if from < rows.len() {
        lemma_profiles_known(rows, providers, from + 1);
        let names = profile_providers(rows[from].1);
        lemma_all_known(names, providers, 0);
        if profile_complaint(rows, providers, from) is None {
            assert forall|i: int, k: int|
                from <= i < rows.len() && 0 <= k < profile_providers(rows[i].1).len() implies
                providers.has(#[trigger] profile_providers(rows[i].1)[k]) by {
                if i == from {
                    assert(providers.has(names[k]));
                }
            }
        } else if first_unknown(names, providers, 0) is Some {
            let k = choose|k: int| 0 <= k < names.len() && !providers.has(#[trigger] names[k]);
            assert(!providers.has(profile_providers(rows[from].1)[k]));
        }
    }
}

proof fn lemma_providers_usable(rows: Seq<(Seq<char>, ProviderConfig)>, from: int)
    requires
        0 <= from <= rows.len(),
    ensures
        providers_complaint(rows, from) is None <==> forall|i: int|
            from <= i < rows.len() ==> usable_provider((#[trigger] rows[i]).1),
    decreases rows.len() - from,
{
    if from < rows.len() {
        lemma_providers_usable(rows, from + 1);
        law_usable_provider_is_accepted(rows[from].1);
    }
}

/// A provider is accepted exactly where it is usable.
pub proof fn law_usable_provider_is_accepted(provider: ProviderConfig)
    ensures
        provider_complaint(provider) is None <==> usable_provider(provider),
{
    reveal_strlit("/");
    if let ProviderConfig::Command { program, .. } = provider {
        let text = program@;
        if text.len() > 0 {
            assert(text.subrange(0, 1)[0] == text[0]);
            if text[0] == '/' {
                assert(text.subrange(0, 1) =~= "/"@);
                assert(!blank(text));
            }
        }
    }
}

proof fn lemma_quotas_positive(
    rows: Seq<(Seq<char>, ProviderQuotaConfig)>,
    providers: Table<ProviderConfig>,
    from: int,
)
    requires
        0 <= from <= rows.len(),
    ensures
        quota_complaint(rows, providers, from) is None <==> forall|i: int|
            from <= i < rows.len() ==> {
                let row = #[trigger] rows[i];
                &&& providers.has(row.0)
                &&& positive(row.1.request_limit) && positive(row.1.audio_seconds_limit)
                    && positive(row.1.token_limit)
            },
    decreases rows.len() - from,
{
    if from < rows.len() {
        lemma_quotas_positive(rows, providers, from + 1);
    }
}

/// Every complaint is one of configuration, or of an address that is not safe.
pub proof fn law_insecure_address_has_its_own_code(provider: ProviderConfig)
    ensures
        provider_complaint(provider) is Some ==> {
            &&& (provider_complaint(provider)->0).0 == "config.invalid"@ || (provider_complaint(
                provider,
            )->0).0 == "provider.insecure_endpoint"@
            &&& provider is Mock || provider is Command ==> (provider_complaint(provider)->0).0
                == "config.invalid"@
        },
        provider matches ProviderConfig::OpenaiCompatible {
            endpoint,
            model,
            secret,
            timeout_seconds,
        } ==> !blank(model@) && !blank(secret@) && 1 <= timeout_seconds <= 300 && !secure_endpoint(
            endpoint@,
        ) ==> (provider_complaint(provider)->0).0 == "provider.insecure_endpoint"@,
{
}

/// Reading a secret takes away the line breaks at its end, and nothing else.
pub proof fn law_secret_loses_only_line_breaks(text: Seq<char>, n: int)
    requires
        0 <= n <= text.len(),
        forall|i: int| n <= i < text.len() ==> #[trigger] text[i] == '\n' || text[i] == '\r',
        n == 0 || text[n - 1] != '\n' && text[n - 1] != '\r',
    ensures
        without_line_end(text) == text.take(n),
    decreases text.len(),
{
    if n == text.len() {
        assert(text.take(n) =~= text);
    } else {
        assert(text[text.len() - 1] == '\n' || text[text.len() - 1] == '\r');
        law_secret_loses_only_line_breaks(text.drop_last(), n);
        assert(text.drop_last().take(n) =~= text.take(n));
    }
}

/// A profile that is asked for by name is looked up under that name, and no name means the default.
pub proof fn law_no_name_means_the_default(config: Config, name: Seq<char>)
    ensures
        name.len() > 0 ==> config.profile_name(Some(name)) == name,
        config.profile_name(Some(Seq::empty())) == config.default_profile@,
        config.profile_name(None) == config.default_profile@,
{
}

} // verus!
