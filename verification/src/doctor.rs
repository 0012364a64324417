//! What the command line tells of a configuration, a microphone and a desktop.

use crate::client::SessionResult;
use crate::config::{Config, ProviderConfig};
use crate::error::VoxError;
use crate::fcitx::{FcitxContext, FcitxTarget};
use crate::text::{
    after_first, before_first, decimal, has_char, join2, join3, join_text, joined_text, lines,
    lines_of, owned, same_text, split_once, texts, trim, trimmed, write_number,
};
use crate::vad::VadResult;
use vstd::prelude::*;
use vstd::string::*;

verus! {

/// The lowest peak that counts as clipped.
pub const CLIPPING_PEAK: u16 = 32_000;

/// How loud a recording is at its loudest.
pub open spec fn level_word(peak: u16) -> Seq<char> {
    if peak >= CLIPPING_PEAK {
        "clipping"@
    } else if peak < 500 {
        "too-quiet"@
    } else {
        "ok"@
    }
}

pub fn microphone_level_status(peak: u16) -> (r: &'static str)
    ensures
        r@ == level_word(peak),
{
    if peak >= CLIPPING_PEAK {
        "clipping"
    } else if peak < 500 {
        "too-quiet"
    } else {
        "ok"
    }
}

/// A threshold that lies above the noise.
pub open spec fn threshold_above(noise_floor: u16) -> u16 {
    let level = 2 * noise_floor + 80;
    if level > u16::MAX {
        u16::MAX
    } else {
        level as u16
    }
}

pub fn threshold_above_noise(noise_floor: u16) -> (r: u16)
    ensures
        r == threshold_above(noise_floor),
{
    let level: u32 = 2 * noise_floor as u32 + 80;
    if level > 65_535 {
        65_535
    } else {
        level as u16
    }
}

/// What is told of a test recording, up to the share of speech in it.
pub open spec fn audio_line(
    backend: Seq<char>,
    bytes: u64,
    duration_millis: u64,
    result: VadResult,
) -> Seq<char> {
    "audio.capture=ok backend="@ + backend + " bytes="@ + decimal(bytes as nat) + " duration_ms="@
        + decimal(duration_millis as nat) + " format=s16le rate=16000 channels=1 rms="@ + decimal(
        result.average_rms as nat,
    ) + " peak="@ + decimal(result.peak as nat) + " level="@ + level_word(result.peak)
        + " noise_floor="@ + decimal(result.noise_floor as nat) + " threshold="@ + decimal(
        result.adaptive_threshold as nat,
    ) + " suggested_threshold="@ + decimal(threshold_above(result.noise_floor) as nat)
}

/// Tells of a test recording; one without any bytes is an error.
pub fn describe_audio(backend: &str, bytes: u64, duration_millis: u64, result: &VadResult) -> (r:
    Result<String, &'static str>)
    ensures
        match r {
            Ok(line) => bytes > 0 && line@ == audio_line(
                backend@,
                bytes,
                duration_millis,
                *result,
            ),
            Err(message) => bytes == 0 && message@ == "audio capture produced no PCM data"@,
        },
{
    if bytes == 0 {
        return Err("audio capture produced no PCM data");
    }
    let size = write_number(bytes);
    let millis = write_number(duration_millis);
    let rms = write_number(result.average_rms as u64);
    let peak = write_number(result.peak as u64);
    let noise = write_number(result.noise_floor as u64);
    let threshold = write_number(result.adaptive_threshold as u64);
    let suggested = write_number(threshold_above_noise(result.noise_floor) as u64);
    let mut line = join3("audio.capture=ok backend=", backend, " bytes=");
    line.append(size.as_str());
    line.append(" duration_ms=");
    line.append(millis.as_str());
    line.append(" format=s16le rate=16000 channels=1 rms=");
    line.append(rms.as_str());
    line.append(" peak=");
    line.append(peak.as_str());
    line.append(" level=");
    line.append(microphone_level_status(result.peak));
    line.append(" noise_floor=");
    line.append(noise.as_str());
    line.append(" threshold=");
    line.append(threshold.as_str());
    line.append(" suggested_threshold=");
    line.append(suggested.as_str());
    Ok(line)
}

/// Whether a recording is clipped at its loudest.
pub fn is_clipped(peak: u16) -> (r: bool)
    ensures
        r == (peak >= CLIPPING_PEAK),
{
    peak >= CLIPPING_PEAK
}

/// The value of the first line from `i` on that sets the key.
pub open spec fn value_from(all: Seq<Seq<char>>, key: Seq<char>, i: int) -> Option<Seq<char>>
    decreases all.len() - i,
{
    if i < 0 || i >= all.len() {
        None
    } else if has_char(all[i], '=') && trimmed(before_first(all[i], '=')) == key {
        Some(trimmed(after_first(all[i], '=')))
    } else {
        value_from(all, key, i + 1)
    }
}

/// The value of a key in a file of lines `key=value`.
pub fn config_value(contents: &str, key: &str) -> (r: Option<String>)
    ensures
        match r {
            Some(value) => value_from(lines_of(contents@), key@, 0) == Some(value@),
            None => value_from(lines_of(contents@), key@, 0) is None,
        },
{
    let all = lines(contents);
    let ghost views = texts(all@);
    for i in 0..all.len()
        invariant
            views == texts(all@),
            views == lines_of(contents@),
            value_from(views, key@, 0) == value_from(views, key@, i as int),
    {
        assert(views[i as int] == all@[i as int]@);
        match split_once(all[i].as_str(), '=') {
            Some((name, value)) => {
                if same_text(trim(name), key) {
                    return Some(owned(trim(value)));
                }
            },
            None => {},
        }
    }
    None
}

pub open spec fn counts_text(config: Config) -> Seq<char> {
    " schema="@ + decimal(config.schema_version as nat) + " profiles="@ + decimal(
        config.profiles.rows().len(),
    ) + " providers="@ + decimal(config.providers.rows().len())
}

/// What is told of a configuration that is valid, behind the given word.
pub fn describe_config(word: &str, config: &Config) -> (line: String)
    ensures
        line@ == word@ + counts_text(*config),
{
    let schema = write_number(config.schema_version as u64);
    let profiles = write_number(config.profiles.len() as u64);
    let providers = write_number(config.providers.len() as u64);
    let mut line = owned(word);
    line.append(" schema=");
    line.append(schema.as_str());
    line.append(" profiles=");
    line.append(profiles.as_str());
    line.append(" providers=");
    line.append(providers.as_str());
    assert(line@ =~= word@ + counts_text(*config));
    line
}

/// The word for the kind of a provider.
pub open spec fn kind_word(provider: ProviderConfig) -> Seq<char> {
    match provider {
        ProviderConfig::Mock { .. } => "mock"@,
        ProviderConfig::OpenaiCompatible { .. } => "openai-compatible"@,
        ProviderConfig::Deepgram { .. } => "deepgram"@,
        ProviderConfig::Command { .. } => "command"@,
    }
}

pub fn provider_kind(provider: &ProviderConfig) -> (r: &'static str)
    ensures
        r@ == kind_word(*provider),
{
    match provider {
        ProviderConfig::Mock { .. } => "mock",
        ProviderConfig::OpenaiCompatible { .. } => "openai-compatible",
        ProviderConfig::Deepgram { .. } => "deepgram",
        ProviderConfig::Command { .. } => "command",
    }
}

/// The secret that a provider refers to.
pub open spec fn secret_of(provider: ProviderConfig) -> Option<Seq<char>> {
    match provider {
        ProviderConfig::OpenaiCompatible { secret, .. } => Some(secret@),
        ProviderConfig::Deepgram { secret, .. } => Some(secret@),
        _ => None,
    }
}

pub fn provider_secret(provider: &ProviderConfig) -> (r: Option<&str>)
    ensures
        match r {
            Some(secret) => secret_of(*provider) == Some(secret@),
            None => secret_of(*provider) is None,
        },
{
    match provider {
        ProviderConfig::OpenaiCompatible { secret, .. } => Some(secret.as_str()),
        ProviderConfig::Deepgram { secret, .. } => Some(secret.as_str()),
        _ => None,
    }
}

/// What a lookup says of a secret.
pub open spec fn lookup_word(failure: Option<VoxError>) -> Seq<char> {
    match failure {
        None => "ok"@,
        Some(error) => if error.code_text() == "secret.not_found"@ {
            "missing"@
        } else {
            "unavailable"@
        },
    }
}

/// What a lookup says of a secret; `failure` is why it was not found.
pub fn lookup_state(failure: Option<&VoxError>) -> (r: &'static str)
    ensures
        r@ == lookup_word(
            match failure {
                Some(error) => Some(*error),
                None => None,
            },
        ),
{
    match failure {
        None => "ok",
        Some(error) => if same_text(error.code(), "secret.not_found") {
            "missing"
        } else {
            "unavailable"
        },
    }
}

/// The lines that are printed for a provider; `secret` is what is known of its secret, where it
/// has one.
pub fn describe_provider(id: &str, provider: &ProviderConfig, secret: Option<&str>) -> (r: Vec<
    String,
>)
    ensures
        texts(r@) == (match secret {
            Some(state) => seq![
                "provider."@ + id@ + ".secret="@ + state@,
                "provider."@ + id@ + "=configured kind="@ + kind_word(*provider),
            ],
            None => seq!["provider."@ + id@ + "=configured kind="@ + kind_word(*provider)],
        }),
{
    let mut out: Vec<String> = Vec::new();
    match secret {
        Some(state) => {
            let mut line = join3("provider.", id, ".secret=");
            line.append(state);
            out.push(line);
        },
        None => {},
    }
    let mut line = join3("provider.", id, "=configured kind=");
    line.append(provider_kind(provider));
    out.push(line);
    assert(texts(out@) =~= (match secret {
        Some(state) => seq![
            "provider."@ + id@ + ".secret="@ + state@,
            "provider."@ + id@ + "=configured kind="@ + kind_word(*provider),
        ],
        None => seq!["provider."@ + id@ + "=configured kind="@ + kind_word(*provider)],
    }));
    out
}

/// Refuses an operation while the daemon is busy.
pub fn require_idle_daemon(operation: &str, status: &str) -> (r: Result<(), String>)
    ensures
        match r {
            Ok(_) => status@ == "idle"@,
            Err(message) => status@ != "idle"@ && message@ == operation@
                + " requires an idle daemon; current state="@ + status@,
        },
{
    if same_text(status, "idle") {
        Ok(())
    } else {
        Err(join3(operation, " requires an idle daemon; current state=", status))
    }
}

/// Refuses a probe of the focused program while the daemon is busy.
pub fn require_idle_for(probe: &str, status: &str) -> (r: Result<(), String>)
    ensures
        match r {
            Ok(_) => status@ == "idle"@,
            Err(message) => status@ != "idle"@ && message@ == probe@ + " requires an idle daemon"@,
        },
{
    if same_text(status, "idle") {
        Ok(())
    } else {
        Err(join2(probe, " requires an idle daemon"))
    }
}

/// What is told of a focused program.
pub fn describe_target(target: &FcitxTarget) -> (line: String)
    ensures
        line@ == "program="@ + target.program@ + " frontend="@ + target.frontend@,
{
    let mut line = join3("program=", target.program.as_str(), " frontend=");
    line.append(target.frontend.as_str());
    line
}

/// How far apart two positions are.
pub open spec fn distance(a: nat, b: nat) -> nat {
    if a < b {
        (b - a) as nat
    } else {
        (a - b) as nat
    }
}

/// What is told of the text round the cursor, without the text.
pub open spec fn context_line(context: FcitxContext) -> Seq<char> {
    "program="@ + context.target.program@ + " frontend="@ + context.target.frontend@
        + " generation="@ + decimal(context.generation as nat) + " chars="@ + decimal(
        context.text@.len(),
    ) + " cursor="@ + decimal(context.cursor as nat) + " anchor="@ + decimal(
        context.anchor as nat,
    ) + " selected_chars="@ + decimal(distance(context.cursor as nat, context.anchor as nat))
        + " truncated="@ + crate::text::truth_text(context.truncated) + " capabilities="@
        + joined_text(texts(context.capabilities@), ","@)
}

pub fn describe_context(context: &FcitxContext) -> (line: String)
    ensures
        line@ == context_line(*context),
{
    let generation = write_number(context.generation);
    let chars = write_number(context.text.as_str().unicode_len() as u64);
    let cursor = write_number(context.cursor as u64);
    let anchor = write_number(context.anchor as u64);
    let span: usize = if context.cursor < context.anchor {
        context.anchor - context.cursor
    } else {
        context.cursor - context.anchor
    };
    let selected = write_number(span as u64);
    let capabilities = join_text(&context.capabilities, ",");
    let mut line = describe_target(&context.target);
    line.append(" generation=");
    line.append(generation.as_str());
    line.append(" chars=");
    line.append(chars.as_str());
    line.append(" cursor=");
    line.append(cursor.as_str());
    line.append(" anchor=");
    line.append(anchor.as_str());
    line.append(" selected_chars=");
    line.append(selected.as_str());
    line.append(" truncated=");
    line.append(crate::text::write_truth(context.truncated));
    line.append(" capabilities=");
    line.append(capabilities.as_str());
    line
}

/// What is told of the end of a session.
pub open spec fn result_line(result: SessionResult) -> Seq<char> {
    "session="@ + result.session@ + " outcome="@ + result.outcome@ + " error_code="@
        + result.error_code@ + " backend="@ + result.backend@ + " chars="@ + decimal(
        result.char_count as nat,
    )
}

pub fn describe_result(result: &SessionResult) -> (line: String)
    ensures
        line@ == result_line(*result),
{
    let count = write_number(result.char_count);
    let mut line = join3("session=", result.session.as_str(), " outcome=");
    line.append(result.outcome.as_str());
    line.append(" error_code=");
    line.append(result.error_code.as_str());
    line.append(" backend=");
    line.append(result.backend.as_str());
    line.append(" chars=");
    line.append(count.as_str());
    line
}

/// The state of a service, as its manager printed it.
pub open spec fn service_word(output: Option<Seq<u8>>) -> Seq<char> {
    match output {
        Some(bytes) => {
            let word = trimmed(crate::text::lossy_text(bytes));
            if word.len() > 0 {
                word
            } else {
                "unavailable"@
            }
        },
        None => "unavailable"@,
    }
}

/// The state of a service; `output` is what its manager printed, where it ran.
pub fn service_state(output: Option<&[u8]>) -> (r: String)
    ensures
        r@ == service_word(
            match output {
                Some(bytes) => Some(bytes@),
                None => None,
            },
        ),
{
    match output {
        Some(bytes) => {
            let text = crate::text::decode_lossy(bytes);
            let word = trim(text.as_str());
            if word.unicode_len() > 0 {
                owned(word)
            } else {
                owned("unavailable")
            }
        },
        None => owned("unavailable"),
    }
}

/// The bytes without the line endings behind them.
pub open spec fn without_line_ends(bytes: Seq<u8>) -> Seq<u8>
    decreases bytes.len(),
{
    if bytes.len() > 0 && (bytes.last() == 10 || bytes.last() == 13) {
        without_line_ends(bytes.drop_last())
    } else {
        bytes
    }
}

/// A secret as it was typed: line endings behind it do not belong to it, and it is not empty.
pub fn typed_secret(bytes: Vec<u8>) -> (r: Result<Vec<u8>, &'static str>)
    ensures
        match r {
            Ok(secret) => secret@ == without_line_ends(bytes@) && secret@.len() > 0,
            Err(message) => without_line_ends(bytes@).len() == 0 && message@
                == "refusing to store an empty secret"@,
        },
{
    let mut secret = bytes;
    while secret.len() > 0 && (secret[secret.len() - 1] == 10 || secret[secret.len() - 1] == 13)
        invariant
            without_line_ends(secret@) == without_line_ends(bytes@),
        decreases secret@.len(),
    {
        let ghost before = secret@;
        let _end = secret.pop();
        assert(secret@ =~= before.drop_last());
    }
    if secret.len() == 0 {
        return Err("refusing to store an empty secret");
    }
    Ok(secret)
}

/// The threshold that is suggested is twice the noise and eighty more, as far as a level reaches.
pub proof fn law_suggested_threshold_clears_the_noise(noise_floor: u16)
    ensures
        noise_floor <= 32_727 ==> threshold_above(noise_floor) == 2 * noise_floor + 80,
        noise_floor > 32_727 ==> threshold_above(noise_floor) == 65_535,
        threshold_above(noise_floor) >= noise_floor,
{
}

/// A recording is called too quiet below a peak of 500 and clipping from 32000 on.
pub proof fn law_level_is_judged_by_its_peak(peak: u16)
    ensures
        level_word(peak) == (if peak < 500 {
            "too-quiet"@
        } else if peak < 32_000 {
            "ok"@
        } else {
            "clipping"@
        }),
{
}

/// The first line that sets a key gives its value, without the white space around it.
pub proof fn law_first_setting_counts(all: Seq<Seq<char>>, key: Seq<char>, i: int)
    requires
        0 <= i <= all.len(),
        forall|k: int|
            0 <= k < i ==> !has_char(#[trigger] all[k], '=') || trimmed(before_first(all[k], '='))
                != key,
        i == all.len() || has_char(all[i], '=') && trimmed(before_first(all[i], '=')) == key,
    ensures
        i == all.len() ==> value_from(all, key, 0) is None,
        i < all.len() ==> value_from(all, key, 0) == Some(trimmed(after_first(all[i], '='))),
{
    lemma_value_from(all, key, 0, i);
}

proof fn lemma_value_from(all: Seq<Seq<char>>, key: Seq<char>, from: int, i: int)
    requires
        0 <= from <= i <= all.len(),
        forall|k: int|
            from <= k < i ==> !has_char(#[trigger] all[k], '=') || trimmed(
                before_first(all[k], '='),
            ) != key,
        i == all.len() || has_char(all[i], '=') && trimmed(before_first(all[i], '=')) == key,
    ensures
        i == all.len() ==> value_from(all, key, from) is None,
        i < all.len() ==> value_from(all, key, from) == Some(trimmed(after_first(all[i], '='))),
    decreases i - from,
{
    if from < i {
        assert(!has_char(all[from], '=') || trimmed(before_first(all[from], '=')) != key);
        lemma_value_from(all, key, from + 1, i);
    }
}

/// Only line endings are taken away behind some bytes.
pub proof fn law_only_line_ends_are_taken(bytes: Seq<u8>, n: int)
    requires
        0 <= n <= bytes.len(),
        forall|i: int| n <= i < bytes.len() ==> #[trigger] bytes[i] == 10 || bytes[i] == 13,
        n == 0 || bytes[n - 1] != 10 && bytes[n - 1] != 13,
    ensures
        without_line_ends(bytes) == bytes.take(n),
    decreases bytes.len(),
{
    if n == bytes.len() {
        assert(bytes.take(n) =~= bytes);
    } else {
        assert(bytes[bytes.len() - 1] == 10 || bytes[bytes.len() - 1] == 13);
        law_only_line_ends_are_taken(bytes.drop_last(), n);
        assert(bytes.drop_last().take(n) =~= bytes.take(n));
    }
}

/// A provider refers to a secret exactly where it is a service, and to the one that is configured.
pub proof fn law_services_refer_to_their_secret(provider: ProviderConfig)
    ensures
        secret_of(provider) is Some <==> provider is OpenaiCompatible || provider is Deepgram,
        provider matches ProviderConfig::OpenaiCompatible { secret, .. } ==> secret_of(provider)
            == Some(secret@),
        provider matches ProviderConfig::Deepgram { secret, .. } ==> secret_of(provider) == Some(
            secret@,
        ),
{
}

} // verus!
