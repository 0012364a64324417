//! Pure two-phase microphone calibration for 16 kHz mono signed 16-bit PCM.

use crate::doubao::framer::stream_frame;
use crate::level::{
    clipped_of, lemma_clipped_bound, max_nat, min_nat, peak_of, percentile, percentile_of,
    rms_of, root_mean_square, sample_count, sum_frame,
};
use vstd::arithmetic::power::{
    lemma_pow_adds, lemma_pow_distributes, lemma_pow_multiplies, lemma_pow_positive,
    lemma_square_is_pow2, pow,
};
use vstd::prelude::*;
use vstd::slice::slice_subrange;

verus! {

/// Half a second of 20 ms frames.
pub const MIN_PHASE_FRAMES: usize = 25;

/// A sample of this magnitude counts as clipped.
pub const CLIPPING_LEVEL: u16 = 32_700;

#[derive(Clone, Copy, Debug, Eq, PartialEq, Structural)]
pub enum CalibrationConfidence {
    High,
    Medium,
    Low,
}

impl CalibrationConfidence {
    pub fn as_str(self) -> (r: &'static str)
        ensures
            r@ == (match self {
                CalibrationConfidence::High => "high"@,
                CalibrationConfidence::Medium => "medium"@,
                CalibrationConfidence::Low => "low"@,
            }),
    {
        match self {
            CalibrationConfidence::High => "high",
            CalibrationConfidence::Medium => "medium",
            CalibrationConfidence::Low => "low",
        }
    }
}

#[derive(Clone, Copy, Debug, Eq, PartialEq, Structural)]
pub enum CalibrationReason {
    Good,
    MarginalSnr,
    NoSpeech,
    TooQuiet,
    Clipping,
    UnstableNoise,
}

impl CalibrationReason {
    pub fn as_str(self) -> (r: &'static str)
        ensures
            r@ == (match self {
                CalibrationReason::Good => "good"@,
                CalibrationReason::MarginalSnr => "marginal-snr"@,
                CalibrationReason::NoSpeech => "no-speech"@,
                CalibrationReason::TooQuiet => "too-quiet"@,
                CalibrationReason::Clipping => "clipping"@,
                CalibrationReason::UnstableNoise => "unstable-noise"@,
            }),
    {
        match self {
            CalibrationReason::Good => "good",
            CalibrationReason::MarginalSnr => "marginal-snr",
            CalibrationReason::NoSpeech => "no-speech",
            CalibrationReason::TooQuiet => "too-quiet",
            CalibrationReason::Clipping => "clipping",
            CalibrationReason::UnstableNoise => "unstable-noise",
        }
    }
}

/// What a calibration found. Ratios are kept as the two counts that they are made of.
#[derive(Clone, Copy, Debug, Eq, PartialEq, Structural)]
pub struct CalibrationResult {
    pub noise_p20: u16,
    pub noise_p50: u16,
    pub noise_p95: u16,
    pub speech_p50: u16,
    pub speech_p95: u16,
    pub peak: u16,
    pub clipped_samples: u64,
    pub total_samples: u64,
    pub voiced_frames: u64,
    pub speech_frames: u64,
    pub suggested_threshold: u16,
    pub confidence: CalibrationConfidence,
    pub reason: CalibrationReason,
    pub can_apply: bool,
}

/// The phases are too short.
#[derive(Clone, Copy, Debug, Eq, PartialEq, Structural)]
pub struct CalibrationError;

impl CalibrationError {
    pub fn message(&self) -> (r: &'static str)
        ensures
            r@ == "calibration phases are too short"@,
    {
        "calibration phases are too short"
    }
}

/// The whole frames of a phase.
pub open spec fn phase_frames(pcm: Seq<u8>) -> nat {
    pcm.len() / 640
}

/// The levels of the whole frames of a phase.
pub open spec fn phase_levels(pcm: Seq<u8>) -> Seq<u16> {
    Seq::new(phase_frames(pcm), |i: int| rms_of(stream_frame(pcm, i)) as u16)
}

/// The highest magnitude in the first `n` frames of a phase.
pub open spec fn phase_peak(pcm: Seq<u8>, n: nat) -> nat
    decreases n,
{
    if n == 0 {
        0
    } else {
        max_nat(
            phase_peak(pcm, (n - 1) as nat),
            peak_of(stream_frame(pcm, n - 1), 320),
        )
    }
}

/// The clipped samples in the first `n` frames of a phase.
pub open spec fn phase_clipped(pcm: Seq<u8>, n: nat) -> nat
    decreases n,
{
    if n == 0 {
        0
    } else {
        phase_clipped(pcm, (n - 1) as nat) + clipped_of(
            stream_frame(pcm, n - 1),
            320,
            CLIPPING_LEVEL as nat,
        )
    }
}

/// What is known of a phase.
pub struct PhaseStats {
    pub levels: Vec<u16>,
    pub peak: u16,
    pub clipped_samples: u64,
    pub samples: u64,
}

pub fn phase_stats(pcm: &[u8]) -> (stats: PhaseStats)
    ensures
        stats.levels@ == phase_levels(pcm@),
        stats.peak == phase_peak(pcm@, phase_frames(pcm@)),
        stats.clipped_samples == phase_clipped(pcm@, phase_frames(pcm@)),
        stats.samples == 320 * phase_frames(pcm@),
        stats.clipped_samples <= stats.samples,
        stats.samples <= usize::MAX / 2,
{
    let total: usize = pcm.len() / 640;
    let mut levels: Vec<u16> = Vec::new();
    let mut peak: u16 = 0;
    let mut clipped_samples: u64 = 0;
    let mut samples: u64 = 0;
    for i in 0..total
        invariant
            total == phase_frames(pcm@),
            pcm@.len() <= usize::MAX,
            levels@ == phase_levels(pcm@).take(i as int),
            peak == phase_peak(pcm@, i as nat),
            clipped_samples == phase_clipped(pcm@, i as nat),
            clipped_samples <= samples,
            samples == 320 * i,
    {
        let frame = slice_subrange(pcm, 640 * i, 640 * (i + 1));
        assert(frame@ == stream_frame(pcm@, i as int));
        assert(sample_count(frame@.len()) == 320);
        let sum = sum_frame(frame, CLIPPING_LEVEL);
        proof {
            lemma_clipped_bound(frame@, 320, CLIPPING_LEVEL as nat);
        }
        if sum.peak > peak {
            peak = sum.peak;
        }
        clipped_samples = clipped_samples + sum.clipped;
        samples = samples + 320;
        let level: u16 = root_mean_square(sum.energy, sum.samples);
        levels.push(level);
        assert(phase_levels(pcm@).take(i + 1) =~= phase_levels(pcm@).take(i as int).push(level));
    }
    assert(phase_levels(pcm@).take(total as int) =~= phase_levels(pcm@));
    PhaseStats { levels, peak, clipped_samples, samples }
}

/// A quarter of the way from the noise to the speech, at least 80 above the noise and at most
/// 10000.
pub open spec fn threshold_between(noise_p95: nat, speech_p50: nat) -> nat {
    let above = if speech_p50 <= noise_p95 {
        80
    } else {
        max_nat(((speech_p50 - noise_p95) / 4) as nat, 80)
    };
    min_nat(noise_p95 + above, 10_000)
}

pub fn suggested_threshold(noise_p95: u16, speech_p50: u16) -> (r: u16)
    ensures
        r == threshold_between(noise_p95 as nat, speech_p50 as nat),
{
    let separation: u16 = speech_p50.saturating_sub(noise_p95);
    let quarter: u16 = separation / 4;
    let above: u16 = if quarter > 80 {
        quarter
    } else {
        80
    };
    let level: u16 = noise_p95.saturating_add(above);
    if level < 10_000 {
        level
    } else {
        10_000
    }
}

/// Twenty times the decimal logarithm of `speech` over `noise` is less than `decibels`.
pub open spec fn below_decibels(speech: nat, noise: nat, decibels: nat) -> bool {
    pow(speech as int, 20) < pow(10, decibels) * pow(noise as int, 20)
}

proof fn lemma_squares_keep_order(x: int, y: int)
    requires
        x >= 0,
        y >= 0,
    ensures
        x < y <==> x * x < y * y,
{
    if x < y {
        assert(x * x < y * y) by (nonlinear_arith)
            requires
                0 <= x < y,
        ;
    } else {
        assert(x * x >= y * y) by (nonlinear_arith)
            requires
                x >= y,
                y >= 0,
        ;
    }
}

proof fn lemma_below_by_fifth_powers(speech: nat, noise: nat, half: nat)
    ensures
        below_decibels(speech, noise, 2 * half) <==> pow(speech as int, 5) * pow(speech as int, 5)
            < pow(10, half) * (pow(noise as int, 5) * pow(noise as int, 5)),
{
    let s = speech as int;
    let n = noise as int;
    let a = pow(s, 5) * pow(s, 5);
    let b = pow(n, 5) * pow(n, 5);
    let k = pow(10, half);
    lemma_pow_positive(10, half);
    lemma_square_is_pow2(pow(s, 5));
    lemma_square_is_pow2(pow(n, 5));
    lemma_pow_multiplies(s, 5, 2);
    lemma_pow_multiplies(n, 5, 2);
    lemma_pow_multiplies(s, 10, 2);
    lemma_pow_multiplies(n, 10, 2);
    lemma_square_is_pow2(a);
    lemma_square_is_pow2(b);
    lemma_pow_multiplies(10, half, 2);
    lemma_square_is_pow2(k);
    assert(pow(s, 20) == a * a);
    assert(pow(n, 20) == b * b);
    assert(half * 2 == 2 * half);
    assert(pow(10, 2 * half) == k * k);
    assert((k * b) * (k * b) == (k * k) * (b * b)) by (nonlinear_arith);
    assert(a >= 0) by (nonlinear_arith)
        requires
            a == pow(s, 5) * pow(s, 5),
    ;
    assert(b >= 0) by (nonlinear_arith)
        requires
            b == pow(n, 5) * pow(n, 5),
    ;
    assert(k * b >= 0) by (nonlinear_arith)
        requires
            k > 0,
            b >= 0,
    ;
    lemma_squares_keep_order(a, k * b);
}

fn fifth_power(x: u16) -> (r: u128)
    ensures
        r == pow(x as int, 5),
        r < 0x1_0000_0000_0000_0000_0000,
{
    let wide: u128 = x as u128;
    assert(wide * wide <= 65_535 * 65_535) by (nonlinear_arith)
        requires
            0 <= wide <= 65_535,
    ;
    let square: u128 = wide * wide;
    assert(square * square <= (65_535 * 65_535) * (65_535 * 65_535)) by (nonlinear_arith)
        requires
            0 <= square <= 65_535 * 65_535,
    ;
    let fourth: u128 = square * square;
    assert(fourth * wide <= (65_535 * 65_535) * (65_535 * 65_535) * 65_535) by (nonlinear_arith)
        requires
            0 <= fourth <= (65_535 * 65_535) * (65_535 * 65_535),
            0 <= wide <= 65_535,
    ;
    proof {
        reveal_with_fuel(pow, 6);
        let w = wide as int;
        assert(w * (w * (w * (w * (w * 1)))) == ((w * w) * (w * w)) * w) by (nonlinear_arith);
    }
    fourth * wide
}

pub open spec fn limb() -> int {
    0x1_0000_0000_0000_0000
}

/// The square of a number of 80 bits as two parts, the higher one counted in units of 2^64.
fn wide_square(x: u128) -> (r: (u128, u128))
    requires
        x < 0x1_0000_0000_0000_0000_0000,
    ensures
        r.0 * limb() + r.1 == x * x,
        r.1 < limb(),
        r.0 < 0x2_0000_0000_0000_0000_0000_0000,
{
    let unit: u128 = 0x1_0000_0000_0000_0000;
    let high: u128 = x / unit;
    let low: u128 = x % unit;
    assert(high < 65_536);
    assert(high * high < 65_536 * 65_536) by (nonlinear_arith)
        requires
            0 <= high < 65_536,
    ;
    assert(high * low < 65_536 * unit) by (nonlinear_arith)
        requires
            0 <= high < 65_536,
            0 <= low < unit,
            unit > 0,
    ;
    assert(low * low < unit * unit) by (nonlinear_arith)
        requires
            0 <= low < unit,
    ;
    assert(unit * unit == 0x1_0000_0000_0000_0000_0000_0000_0000_0000) by (nonlinear_arith)
        requires
            unit == 0x1_0000_0000_0000_0000,
    ;
    let squares: u128 = high * high;
    let cross: u128 = high * low;
    let product: u128 = low * low;
    let carry: u128 = product / unit;
    let rest: u128 = product % unit;
    assert(squares * unit < 65_536 * 65_536 * unit) by (nonlinear_arith)
        requires
            0 <= squares < 65_536 * 65_536,
            unit > 0,
    ;
    let upper: u128 = squares * unit + 2 * cross + carry;
    proof {
        let h = high as int;
        let l = low as int;
        let u = unit as int;
        assert(x == h * u + l);
        assert((h * u + l) * (h * u + l) == ((h * h) * u + 2 * (h * l)) * u + l * l)
            by (nonlinear_arith);
        assert(l * l == carry * u + rest);
        assert(upper * u == ((h * h) * u + 2 * (h * l)) * u + carry * u) by (nonlinear_arith)
            requires
                upper == (h * h) * u + 2 * (h * l) + carry,
        ;
    }
    (upper, rest)
}

/// Whether speech is less than `2 * half` decibels above the noise; `factor` is the power of ten
/// with the exponent `half`.
fn is_below(speech: u16, noise: u16, factor: u128, half: Ghost<nat>) -> (r: bool)
    requires
        factor == pow(10, half@),
        factor <= 100_000_000,
    ensures
        r == below_decibels(speech as nat, noise as nat, 2 * half@),
{
    let s = fifth_power(speech);
    let n = fifth_power(noise);
    let (left_high, left_low) = wide_square(s);
    let (high, low) = wide_square(n);
    let unit: u128 = 0x1_0000_0000_0000_0000;
    assert(low * factor <= 0x1_0000_0000_0000_0000 * 100_000_000) by (nonlinear_arith)
        requires
            0 <= low < 0x1_0000_0000_0000_0000,
            0 <= factor <= 100_000_000,
    ;
    assert(high * factor <= 0x2_0000_0000_0000_0000_0000_0000 * 100_000_000) by (nonlinear_arith)
        requires
            0 <= high < 0x2_0000_0000_0000_0000_0000_0000,
            0 <= factor <= 100_000_000,
    ;
    let scaled: u128 = low * factor;
    let right_high: u128 = high * factor + scaled / unit;
    let right_low: u128 = scaled % unit;
    proof {
        let u = unit as int;
        let f = factor as int;
        assert(scaled == (scaled / unit) * u + right_low);
        assert((high * u + low) * f == (high * f) * u + low * f) by (nonlinear_arith);
        assert(right_high * u == (high * f) * u + (scaled / unit) * u) by (nonlinear_arith)
            requires
                right_high == high * f + (scaled / unit),
        ;
        assert(right_high * u + right_low == f * (n * n)) by (nonlinear_arith)
            requires
                right_high * u + right_low == (high * u + low) * f,
                high * u + low == n * n,
        ;
        if left_high < right_high {
            assert(left_high * u + u <= right_high * u) by (nonlinear_arith)
                requires
                    left_high + 1 <= right_high,
                    u > 0,
            ;
        } else if left_high > right_high {
            assert(right_high * u + u <= left_high * u) by (nonlinear_arith)
                requires
                    right_high + 1 <= left_high,
                    u > 0,
            ;
        }
        lemma_below_by_fifth_powers(speech as nat, noise as nat, half@);
    }
    left_high < right_high || (left_high == right_high && left_low < right_low)
}

/// How many of the levels are not below a threshold.
pub open spec fn voiced_count(levels: Seq<u16>, threshold: u16) -> nat
    decreases levels.len(),
{
    if levels.len() == 0 {
        0
    } else {
        voiced_count(levels.drop_last(), threshold) + (if levels.last() >= threshold {
            1nat
        } else {
            0
        })
    }
}

fn count_voiced(levels: &[u16], threshold: u16) -> (r: u64)
    ensures
        r == voiced_count(levels@, threshold),
        r <= levels@.len(),
{
    let mut count: u64 = 0;
    for i in 0..levels.len()
        invariant
            count == voiced_count(levels@.take(i as int), threshold),
            count <= i,
    {
        assert(levels@.take(i + 1).drop_last() =~= levels@.take(i as int));
        if levels[i] >= threshold {
            count = count + 1;
        }
    }
    assert(levels@.take(levels@.len() as int) =~= levels@);
    count
}

/// A count as it goes into a ratio.
pub open spec fn in_ratio(n: nat) -> nat {
    min_nat(n, u32::MAX as nat)
}

fn ratio_part(n: u64) -> (r: u64)
    ensures
        r == in_ratio(n as nat),
{
    if n < 0xFFFF_FFFF {
        n
    } else {
        0xFFFF_FFFF
    }
}

/// The level that stands for a phase in a ratio.
pub open spec fn reference_level(level: u16) -> nat {
    max_nat(level as nat, 1)
}

/// The speech is less than so many decibels above the noise.
pub open spec fn signal_below(found: CalibrationResult, decibels: nat) -> bool {
    below_decibels(reference_level(found.speech_p50), reference_level(found.noise_p50), decibels)
}

/// One part in `parts` of all samples or more is clipped.
pub open spec fn clipped_share(found: CalibrationResult, parts: nat) -> bool {
    parts * in_ratio(found.clipped_samples as nat) >= in_ratio(found.total_samples as nat)
}

/// What a calibration amounts to, the first of its faults.
pub open spec fn reason_for(found: CalibrationResult) -> CalibrationReason {
    if clipped_share(found, 100) || found.peak >= CLIPPING_LEVEL {
        CalibrationReason::Clipping
    } else if found.speech_p50 <= found.noise_p95 + 100 || signal_below(found, 6) {
        CalibrationReason::NoSpeech
    } else if found.speech_p95 < 500 {
        CalibrationReason::TooQuiet
    } else if found.noise_p95 > 3 * found.noise_p20 + 200 {
        CalibrationReason::UnstableNoise
    } else if signal_below(found, 12) {
        CalibrationReason::MarginalSnr
    } else {
        CalibrationReason::Good
    }
}

pub open spec fn confidence_for(
    found: CalibrationResult,
    reason: CalibrationReason,
) -> CalibrationConfidence {
    match reason {
        CalibrationReason::Good => if !signal_below(found, 16) && !clipped_share(found, 1000) {
            CalibrationConfidence::High
        } else {
            CalibrationConfidence::Medium
        },
        CalibrationReason::MarginalSnr => CalibrationConfidence::Medium,
        _ => CalibrationConfidence::Low,
    }
}

/// A threshold may be applied if the calibration can be trusted, a fifth of the speaking phase
/// reaches it, and the noise does not.
pub open spec fn applies(found: CalibrationResult) -> bool {
    &&& found.confidence != CalibrationConfidence::Low
    &&& 5 * in_ratio(found.voiced_frames as nat) >= in_ratio(found.speech_frames as nat)
    &&& found.suggested_threshold > found.noise_p95
}

/// `found` is what two phases amount to.
pub open spec fn calibrates(found: CalibrationResult, silence: Seq<u8>, speech: Seq<u8>) -> bool {
    let noise = phase_levels(silence);
    let voice = phase_levels(speech);
    &&& found.noise_p20 == percentile_of(noise, 20)
    &&& found.noise_p50 == percentile_of(noise, 50)
    &&& found.noise_p95 == percentile_of(noise, 95)
    &&& found.speech_p50 == percentile_of(voice, 50)
    &&& found.speech_p95 == percentile_of(voice, 95)
    &&& found.peak == max_nat(
        phase_peak(silence, phase_frames(silence)),
        phase_peak(speech, phase_frames(speech)),
    )
    &&& found.clipped_samples == phase_clipped(silence, phase_frames(silence)) + phase_clipped(
        speech,
        phase_frames(speech),
    )
    &&& found.total_samples == 320 * (phase_frames(silence) + phase_frames(speech))
    &&& found.suggested_threshold == threshold_between(
        found.noise_p95 as nat,
        found.speech_p50 as nat,
    )
    &&& found.voiced_frames == voiced_count(voice, found.suggested_threshold)
    &&& found.speech_frames == voice.len()
    &&& found.reason == reason_for(found)
    &&& found.confidence == confidence_for(found, found.reason)
    &&& found.can_apply == applies(found)
}

fn at_least_one(level: u16) -> (r: u16)
    ensures
        r == reference_level(level),
{
    if level > 1 {
        level
    } else {
        1
    }
}

/// Judges what was measured.
fn judge(measured: CalibrationResult) -> (r: (CalibrationReason, CalibrationConfidence))
    ensures
        r.0 == reason_for(measured),
        r.1 == confidence_for(measured, r.0),
{
    let clipped: u64 = ratio_part(measured.clipped_samples);
    let total: u64 = ratio_part(measured.total_samples);
    let speech: u16 = at_least_one(measured.speech_p50);
    let noise: u16 = at_least_one(measured.noise_p50);
    proof {
        reveal_with_fuel(pow, 9);
        assert(pow(10, 3) == 1_000);
        assert(pow(10, 6) == 1_000_000);
        assert(pow(10, 8) == 100_000_000);
    }
    let below_6 = is_below(speech, noise, 1_000, Ghost(3));
    let below_12 = is_below(speech, noise, 1_000_000, Ghost(6));
    let below_16 = is_below(speech, noise, 100_000_000, Ghost(8));
    let reason = if 100 * clipped >= total || measured.peak >= CLIPPING_LEVEL {
        CalibrationReason::Clipping
    } else if measured.speech_p50 as u32 <= measured.noise_p95 as u32 + 100 || below_6 {
        CalibrationReason::NoSpeech
    } else if measured.speech_p95 < 500 {
        CalibrationReason::TooQuiet
    } else if measured.noise_p95 as u32 > 3 * measured.noise_p20 as u32 + 200 {
        CalibrationReason::UnstableNoise
    } else if below_12 {
        CalibrationReason::MarginalSnr
    } else {
        CalibrationReason::Good
    };
    let confidence = match reason {
        CalibrationReason::Good => if !below_16 && !(1000 * clipped >= total) {
            CalibrationConfidence::High
        } else {
            CalibrationConfidence::Medium
        },
        CalibrationReason::MarginalSnr => CalibrationConfidence::Medium,
        _ => CalibrationConfidence::Low,
    };
    (reason, confidence)
}

/// Analyzes an explicit quiet phase followed by an explicit speaking phase.
///
/// Each of them has to hold half a second of complete 20 ms PCM frames.
pub fn analyze(silence_pcm: &[u8], speech_pcm: &[u8]) -> (r: Result<
    CalibrationResult,
    CalibrationError,
>)
    ensures
        ({
            let long_enough = phase_frames(silence_pcm@) >= MIN_PHASE_FRAMES && phase_frames(
                speech_pcm@,
            ) >= MIN_PHASE_FRAMES;
            match r {
                Ok(found) => long_enough && calibrates(found, silence_pcm@, speech_pcm@),
                Err(_) => !long_enough,
            }
        }),
{
    let silence = phase_stats(silence_pcm);
    let speech = phase_stats(speech_pcm);
    if silence.levels.len() < MIN_PHASE_FRAMES || speech.levels.len() < MIN_PHASE_FRAMES {
        return Err(CalibrationError);
    }
    let noise_p95: u16 = percentile(&silence.levels, 95);
    let speech_p50: u16 = percentile(&speech.levels, 50);
    let threshold: u16 = suggested_threshold(noise_p95, speech_p50);
    let mut found = CalibrationResult {
        noise_p20: percentile(&silence.levels, 20),
        noise_p50: percentile(&silence.levels, 50),
        noise_p95,
        speech_p50,
        speech_p95: percentile(&speech.levels, 95),
        peak: if silence.peak > speech.peak {
            silence.peak
        } else {
            speech.peak
        },
        clipped_samples: silence.clipped_samples + speech.clipped_samples,
        total_samples: silence.samples + speech.samples,
        voiced_frames: count_voiced(&speech.levels, threshold),
        speech_frames: speech.levels.len() as u64,
        suggested_threshold: threshold,
        confidence: CalibrationConfidence::Low,
        reason: CalibrationReason::Good,
        can_apply: false,
    };
    let ghost measured = found;
    let (reason, confidence) = judge(found);
    found.reason = reason;
    found.confidence = confidence;
    assert(reason_for(found) == reason_for(measured));
    assert(confidence_for(found, reason) == confidence_for(measured, reason));
    let trusted = match confidence {
        CalibrationConfidence::Low => false,
        _ => true,
    };
    let heard: u64 = ratio_part(found.voiced_frames);
    let frames: u64 = ratio_part(found.speech_frames);
    found.can_apply = trusted && 5 * heard >= frames && threshold > noise_p95;
    Ok(found)
}

/// A threshold that can be applied separates the two phases: the noise stays below it, and a
/// fifth of the speaking phase reaches it.
pub proof fn law_applied_threshold_separates(
    found: CalibrationResult,
    silence: Seq<u8>,
    speech: Seq<u8>,
)
    requires
        calibrates(found, silence, speech),
        found.can_apply,
    ensures
        found.noise_p95 < found.suggested_threshold <= 10_000,
        found.reason == CalibrationReason::Good || found.reason == CalibrationReason::MarginalSnr,
        !signal_below(found, 6),
        found.peak < CLIPPING_LEVEL,
{
}

/// A suggested threshold lies above the noise, and below the speech where the two are far enough
/// apart.
pub proof fn law_threshold_lies_between(noise_p95: nat, speech_p50: nat)
    requires
        noise_p95 < 10_000,
    ensures
        noise_p95 < threshold_between(noise_p95, speech_p50),
        speech_p50 > noise_p95 + 80 ==> threshold_between(noise_p95, speech_p50) < speech_p50,
{
}

/// A calibration can be applied exactly if its reason is good or a marginal signal, at least a fifth
/// of the speaking frames reach the suggested threshold, and that is above the noise.
pub proof fn law_good_calibration_can_be_applied(
    found: CalibrationResult,
    silence: Seq<u8>,
    speech: Seq<u8>,
)
    requires
        calibrates(found, silence, speech),
        found.speech_frames <= u32::MAX,
        found.voiced_frames <= u32::MAX,
    ensures
        found.can_apply <==> (found.reason == CalibrationReason::Good || found.reason
            == CalibrationReason::MarginalSnr) && 5 * found.voiced_frames >= found.speech_frames
            && found.suggested_threshold > found.noise_p95,
{
}

/// How far a calibration is trusted: a good one highly where the signal is 16 dB above the noise and
/// less than one sample in a thousand is clipped, and otherwise fairly; a marginal one fairly; any
/// other one not.
pub proof fn law_confidence_follows_the_reason(
    found: CalibrationResult,
    silence: Seq<u8>,
    speech: Seq<u8>,
)
    requires
        calibrates(found, silence, speech),
        found.total_samples <= u32::MAX,
        found.clipped_samples <= u32::MAX,
    ensures
        found.confidence == CalibrationConfidence::Low <==> found.reason != CalibrationReason::Good
            && found.reason != CalibrationReason::MarginalSnr,
        found.reason == CalibrationReason::MarginalSnr ==> found.confidence
            == CalibrationConfidence::Medium,
        found.reason == CalibrationReason::Good ==> (found.confidence
            == CalibrationConfidence::High <==> 1_000 * found.clipped_samples
            < found.total_samples && !signal_below(found, 16)),
{
}

/// The reason names the first fault: clipping, no speech, quiet speech, unstable noise, a weak
/// signal. A calibration without any of them is good.
pub proof fn law_reason_names_the_first_fault(
    found: CalibrationResult,
    silence: Seq<u8>,
    speech: Seq<u8>,
)
    requires
        calibrates(found, silence, speech),
        found.total_samples <= u32::MAX,
        found.clipped_samples <= u32::MAX,
    ensures
        ({
            let clipping = found.peak >= 32_700 || 100 * found.clipped_samples
                >= found.total_samples;
            let no_speech = found.speech_p50 <= found.noise_p95 + 100 || signal_below(found, 6);
            let quiet = found.speech_p95 < 500;
            let unstable = found.noise_p95 > 3 * found.noise_p20 + 200;
            let weak = signal_below(found, 12);
            &&& found.reason == CalibrationReason::Clipping <==> clipping
            &&& found.reason == CalibrationReason::NoSpeech <==> !clipping && no_speech
            &&& found.reason == CalibrationReason::TooQuiet <==> !clipping && !no_speech && quiet
            &&& found.reason == CalibrationReason::UnstableNoise <==> !clipping && !no_speech
                && !quiet && unstable
            &&& found.reason == CalibrationReason::MarginalSnr <==> !clipping && !no_speech
                && !quiet && !unstable && weak
            &&& found.reason == CalibrationReason::Good <==> !clipping && !no_speech && !quiet
                && !unstable && !weak
        }),
{
}

proof fn lemma_pow_keeps_order(a: int, b: int, e: nat)
    requires
        0 <= a <= b,
    ensures
        0 <= pow(a, e) <= pow(b, e),
    decreases e,
{
    reveal(pow);
    if e > 0 {
        lemma_pow_keeps_order(a, b, (e - 1) as nat);
        let x = pow(a, (e - 1) as nat);
        let y = pow(b, (e - 1) as nat);
        assert(0 <= a * x <= b * y) by (nonlinear_arith)
            requires
                0 <= a <= b,
                0 <= x <= y,
        ;
    }
}

/// Ten times the speech against `num` times the noise, to the twentieth power.
proof fn lemma_ratio_in_decibels(speech: int, noise: int, num: int, decibels: nat)
    requires
        speech >= 1,
        noise >= 1,
        num >= 1,
    ensures
        10 * speech < num * noise && pow(num, 20) <= pow(10, decibels) * pow(10, 20)
            ==> pow(speech, 20) <= pow(10, decibels) * pow(noise, 20),
        10 * speech < num * noise && pow(num, 20) < pow(10, decibels) * pow(10, 20) ==> pow(
            speech,
            20,
        ) < pow(10, decibels) * pow(noise, 20),
        10 * speech >= num * noise && pow(num, 20) >= pow(10, decibels) * pow(10, 20)
            ==> pow(speech, 20) >= pow(10, decibels) * pow(noise, 20),
{
    lemma_pow_distributes(10, speech, 20);
    lemma_pow_distributes(num, noise, 20);
    lemma_pow_positive(10, 20);
    lemma_pow_positive(noise, 20);
    lemma_pow_positive(speech, 20);
    let t = pow(10, 20);
    let s = pow(speech, 20);
    let n = pow(noise, 20);
    let d = pow(10, decibels);
    let k = pow(num, 20);
    assert(num * noise >= 1) by (nonlinear_arith)
        requires
            num >= 1,
            noise >= 1,
    ;
    if 10 * speech < num * noise {
        lemma_pow_keeps_order(10 * speech, num * noise, 20);
        assert(t * s <= k * n);
        if k <= d * t {
            assert(k * n <= d * t * n) by (nonlinear_arith)
                requires
                    k <= d * t,
                    n > 0,
            ;
            assert(s <= d * n) by (nonlinear_arith)
                requires
                    t * s <= d * t * n,
                    t > 0,
            ;
        }
        if k < d * t {
            assert(k * n < d * t * n) by (nonlinear_arith)
                requires
                    k < d * t,
                    n > 0,
            ;
            assert(s < d * n) by (nonlinear_arith)
                requires
                    t * s < d * t * n,
                    t > 0,
            ;
        }
    } else {
        lemma_pow_keeps_order(num * noise, 10 * speech, 20);
        assert(k * n <= t * s);
        if k >= d * t {
            assert(k * n >= d * t * n) by (nonlinear_arith)
                requires
                    k >= d * t,
                    n > 0,
            ;
            assert(s >= d * n) by (nonlinear_arith)
                requires
                    t * s >= d * t * n,
                    t > 0,
            ;
        }
    }
}

proof fn lemma_twentieth_powers()
    ensures
        pow(10, 20) == 100000000000000000000,
        pow(19, 20) == 37589973457545958193355601,
        pow(20, 20) == 104857600000000000000000000,
        pow(39, 20) == 66266211231824447117620880943201,
        pow(40, 20) == 109951162777600000000000000000000,
        pow(63, 20) == 970087679866349716790969219380140801,
        pow(64, 20) == 1329227995784915872903807060280344576,
        pow(10, 6) == 1_000_000,
        pow(10, 12) == 1_000_000_000_000,
        pow(10, 16) == 10_000_000_000_000_000,
{
    reveal_with_fuel(pow, 5);
    assert(pow(10, 4) == 10000);
    lemma_pow_adds(10, 4, 4);
    assert(pow(10, 8) == 100000000);
    lemma_pow_adds(10, 8, 4);
    assert(pow(10, 12) == 1000000000000);
    lemma_pow_adds(10, 12, 4);
    assert(pow(10, 16) == 10000000000000000);
    lemma_pow_adds(10, 16, 4);
    assert(pow(10, 20) == 100000000000000000000);

    assert(pow(19, 4) == 130321);
    lemma_pow_adds(19, 4, 4);
    assert(pow(19, 8) == 16983563041);
    lemma_pow_adds(19, 8, 4);
    assert(pow(19, 12) == 2213314919066161);
    lemma_pow_adds(19, 12, 4);
    assert(pow(19, 16) == 288441413567621167681);
    lemma_pow_adds(19, 16, 4);
    assert(pow(19, 20) == 37589973457545958193355601);

    assert(pow(20, 4) == 160000);
    lemma_pow_adds(20, 4, 4);
    assert(pow(20, 8) == 25600000000);
    lemma_pow_adds(20, 8, 4);
    assert(pow(20, 12) == 4096000000000000);
    lemma_pow_adds(20, 12, 4);
    assert(pow(20, 16) == 655360000000000000000);
    lemma_pow_adds(20, 16, 4);
    assert(pow(20, 20) == 104857600000000000000000000);

    assert(pow(39, 4) == 2313441);
    lemma_pow_adds(39, 4, 4);
    assert(pow(39, 8) == 5352009260481);
    lemma_pow_adds(39, 8, 4);
    assert(pow(39, 12) == 12381557655576425121);
    lemma_pow_adds(39, 12, 4);
    assert(pow(39, 16) == 28644003124274380508351361);
    lemma_pow_adds(39, 16, 4);
    assert(pow(39, 20) == 66266211231824447117620880943201);

    assert(pow(40, 4) == 2560000);
    lemma_pow_adds(40, 4, 4);
    assert(pow(40, 8) == 6553600000000);
    lemma_pow_adds(40, 8, 4);
    assert(pow(40, 12) == 16777216000000000000);
    lemma_pow_adds(40, 12, 4);
    assert(pow(40, 16) == 42949672960000000000000000);
    lemma_pow_adds(40, 16, 4);
    assert(pow(40, 20) == 109951162777600000000000000000000);

    assert(pow(63, 4) == 15752961);
    lemma_pow_adds(63, 4, 4);
    assert(pow(63, 8) == 248155780267521);
    lemma_pow_adds(63, 8, 4);
    assert(pow(63, 12) == 3909188328478827879681);
    lemma_pow_adds(63, 12, 4);
    assert(pow(63, 16) == 61581291280182164914327485441);
    lemma_pow_adds(63, 16, 4);
    assert(pow(63, 20) == 970087679866349716790969219380140801);

    assert(pow(64, 4) == 16777216);
    lemma_pow_adds(64, 4, 4);
    assert(pow(64, 8) == 281474976710656);
    lemma_pow_adds(64, 8, 4);
    assert(pow(64, 12) == 4722366482869645213696);
    lemma_pow_adds(64, 12, 4);
    assert(pow(64, 16) == 79228162514264337593543950336);
    lemma_pow_adds(64, 16, 4);
    assert(pow(64, 20) == 1329227995784915872903807060280344576);

    lemma_pow_adds(10, 4, 2);
    lemma_pow_adds(10, 8, 4);
    lemma_pow_adds(10, 12, 4);
}

/// The decibels that a calibration goes by, as ratios of the median levels: 6 dB lie between 1.9 and
/// 2 times the noise, 12 dB between 3.9 and 4 times, and 16 dB between 6.3 and 6.4 times.
pub proof fn law_decibels_are_ratios(found: CalibrationResult)
    requires
        found.speech_p50 >= 1,
        found.noise_p50 >= 1,
    ensures
        10 * found.speech_p50 < 19 * found.noise_p50 ==> signal_below(found, 6),
        found.speech_p50 >= 2 * found.noise_p50 ==> !signal_below(found, 6),
        10 * found.speech_p50 < 39 * found.noise_p50 ==> signal_below(found, 12),
        found.speech_p50 >= 4 * found.noise_p50 ==> !signal_below(found, 12),
        10 * found.speech_p50 < 63 * found.noise_p50 ==> signal_below(found, 16),
        10 * found.speech_p50 >= 64 * found.noise_p50 ==> !signal_below(found, 16),
{
    let s = found.speech_p50 as int;
    let n = found.noise_p50 as int;
    lemma_twentieth_powers();
    lemma_ratio_in_decibels(s, n, 19, 6);
    lemma_ratio_in_decibels(s, n, 20, 6);
    lemma_ratio_in_decibels(s, n, 39, 12);
    lemma_ratio_in_decibels(s, n, 40, 12);
    lemma_ratio_in_decibels(s, n, 63, 16);
    lemma_ratio_in_decibels(s, n, 64, 16);
}

/// The suggested threshold is a quarter of the way from the noise to the speech, at least 80 above
/// the noise and never above 10000.
pub proof fn law_threshold_is_a_quarter_of_the_way(noise_p95: nat, speech_p50: nat)
    ensures
        ({
            let threshold = threshold_between(noise_p95, speech_p50);
            &&& threshold <= 10_000
            &&& threshold < 10_000 ==> threshold >= noise_p95 + 80
            &&& threshold < 10_000 && speech_p50 >= noise_p95 + 320 ==> threshold == noise_p95 + (
            speech_p50 - noise_p95) / 4
            &&& threshold < 10_000 && speech_p50 < noise_p95 + 324 ==> threshold == noise_p95 + 80
            &&& threshold == 10_000 ==> noise_p95 + 80 >= 10_000 || 4 * (10_000 - noise_p95)
                <= speech_p50 - noise_p95
        }),
{
}

/// A frame is voiced that reaches the threshold: counting frames adds one for each of them.
pub proof fn law_voiced_frames_reach_the_threshold(levels: Seq<u16>, level: u16, threshold: u16)
    ensures
        voiced_count(Seq::empty(), threshold) == 0,
        voiced_count(levels.push(level), threshold) == voiced_count(levels, threshold) + (if level
            >= threshold {
            1int
        } else {
            0
        }),
{
    assert(levels.push(level).drop_last() =~= levels);
}

/// A calibration measures both phases: the noise in the quiet one, the speech in the other, and
/// peaks and clipping in both.
pub proof fn law_calibration_measures_both_phases(
    found: CalibrationResult,
    silence: Seq<u8>,
    speech: Seq<u8>,
)
    requires
        calibrates(found, silence, speech),
        25 <= silence.len() / 640 <= 0x1_0000,
        25 <= speech.len() / 640 <= 0x1_0000,
    ensures
        phase_levels(silence).len() == silence.len() / 640,
        phase_levels(speech).len() == speech.len() / 640,
        phase_levels(silence).contains(found.noise_p20),
        phase_levels(silence).contains(found.noise_p50),
        phase_levels(silence).contains(found.noise_p95),
        phase_levels(speech).contains(found.speech_p50),
        phase_levels(speech).contains(found.speech_p95),
        found.noise_p20 <= found.noise_p50 <= found.noise_p95,
        found.speech_p50 <= found.speech_p95,
        found.speech_frames == speech.len() / 640,
        found.total_samples == 320 * (silence.len() / 640 + speech.len() / 640),
{
    let noise = phase_levels(silence);
    let voice = phase_levels(speech);
    crate::level::law_percentile_is_a_level(noise, 20);
    crate::level::law_percentile_is_a_level(noise, 50);
    crate::level::law_percentile_is_a_level(noise, 95);
    crate::level::law_percentile_is_a_level(voice, 50);
    crate::level::law_percentile_is_a_level(voice, 95);
    let n = noise.len();
    let v = voice.len();
    let sorted = crate::level::sorted_levels(noise);
    let spoken = crate::level::sorted_levels(voice);
    assert((n - 1) * 20 / 100 <= (n - 1) * 50 / 100 <= (n - 1) * 95 / 100 < n);
    assert((v - 1) * 50 / 100 <= (v - 1) * 95 / 100 < v);
    assert(sorted[(n - 1) * 20 / 100] <= sorted[(n - 1) * 50 / 100]);
    assert(sorted[(n - 1) * 50 / 100] <= sorted[(n - 1) * 95 / 100]);
    assert(spoken[(v - 1) * 50 / 100] <= spoken[(v - 1) * 95 / 100]);
}

/// The peak and the clipping of a phase are those of its frames together.
pub proof fn law_phase_sums_up_its_frames(pcm: Seq<u8>, n: nat)
    ensures
        phase_peak(pcm, 0) == 0,
        phase_clipped(pcm, 0) == 0,
        phase_peak(pcm, n + 1) >= phase_peak(pcm, n),
        phase_peak(pcm, n + 1) >= peak_of(pcm.subrange(640 * n as int, 640 * n + 640int), 320),
        phase_peak(pcm, n + 1) == phase_peak(pcm, n) || phase_peak(pcm, n + 1) == peak_of(
            pcm.subrange(640 * n as int, 640 * n + 640int),
            320,
        ),
        phase_clipped(pcm, n + 1) == phase_clipped(pcm, n) + clipped_of(
            pcm.subrange(640 * n as int, 640 * n + 640int),
            320,
            32_700,
        ),
        forall|i: int|
            0 <= i < phase_levels(pcm).len() ==> #[trigger] phase_levels(pcm)[i] == rms_of(
                pcm.subrange(640 * i, 640 * (i + 1)),
            ) as u16,
{
}

} // verus!
