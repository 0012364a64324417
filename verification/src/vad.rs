//! Stateful energy voice activity detection for 16 kHz mono signed 16-bit PCM.

use crate::level::{
    frame_level, max_nat, min_nat, peak_of, percentile, percentile_of, rms_of, sample_count,
};
use vstd::prelude::*;

verus! {

/// One 20 ms frame of 16 kHz mono signed 16-bit PCM.
pub const BYTES_PER_FRAME: usize = 640;

/// Audio retained before the first confirmed speech frame.
pub const PRE_ROLL_FRAMES: u32 = 8;

/// Audio retained after the last voiced frame.
pub const POST_ROLL_FRAMES: u32 = 15;

/// Silent frames that let go of speech.
pub const RELEASE_FRAMES: u32 = 3;

/// Silent frames that are still held after the release.
pub const HANGOVER_FRAMES: u32 = 12;

/// Silent frames after which speech is over.
pub const END_SILENCE_FRAMES: u32 = 15;

/// The percentile of the frame levels that stands for the room noise of a whole recording.
pub const NOISE_PERCENT: usize = 20;

#[derive(Clone, Copy, Debug, Eq, PartialEq, Structural)]
pub struct VadConfig {
    /// Absolute lower bound. Adaptive noise tracking may raise this threshold.
    pub rms_threshold: u16,
    /// Consecutive frames required to enter the speech state.
    pub minimum_voiced_frames: u32,
}

#[derive(Clone, Copy, Debug, Eq, PartialEq, Structural)]
pub struct VadResult {
    pub speech_detected: bool,
    pub voiced_frames: u32,
    pub total_frames: u32,
    pub peak: u16,
    pub average_rms: u16,
    pub noise_floor: u16,
    pub adaptive_threshold: u16,
    pub speech_start_frame: Option<u32>,
    pub speech_end_frame: Option<u32>,
    pub trim_start_frame: Option<u32>,
    pub trim_end_frame: Option<u32>,
}

/// A speech-boundary event emitted while processing a stream.
#[derive(Clone, Copy, Debug, Eq, PartialEq, Structural)]
pub enum VadEvent {
    /// Speech began at the given frame, including the frames accumulated during attack.
    SpeechStarted { frame: u32 },
    /// Speech ended at the given exclusive frame after release and hangover elapsed.
    SpeechEnded { frame: u32 },
}

/// Per-frame VAD state suitable for diagnostics and a live recording indicator.
#[derive(Clone, Copy, Debug, Eq, PartialEq, Structural)]
pub struct VadFrameAnalysis {
    pub frame: u32,
    pub rms: u16,
    pub noise_floor: u16,
    pub adaptive_threshold: u16,
    pub voiced: bool,
    pub speech_active: bool,
    pub attack_frames: u32,
    pub release_frames: u32,
    pub hangover_frames_remaining: u32,
    pub event: Option<VadEvent>,
}

/// What a detector knows of its stream.
#[derive(Clone, Copy, Debug, Eq, PartialEq, Structural)]
pub struct VadState {
    pub config: VadConfig,
    pub noise_floor: Option<u16>,
    pub adaptive_threshold: u16,
    pub total_frames: u32,
    pub voiced_frames: u32,
    pub rms_sum: u64,
    pub peak: u16,
    pub attack_frames: u32,
    pub attack_start_frame: Option<u32>,
    pub release_frames: u32,
    pub speech_active: bool,
    pub speech_start_frame: Option<u32>,
    pub speech_end_frame: Option<u32>,
}

/// One more, but never past the largest value.
pub open spec fn counted(n: u32) -> u32 {
    if n < u32::MAX {
        (n + 1) as u32
    } else {
        n
    }
}

pub open spec fn or_zero(level: Option<u16>) -> u16 {
    match level {
        Some(value) => value,
        None => 0,
    }
}

/// The level at which a frame counts as voiced: twice the noise and 80 above it, but neither
/// below the configured level nor above four times of it.
pub open spec fn entry_level(config: VadConfig, noise_floor: u16) -> nat {
    let adaptive = min_nat((2 * noise_floor + 80) as nat, u16::MAX as nat);
    let ceiling = min_nat((4 * config.rms_threshold) as nat, u16::MAX as nat);
    max_nat(config.rms_threshold as nat, min_nat(adaptive, ceiling))
}

/// The level that keeps speech going: three quarters of the entry level.
pub open spec fn exit_level(entry: u16) -> nat {
    min_nat((3 * entry) as nat, u16::MAX as nat) / 4
}

/// `current` moved toward `sample` by the fraction `1 / divisor` of the way, rounded down.
pub open spec fn smoothed(current: u16, sample: u16, divisor: int) -> int {
    current + (sample - current) / divisor
}

/// The noise floor after a frame without speech: it follows a quieter room by an eighth and a
/// louder one by a thirty-second of the way.
pub open spec fn noise_after(noise_floor: Option<u16>, rms: u16) -> int {
    match noise_floor {
        None => rms as int,
        Some(current) => if rms <= current {
            smoothed(current, rms, 8)
        } else {
            smoothed(current, rms, 32)
        },
    }
}

/// The state with the noise learned from one frame.
pub open spec fn learned(state: VadState, rms: u16) -> VadState {
    let noise = noise_after(state.noise_floor, rms) as u16;
    VadState {
        noise_floor: Some(noise),
        adaptive_threshold: entry_level(state.config, noise) as u16,
        ..state
    }
}

/// Voiced frames in a row that confirm speech.
pub open spec fn frames_to_start(config: VadConfig) -> u32 {
    if config.minimum_voiced_frames == 0 {
        1
    } else {
        config.minimum_voiced_frames
    }
}

/// The state after one frame of level `rms`, and the boundary that it makes, if any.
pub open spec fn stepped(state: VadState, rms: u16) -> (VadState, Option<VadEvent>) {
    let frame = state.total_frames;
    let seen = VadState {
        total_frames: counted(frame),
        rms_sum: min_nat((state.rms_sum + rms) as nat, u64::MAX as nat) as u64,
        ..state
    };
    if state.speech_active {
        if rms >= exit_level(state.adaptive_threshold) {
            // speech goes on
            (
                VadState {
                    voiced_frames: counted(state.voiced_frames),
                    release_frames: 0,
                    speech_end_frame: Some(counted(frame)),
                    ..seen
                },
                None,
            )
        } else if counted(state.release_frames) < END_SILENCE_FRAMES {
            // a pause that may still be speech
            (VadState { release_frames: counted(state.release_frames), ..seen }, None)
        } else {
            // speech is over
            (
                learned(VadState { speech_active: false, release_frames: 0, ..seen }, rms),
                match state.speech_end_frame {
                    Some(end) => Some(VadEvent::SpeechEnded { frame: end }),
                    None => None,
                },
            )
        }
    } else if rms >= state.adaptive_threshold {
        let start = if state.attack_frames > 0 && state.attack_start_frame is Some {
            state.attack_start_frame->0
        } else {
            frame
        };
        let voiced = VadState { voiced_frames: counted(state.voiced_frames), ..seen };
        if counted(state.attack_frames) >= frames_to_start(state.config) {
            // speech is confirmed
            (
                VadState {
                    speech_active: true,
                    speech_start_frame: if state.speech_start_frame is Some {
                        state.speech_start_frame
                    } else {
                        Some(start)
                    },
                    speech_end_frame: Some(counted(frame)),
                    attack_frames: 0,
                    attack_start_frame: None,
                    ..voiced
                },
                Some(VadEvent::SpeechStarted { frame: start }),
            )
        } else {
            // a possible onset
            (
                VadState {
                    attack_frames: counted(state.attack_frames),
                    attack_start_frame: if state.attack_frames == 0 {
                        Some(frame)
                    } else {
                        state.attack_start_frame
                    },
                    ..voiced
                },
                None,
            )
        }
    } else {
        // room noise
        (learned(VadState { attack_frames: 0, attack_start_frame: None, ..seen }, rms), None)
    }
}

/// What is reported of a frame of level `rms`.
pub open spec fn analysis_of(state: VadState, rms: u16) -> VadFrameAnalysis {
    let after = stepped(state, rms).0;
    let pausing = state.speech_active && rms < exit_level(state.adaptive_threshold);
    let attacking = !state.speech_active && rms >= state.adaptive_threshold;
    VadFrameAnalysis {
        frame: state.total_frames,
        rms,
        noise_floor: or_zero(after.noise_floor),
        adaptive_threshold: after.adaptive_threshold,
        voiced: if state.speech_active {
            !pausing
        } else {
            attacking
        },
        speech_active: after.speech_active,
        attack_frames: if attacking {
            counted(state.attack_frames)
        } else {
            0
        },
        release_frames: if pausing {
            counted(state.release_frames)
        } else {
            0
        },
        hangover_frames_remaining: if pausing && after.speech_active {
            (END_SILENCE_FRAMES - counted(state.release_frames)) as u32
        } else {
            0
        },
        event: stepped(state, rms).1,
    }
}

/// The state of a detector that has seen nothing yet.
pub open spec fn initial_state(config: VadConfig, noise_floor: Option<u16>) -> VadState {
    VadState {
        config,
        noise_floor,
        adaptive_threshold: entry_level(config, or_zero(noise_floor)) as u16,
        total_frames: 0,
        voiced_frames: 0,
        rms_sum: 0,
        peak: 0,
        attack_frames: 0,
        attack_start_frame: None,
        release_frames: 0,
        speech_active: false,
        speech_start_frame: None,
        speech_end_frame: None,
    }
}

/// The state after frames of the given levels.
pub open spec fn run(state: VadState, levels: Seq<u16>) -> VadState
    decreases levels.len(),
{
    if levels.len() == 0 {
        state
    } else {
        stepped(run(state, levels.drop_last()), levels.last()).0
    }
}

/// The result of a stream that held no frame.
pub open spec fn nothing_heard(peak: u16) -> VadResult {
    VadResult {
        speech_detected: false,
        voiced_frames: 0,
        total_frames: 0,
        peak,
        average_rms: 0,
        noise_floor: 0,
        adaptive_threshold: 0,
        speech_start_frame: None,
        speech_end_frame: None,
        trim_start_frame: None,
        trim_end_frame: None,
    }
}

/// What a detector in the given state concludes.
pub open spec fn conclusion(state: VadState) -> VadResult {
    if state.total_frames == 0 {
        nothing_heard(state.peak)
    } else {
        VadResult {
            speech_detected: state.speech_start_frame is Some && state.speech_end_frame is Some,
            voiced_frames: state.voiced_frames,
            total_frames: state.total_frames,
            peak: state.peak,
            average_rms: min_nat(
                (state.rms_sum / state.total_frames as u64) as nat,
                u16::MAX as nat,
            ) as u16,
            noise_floor: or_zero(state.noise_floor),
            adaptive_threshold: state.adaptive_threshold,
            speech_start_frame: state.speech_start_frame,
            speech_end_frame: state.speech_end_frame,
            trim_start_frame: match state.speech_start_frame {
                Some(start) => Some(
                    if start < PRE_ROLL_FRAMES {
                        0
                    } else {
                        (start - PRE_ROLL_FRAMES) as u32
                    },
                ),
                None => None,
            },
            trim_end_frame: match state.speech_end_frame {
                Some(end) => Some(
                    min_nat((end + POST_ROLL_FRAMES) as nat, state.total_frames as nat) as u32,
                ),
                None => None,
            },
        }
    }
}

fn threshold_for(config: VadConfig, noise_floor: u16) -> (r: u16)
    ensures
        r == entry_level(config, noise_floor),
{
    let adaptive: u32 = 2 * noise_floor as u32 + 80;
    let ceiling: u32 = 4 * config.rms_threshold as u32;
    let mut level: u32 = if adaptive < ceiling {
        adaptive
    } else {
        ceiling
    };
    if level > 65_535 {
        level = 65_535;
    }
    if level < config.rms_threshold as u32 {
        config.rms_threshold
    } else {
        level as u16
    }
}

fn smooth(current: u16, sample: u16, divisor: u32) -> (r: u16)
    requires
        divisor == 8 || divisor == 32,
    ensures
        r == smoothed(current, sample, divisor as int),
{
    if sample >= current {
        let step: u32 = (sample - current) as u32 / divisor;
        (current as u32 + step) as u16
    } else {
        let step: u32 = ((current - sample) as u32 + (divisor - 1)) / divisor;
        proof {
            let down = current - sample;
            assert((sample - current) == -down);
            assert((-down) / 8 == -((down + 7) / 8));
            assert((-down) / 32 == -((down + 31) / 32));
        }
        (current as u32 - step) as u16
    }
}

fn count(n: u32) -> (r: u32)
    ensures
        r == counted(n),
{
    n.saturating_add(1)
}

fn known_level(level: Option<u16>) -> (r: u16)
    ensures
        r == or_zero(level),
{
    match level {
        Some(value) => value,
        None => 0,
    }
}

/// Stateful 20 ms-frame VAD with adaptive non-speech noise tracking.
///
/// The detector uses an entry threshold derived from the configured floor and the tracked room
/// noise. Once speech is active, a lower exit threshold avoids chopping quieter phonemes. Noise
/// is updated only while speech is inactive and a frame is below the entry threshold, so
/// confirmed speech never teaches the estimator that a voice is background noise.
#[derive(Debug)]
pub struct StreamingVad {
    state: VadState,
}

impl StreamingVad {
    pub closed spec fn view(&self) -> VadState {
        self.state
    }

    pub fn new(config: VadConfig) -> (vad: Self)
        ensures
            vad@ == initial_state(config, None),
    {
        StreamingVad::with_optional_noise_floor(config, None)
    }

    /// Creates a detector with a previously calibrated noise floor.
    pub fn with_noise_floor(config: VadConfig, noise_floor: u16) -> (vad: Self)
        ensures
            vad@ == initial_state(config, Some(noise_floor)),
    {
        StreamingVad::with_optional_noise_floor(config, Some(noise_floor))
    }

    fn with_optional_noise_floor(config: VadConfig, noise_floor: Option<u16>) -> (vad: Self)
        ensures
            vad@ == initial_state(config, noise_floor),
    {
        StreamingVad {
            state: VadState {
                config,
                noise_floor,
                adaptive_threshold: threshold_for(config, known_level(noise_floor)),
                total_frames: 0,
                voiced_frames: 0,
                rms_sum: 0,
                peak: 0,
                attack_frames: 0,
                attack_start_frame: None,
                release_frames: 0,
                speech_active: false,
                speech_start_frame: None,
                speech_end_frame: None,
            },
        }
    }

    /// The level at which a frame currently counts as voiced.
    pub fn adaptive_threshold(&self) -> (r: u16)
        ensures
            r == self@.adaptive_threshold,
    {
        self.state.adaptive_threshold
    }

    /// Processes one PCM frame. A final short frame is accepted; an odd trailing byte is ignored.
    pub fn process_frame(&mut self, pcm: &[u8]) -> (r: VadFrameAnalysis)
        ensures
            ({
                let peak = max_nat(
                    old(self)@.peak as nat,
                    peak_of(pcm@, sample_count(pcm@.len())),
                ) as u16;
                let state = VadState { peak, ..old(self)@ };
                &&& r == analysis_of(state, rms_of(pcm@) as u16)
                &&& final(self)@ == stepped(state, rms_of(pcm@) as u16).0
            }),
    {
        let (rms, peak) = frame_level(pcm);
        if peak > self.state.peak {
            self.state.peak = peak;
        }
        self.process_level(rms)
    }

    /// Returns accumulated stream statistics and padded trim boundaries.
    pub fn finish(self) -> (r: VadResult)
        ensures
            r == conclusion(self@),
    {
        let state = self.state;
        if state.total_frames == 0 {
            return empty_result(state.peak);
        }
        let average: u64 = state.rms_sum / state.total_frames as u64;
        let average_rms: u16 = if average <= 65_535 {
            average as u16
        } else {
            65_535
        };
        let trim_start_frame = match state.speech_start_frame {
            Some(start) => Some(start.saturating_sub(PRE_ROLL_FRAMES)),
            None => None,
        };
        let trim_end_frame = match state.speech_end_frame {
            Some(end) => {
                let padded: u32 = end.saturating_add(POST_ROLL_FRAMES);
                Some(
                    if padded < state.total_frames {
                        padded
                    } else {
                        state.total_frames
                    },
                )
            },
            None => None,
        };
        VadResult {
            speech_detected: state.speech_start_frame.is_some()
                && state.speech_end_frame.is_some(),
            voiced_frames: state.voiced_frames,
            total_frames: state.total_frames,
            peak: state.peak,
            average_rms,
            noise_floor: known_level(state.noise_floor),
            adaptive_threshold: state.adaptive_threshold,
            speech_start_frame: state.speech_start_frame,
            speech_end_frame: state.speech_end_frame,
            trim_start_frame,
            trim_end_frame,
        }
    }

    /// Processes the level of one frame.
    pub fn process_level(&mut self, rms: u16) -> (r: VadFrameAnalysis)
        ensures
            r == analysis_of(old(self)@, rms),
            final(self)@ == stepped(old(self)@, rms).0,
    {
        let frame: u32 = self.state.total_frames;
        self.state.total_frames = count(frame);
        self.state.rms_sum = self.state.rms_sum.saturating_add(rms as u64);

        let entry_threshold: u16 = self.state.adaptive_threshold;
        let tripled: u32 = 3 * entry_threshold as u32;
        let exit_threshold: u16 = (if tripled < 65_535 {
            tripled
        } else {
            65_535
        } / 4) as u16;
        let mut voiced = false;
        let mut event: Option<VadEvent> = None;
        let mut reported_attack: u32 = 0;
        let mut reported_release: u32 = 0;

        if self.state.speech_active {
            voiced = rms >= exit_threshold;
            if voiced {
                self.state.voiced_frames = count(self.state.voiced_frames);
                self.state.release_frames = 0;
                self.state.speech_end_frame = Some(count(frame));
            } else {
                self.state.release_frames = count(self.state.release_frames);
                reported_release = self.state.release_frames;
                if self.state.release_frames >= END_SILENCE_FRAMES {
                    self.state.speech_active = false;
                    self.state.release_frames = 0;
                    event = match self.state.speech_end_frame {
                        Some(end) => Some(VadEvent::SpeechEnded { frame: end }),
                        None => None,
                    };
                    self.update_noise(rms);
                }
            }
        } else if rms >= entry_threshold {
            voiced = true;
            self.state.voiced_frames = count(self.state.voiced_frames);
            if self.state.attack_frames == 0 {
                self.state.attack_start_frame = Some(frame);
            }
            self.state.attack_frames = count(self.state.attack_frames);
            reported_attack = self.state.attack_frames;
            let needed: u32 = if self.state.config.minimum_voiced_frames == 0 {
                1
            } else {
                self.state.config.minimum_voiced_frames
            };
            if self.state.attack_frames >= needed {
                let start: u32 = match self.state.attack_start_frame {
                    Some(start) => start,
                    None => frame,
                };
                self.state.speech_active = true;
                if self.state.speech_start_frame.is_none() {
                    self.state.speech_start_frame = Some(start);
                }
                self.state.speech_end_frame = Some(count(frame));
                self.state.attack_frames = 0;
                self.state.attack_start_frame = None;
                event = Some(VadEvent::SpeechStarted { frame: start });
            }
        } else {
            self.state.attack_frames = 0;
            self.state.attack_start_frame = None;
            self.update_noise(rms);
        }

        let hangover_frames_remaining: u32 = if self.state.speech_active && reported_release > 0 {
            END_SILENCE_FRAMES.saturating_sub(reported_release)
        } else {
            0
        };
        VadFrameAnalysis {
            frame,
            rms,
            noise_floor: known_level(self.state.noise_floor),
            adaptive_threshold: self.state.adaptive_threshold,
            voiced,
            speech_active: self.state.speech_active,
            attack_frames: reported_attack,
            release_frames: reported_release,
            hangover_frames_remaining,
            event,
        }
    }

    fn update_noise(&mut self, rms: u16)
        ensures
            final(self)@ == learned(old(self)@, rms),
    {
        let noise: u16 = match self.state.noise_floor {
            None => rms,
            Some(current) => if rms <= current {
                smooth(current, rms, 8)
            } else {
                smooth(current, rms, 32)
            },
        };
        self.state.noise_floor = Some(noise);
        self.state.adaptive_threshold = threshold_for(self.state.config, noise);
    }
}

fn empty_result(peak: u16) -> (r: VadResult)
    ensures
        r == nothing_heard(peak),
{
    VadResult {
        speech_detected: false,
        voiced_frames: 0,
        total_frames: 0,
        peak,
        average_rms: 0,
        noise_floor: 0,
        adaptive_threshold: 0,
        speech_start_frame: None,
        speech_end_frame: None,
        trim_start_frame: None,
        trim_end_frame: None,
    }
}

/// Frame `i` of a recording; the last one may be short.
pub open spec fn frame_at(pcm: Seq<u8>, i: int) -> Seq<u8> {
    pcm.subrange(
        i * BYTES_PER_FRAME,
        min_nat(((i + 1) * BYTES_PER_FRAME) as nat, pcm.len()) as int,
    )
}

/// The frames of `bytes` bytes that hold at least one sample.
pub open spec fn frame_count(bytes: nat) -> nat {
    (bytes / 640 + (if bytes % 640 >= 2 {
        1int
    } else {
        0
    })) as nat
}

/// The levels of the frames of a recording.
pub open spec fn levels_of(pcm: Seq<u8>) -> Seq<u16> {
    Seq::new(frame_count(pcm.len()), |i: int| rms_of(frame_at(pcm, i)) as u16)
}

proof fn lemma_peak_joins(pcm: Seq<u8>, part: Seq<u8>, before: nat, n: nat)
    requires
        2 * n <= part.len(),
        2 * before + part.len() <= pcm.len(),
        forall|j: int| 0 <= j < part.len() ==> part[j] == pcm[2 * before + j],
    ensures
        peak_of(pcm, before + n) == max_nat(peak_of(pcm, before), peak_of(part, n)),
    decreases n,
{
    if n > 0 {
        lemma_peak_joins(pcm, part, before, (n - 1) as nat);
        let m = n - 1;
        assert(part[2 * m] == pcm[2 * (before + m)]);
        assert(part[2 * m + 1] == pcm[2 * (before + m) + 1]);
        assert(crate::level::magnitude(part, m) == crate::level::magnitude(pcm, before + m));
    }
}

/// The levels of the frames of a recording and its peak.
#[verifier::rlimit(60)]
#[verifier::spinoff_prover]
fn frame_levels(pcm: &[u8]) -> (r: (Vec<u16>, u16))
    ensures
        r.0@ == levels_of(pcm@),
        r.1 == peak_of(pcm@, sample_count(pcm@.len())),
{
    let mut levels: Vec<u16> = Vec::new();
    let mut peak: u16 = 0;
    let mut start: usize = 0;
    let ghost mut i: int = 0;
    let total: usize = pcm.len();
    while start < total
        invariant
            total == pcm@.len(),
            0 <= i,
            start == min_nat((i * 640) as nat, total as nat),
            levels@.len() == (if i * 640 <= total {
                i
            } else {
                frame_count(total as nat) as int
            }),
            levels@.len() <= frame_count(total as nat),
            forall|j: int|
                0 <= j < levels@.len() ==> #[trigger] levels@[j] == rms_of(
                    frame_at(pcm@, j),
                ) as u16,
            peak == peak_of(pcm@, sample_count(start as nat)),
        decreases total - start,
    {
        let end: usize = if total - start > BYTES_PER_FRAME {
            start + BYTES_PER_FRAME
        } else {
            total
        };
        let frame = vstd::slice::slice_subrange(pcm, start, end);
        let (rms, frame_peak) = frame_level(frame);
        proof {
            assert(i * 640 == start);
            assert(frame@ =~= frame_at(pcm@, i));
            assert forall|j: int| 0 <= j < frame@.len() implies frame@[j] == pcm@[2 * (start / 2)
                + j] by {
                assert(start % 2 == 0);
            }
            lemma_peak_joins(
                pcm@,
                frame@,
                (start / 2) as nat,
                sample_count(frame@.len()),
            );
            assert(sample_count(start as nat) + sample_count(frame@.len()) == sample_count(
                end as nat,
            ));
        }
        if frame.len() >= 2 {
            levels.push(rms);
            if frame_peak > peak {
                peak = frame_peak;
            }
        }
        start = end;
        proof {
            i = i + 1;
        }
    }
    assert(levels@ =~= levels_of(pcm@));
    (levels, peak)
}

/// What a whole recording holds: the detector starts from the noise of the quiet fifth of it.
pub open spec fn recording_result(pcm: Seq<u8>, config: VadConfig) -> VadResult {
    let levels = levels_of(pcm);
    let peak = peak_of(pcm, sample_count(pcm.len())) as u16;
    if levels.len() == 0 {
        nothing_heard(peak)
    } else {
        let noise = percentile_of(levels, NOISE_PERCENT as nat);
        let heard = run(initial_state(config, Some(noise)), levels);
        conclusion(VadState { peak, ..heard })
    }
}

/// Analyzes 16 kHz mono signed 16-bit little-endian PCM in 20 ms frames.
///
/// The low percentile of the levels of the whole recording seeds the noise floor; a live caller
/// uses [`StreamingVad::new`] and learns noise only from frames without speech.
pub fn analyze_pcm(pcm: &[u8], config: VadConfig) -> (r: VadResult)
    ensures
        r == recording_result(pcm@, config),
{
    let (levels, peak) = frame_levels(pcm);
    if levels.len() == 0 {
        return empty_result(peak);
    }
    let noise_floor: u16 = percentile(&levels, NOISE_PERCENT);
    let mut vad = StreamingVad::with_noise_floor(config, noise_floor);
    let ghost initial = vad@;
    for i in 0..levels.len()
        invariant
            vad@ == run(initial, levels@.take(i as int)),
    {
        let _analysis = vad.process_level(levels[i]);
        proof {
            assert(levels@.take(i + 1).drop_last() =~= levels@.take(i as int));
        }
    }
    assert(levels@.take(levels@.len() as int) =~= levels@);
    vad.state.peak = peak;
    vad.finish()
}

/// The byte range of a recording of `length` bytes that trimming keeps; none where the
/// recording stays as it is.
pub open spec fn kept_range(result: VadResult, length: nat) -> Option<(nat, nat)> {
    if result.trim_start_frame is Some && result.trim_end_frame is Some {
        let start = min_nat((result.trim_start_frame->0 * BYTES_PER_FRAME) as nat, length);
        let end = min_nat((result.trim_end_frame->0 * BYTES_PER_FRAME) as nat, length);
        if start < end {
            Some((start, end))
        } else {
            None
        }
    } else {
        None
    }
}

/// The byte range that trimming a recording of `length` bytes keeps.
pub fn trim_range(result: &VadResult, length: usize) -> (r: Option<(usize, usize)>)
    ensures
        match r {
            Some((start, end)) => kept_range(*result, length as nat) == Some(
                (start as nat, end as nat),
            ),
            None => kept_range(*result, length as nat) is None,
        },
{
    match (result.trim_start_frame, result.trim_end_frame) {
        (Some(first), Some(last)) => {
            let start: usize = frame_offset(first, length);
            let end: usize = frame_offset(last, length);
            if start >= end {
                None
            } else {
                Some((start, end))
            }
        },
        _ => None,
    }
}

fn frame_offset(frame: u32, length: usize) -> (r: usize)
    ensures
        r == min_nat((frame * BYTES_PER_FRAME) as nat, length as nat),
{
    let offset: u64 = frame as u64 * 640;
    if offset < length as u64 {
        offset as usize
    } else {
        length
    }
}

/// What every state of a detector has in common.
pub open spec fn state_ok(state: VadState) -> bool {
    &&& state.adaptive_threshold == entry_level(state.config, or_zero(state.noise_floor))
    &&& state.release_frames < END_SILENCE_FRAMES
    &&& state.attack_frames < frames_to_start(state.config)
    &&& (state.attack_frames > 0 <==> state.attack_start_frame is Some)
    &&& (state.attack_start_frame is Some ==> state.attack_start_frame->0 <= state.total_frames)
    &&& state.voiced_frames <= state.total_frames
    &&& (state.speech_start_frame is Some <==> state.speech_end_frame is Some)
    &&& (state.speech_start_frame is Some ==> state.speech_start_frame->0
        <= state.speech_end_frame->0 <= state.total_frames)
    &&& (state.speech_active ==> state.speech_start_frame is Some && state.attack_frames == 0)
    &&& (!state.speech_active ==> state.release_frames == 0)
}

proof fn lemma_smoothed_in_range(current: u16, sample: u16)
    ensures
        sample <= current ==> sample <= smoothed(current, sample, 8) <= current,
        current <= sample ==> current <= smoothed(current, sample, 32) <= sample,
{
}

/// A new detector is in order, and every frame keeps it so: the threshold follows the noise,
/// the counters stay below their limits, and speech lies within the frames seen so far.
pub proof fn law_every_state_is_in_order(config: VadConfig, noise: Option<u16>, levels: Seq<u16>)
    ensures
        state_ok(run(initial_state(config, noise), levels)),
    decreases levels.len(),
{
    if levels.len() > 0 {
        law_every_state_is_in_order(config, noise, levels.drop_last());
        let before = run(initial_state(config, noise), levels.drop_last());
        let rms = levels.last();
        match before.noise_floor {
            Some(current) => lemma_smoothed_in_range(current, rms),
            None => {},
        }
    }
}

/// The trimmed interval holds the speech and lies within the stream.
pub proof fn law_trim_keeps_the_speech(state: VadState)
    requires
        state_ok(state),
    ensures
        ({
            let r = conclusion(state);
            r.speech_detected ==> {
                &&& r.trim_start_frame is Some && r.trim_end_frame is Some
                &&& r.trim_start_frame->0 <= r.speech_start_frame->0
                &&& r.speech_start_frame->0 <= r.speech_end_frame->0
                &&& r.speech_end_frame->0 <= r.trim_end_frame->0
                &&& r.trim_end_frame->0 <= r.total_frames
            }
        }),
{
}

/// While speech goes on no frame changes the noise floor or the threshold.
pub proof fn law_speech_never_teaches_noise(state: VadState, rms: u16)
    requires
        state.speech_active,
        stepped(state, rms).0.speech_active,
    ensures
        stepped(state, rms).0.noise_floor == state.noise_floor,
        stepped(state, rms).0.adaptive_threshold == state.adaptive_threshold,
{
}

/// A voiced frame never changes the noise floor either, so a click does not raise it.
pub proof fn law_voiced_frame_never_teaches_noise(state: VadState, rms: u16)
    requires
        !state.speech_active,
        rms >= state.adaptive_threshold,
    ensures
        stepped(state, rms).0.noise_floor == state.noise_floor,
{
}

/// Speech ends only after the full release and hangover of silent frames.
pub proof fn law_speech_outlasts_a_pause(state: VadState, rms: u16)
    requires
        state.speech_active,
        state.release_frames + 1 < RELEASE_FRAMES + HANGOVER_FRAMES,
    ensures
        stepped(state, rms).0.speech_active,
        stepped(state, rms).1 is None,
{
}

/// The start of speech that was found first stays the start.
pub proof fn law_first_start_is_kept(state: VadState, levels: Seq<u16>)
    requires
        state.speech_start_frame is Some,
    ensures
        run(state, levels).speech_start_frame == state.speech_start_frame,
    decreases levels.len(),
{
    if levels.len() > 0 {
        law_first_start_is_kept(state, levels.drop_last());
    }
}

/// A frame of speech that goes on: a level of at least three quarters of the threshold is part of the
/// speech, which then ends behind that frame at the earliest, and a pause before it is forgotten.
/// Fewer than fifteen quieter frames in a row are a pause; with the fifteenth the speech is over, and
/// its end is told.
pub proof fn law_voice_extends_the_speech(state: VadState, rms: u16)
    requires
        state.speech_active,
        state.total_frames < u32::MAX,
        state.voiced_frames < u32::MAX,
        state.release_frames < 15,
        state.speech_end_frame is Some,
    ensures
        ({
            let (after, event) = stepped(state, rms);
            let tripled: int = if 3 * state.adaptive_threshold < 65_535 {
                3 * state.adaptive_threshold
            } else {
                65_535
            };
            &&& after.total_frames == state.total_frames + 1
            &&& after.speech_start_frame == state.speech_start_frame
            &&& rms >= tripled / 4 ==> {
                &&& after.speech_active
                &&& after.speech_end_frame == Some((state.total_frames + 1) as u32)
                &&& after.release_frames == 0
                &&& after.voiced_frames == state.voiced_frames + 1
                &&& event is None
            }
            &&& rms < tripled / 4 ==> {
                &&& after.speech_end_frame == state.speech_end_frame
                &&& after.voiced_frames == state.voiced_frames
                &&& state.release_frames < 14 ==> after.speech_active && after.release_frames
                    == state.release_frames + 1 && event is None
                &&& state.release_frames == 14 ==> !after.speech_active && event == Some(
                    VadEvent::SpeechEnded { frame: state.speech_end_frame->0 },
                )
            }
        }),
{
}

/// A frame outside of speech: one that reaches the threshold is voiced, and as many of them in a row
/// as are configured make speech, from the first of them on. Any other frame is noise and ends the
/// row.
pub proof fn law_a_row_of_voice_starts_speech(state: VadState, rms: u16)
    requires
        !state.speech_active,
        state.total_frames < u32::MAX,
        state.voiced_frames < u32::MAX,
        state.attack_frames < u32::MAX,
        state.attack_frames > 0 <==> state.attack_start_frame is Some,
    ensures
        ({
            let (after, event) = stepped(state, rms);
            let enough = state.attack_frames + 1 >= state.config.minimum_voiced_frames;
            let onset = if state.attack_frames > 0 {
                state.attack_start_frame->0
            } else {
                state.total_frames
            };
            &&& after.total_frames == state.total_frames + 1
            &&& rms >= state.adaptive_threshold ==> {
                &&& after.voiced_frames == state.voiced_frames + 1
                &&& after.noise_floor == state.noise_floor
                &&& after.adaptive_threshold == state.adaptive_threshold
                &&& after.speech_active == enough
            }
            &&& rms >= state.adaptive_threshold && enough ==> {
                &&& event == Some(VadEvent::SpeechStarted { frame: onset })
                &&& after.speech_end_frame == Some((state.total_frames + 1) as u32)
                &&& after.speech_start_frame == (if state.speech_start_frame is Some {
                    state.speech_start_frame
                } else {
                    Some(onset)
                })
                &&& after.attack_frames == 0
            }
            &&& rms >= state.adaptive_threshold && !enough ==> {
                &&& event is None
                &&& after.attack_frames == state.attack_frames + 1
                &&& after.attack_start_frame == Some(onset)
                &&& after.speech_start_frame == state.speech_start_frame
                &&& after.speech_end_frame == state.speech_end_frame
            }
            &&& rms < state.adaptive_threshold ==> {
                &&& event is None
                &&& !after.speech_active
                &&& after.attack_frames == 0
                &&& after.voiced_frames == state.voiced_frames
                &&& after.speech_start_frame == state.speech_start_frame
                &&& after.speech_end_frame == state.speech_end_frame
            }
        }),
{
}

/// The noise floor follows noise: down by an eighth of the way, rounded up, and up by a
/// thirty-second, rounded down; the first noise is the floor. The threshold is twice the floor and
/// 80, within the configured level and four times of it.
pub proof fn law_threshold_follows_the_noise(state: VadState, rms: u16)
    requires
        !state.speech_active,
        rms < state.adaptive_threshold,
    ensures
        ({
            let after = stepped(state, rms).0;
            let wanted = 2 * after.noise_floor->0 + 80;
            let least = state.config.rms_threshold as int;
            &&& after.noise_floor is Some
            &&& state.noise_floor is None ==> after.noise_floor == Some(rms)
            &&& state.noise_floor is Some && rms <= state.noise_floor->0
                ==> state.noise_floor->0 - after.noise_floor->0 == (state.noise_floor->0 - rms + 7)
                / 8
            &&& state.noise_floor is Some && rms > state.noise_floor->0 ==> after.noise_floor->0
                - state.noise_floor->0 == (rms - state.noise_floor->0) / 32
            &&& wanted <= least ==> after.adaptive_threshold == least
            &&& least <= wanted <= 4 * least && wanted <= 65_535 ==> after.adaptive_threshold
                == wanted
            &&& 4 * least <= wanted && 4 * least <= 65_535 ==> after.adaptive_threshold == 4 * least
            &&& wanted > 65_535 && 4 * least > 65_535 ==> after.adaptive_threshold == 65_535
        }),
{
    match state.noise_floor {
        Some(current) => {
            lemma_smoothed_in_range(current, rms);
            let down = current - rms;
            assert((-down) / 8 == -((down + 7) / 8));
        },
        None => {},
    }
}

/// A detector starts with the threshold for the noise that it is told of.
pub proof fn law_threshold_of_a_new_detector(config: VadConfig, noise: Option<u16>)
    ensures
        ({
            let state = initial_state(config, noise);
            let wanted = 2 * (if noise is Some {
                noise->0 as int
            } else {
                0
            }) + 80;
            let least = config.rms_threshold as int;
            &&& !state.speech_active
            &&& state.total_frames == 0
            &&& state.noise_floor == noise
            &&& wanted <= least ==> state.adaptive_threshold == least
            &&& least <= wanted <= 4 * least && wanted <= 65_535 ==> state.adaptive_threshold
                == wanted
            &&& 4 * least <= wanted && 4 * least <= 65_535 ==> state.adaptive_threshold == 4 * least
        }),
{
}

/// The level is loud: it reaches the threshold, whatever the noise is.
pub open spec fn loud(config: VadConfig, level: u16) -> bool {
    level >= 4 * config.rms_threshold
}

/// The level is hushed: it neither starts speech nor keeps it going, whatever the noise is.
pub open spec fn hushed(config: VadConfig, level: u16) -> bool {
    4 * (level + 1) <= 3 * config.rms_threshold
}

/// One of the `n` frames from `j` on is loud.
pub open spec fn loud_within(config: VadConfig, levels: Seq<u16>, j: int, n: int) -> bool {
    exists|k: int| j <= k < j + n && loud(config, #[trigger] levels[k])
}

/// One of the `n` frames from `j` on is hushed.
pub open spec fn hushed_within(config: VadConfig, levels: Seq<u16>, j: int, n: int) -> bool {
    exists|k: int| j <= k < j + n && hushed(config, #[trigger] levels[k])
}

proof fn lemma_loud_and_hushed(config: VadConfig, noise: Option<u16>, levels: Seq<u16>)
    requires
        0 < config.rms_threshold,
        4 * config.rms_threshold <= 65_535,
    ensures
        ({
            let state = run(initial_state(config, noise), levels);
            &&& state_ok(state)
            &&& state.config == config
            &&& config.rms_threshold <= state.adaptive_threshold <= 4 * config.rms_threshold
            &&& exit_level(state.adaptive_threshold) <= 4 * config.rms_threshold
            &&& 3 * config.rms_threshold / 4 <= exit_level(state.adaptive_threshold)
        }),
    decreases levels.len(),
{
    law_every_state_is_in_order(config, noise, levels);
    if levels.len() > 0 {
        lemma_loud_and_hushed(config, noise, levels.drop_last());
    }
}

/// The state after the first `m` of the levels, where speech begins at `s` and its last loud frame
/// is `e`.
proof fn lemma_speech_so_far(
    config: VadConfig,
    noise: Option<u16>,
    levels: Seq<u16>,
    s: int,
    e: int,
    m: int,
)
    requires
        0 < config.rms_threshold,
        4 * config.rms_threshold <= 65_535,
        levels.len() < u32::MAX,
        0 <= m <= levels.len(),
        0 <= s,
        ({
            let n: int = if config.minimum_voiced_frames == 0 {
                1
            } else {
                config.minimum_voiced_frames as int
            };
            &&& s + n <= e + 1
            &&& forall|k: int| s <= k < s + n ==> loud(config, #[trigger] levels[k])
        }),
        e < levels.len(),
        loud(config, levels[e]),
        forall|k: int| 0 <= k < s ==> hushed(config, #[trigger] levels[k]),
        forall|k: int| e < k < levels.len() ==> hushed(config, #[trigger] levels[k]),
        forall|k: int|
            0 <= k < levels.len() ==> loud(config, #[trigger] levels[k]) || hushed(
                config,
                levels[k],
            ),
        forall|j: int|
            s <= j && j + 15 <= e + 1 ==> #[trigger] loud_within(config, levels, j, 15),
    ensures
        ({
            let state = run(initial_state(config, noise), levels.take(m));
            let n: int = if config.minimum_voiced_frames == 0 {
                1
            } else {
                config.minimum_voiced_frames as int
            };
            &&& state.total_frames == m
            &&& state.voiced_frames <= m
            &&& m <= s ==> !state.speech_active && state.attack_frames == 0
                && state.speech_start_frame is None && state.speech_end_frame is None
            &&& s < m < s + n ==> !state.speech_active && state.attack_frames == m - s
                && state.attack_start_frame == Some(s as u32) && state.speech_start_frame is None
                && state.speech_end_frame is None
            &&& s + n <= m <= e + 1 ==> {
                &&& state.speech_active
                &&& state.attack_frames == 0
                &&& state.speech_start_frame == Some(s as u32)
                &&& state.speech_end_frame is Some
                &&& s < state.speech_end_frame->0 <= m
                &&& loud(config, levels[state.speech_end_frame->0 - 1])
                &&& forall|k: int|
                    state.speech_end_frame->0 <= k < m ==> !loud(config, #[trigger] levels[k])
                &&& state.release_frames == m - state.speech_end_frame->0
            }
            &&& m > e ==> {
                &&& state.speech_start_frame == Some(s as u32)
                &&& state.speech_end_frame == Some((e + 1) as u32)
                &&& state.attack_frames == 0
            }
        }),
    decreases m,
{
    let n: int = if config.minimum_voiced_frames == 0 {
        1
    } else {
        config.minimum_voiced_frames as int
    };
    if m > 0 {
        lemma_speech_so_far(config, noise, levels, s, e, m - 1);
        lemma_loud_and_hushed(config, noise, levels.take(m - 1));
        let before = run(initial_state(config, noise), levels.take(m - 1));
        let level = levels[m - 1];
        assert(levels.take(m).drop_last() =~= levels.take(m - 1));
        assert(levels.take(m).last() == level);
        let after = run(initial_state(config, noise), levels.take(m));
        assert(after == stepped(before, level).0);
        assert(loud(config, level) || hushed(config, level));
        if s + n <= m - 1 && m - 1 <= e && !loud(config, level) {
            // within the speech a pause stays shorter than its limit
            let end = before.speech_end_frame->0 as int;
            if before.release_frames >= 14 {
                assert(end + 15 <= m);
                assert(m <= e) by {
                    if m == e + 1 {
                        assert(levels[e] == level);
                    }
                }
                assert(loud_within(config, levels, end, 15));
                let k = choose|k: int| end <= k < end + 15 && loud(config, #[trigger] levels[k]);
                assert(k < m - 1 ==> !loud(config, levels[k]));
            }
        }
        if m - 1 == s + n - 1 {
            assert(loud(config, levels[s + n - 1]));
        }
    } else {
        assert(levels.take(0) =~= Seq::<u16>::empty());
    }
}

/// Speech in a stream of loud and hushed frames: it begins with the first loud row that is long
/// enough and ends behind the last loud frame, as long as no pause in between has fifteen frames; a
/// shorter pause is part of it. What trimming keeps begins eight frames earlier and ends fifteen
/// frames later, within the stream. The noise that the detector was told of makes no difference.
pub proof fn law_speech_spans_its_pauses(
    config: VadConfig,
    noise: Option<u16>,
    levels: Seq<u16>,
    s: int,
    e: int,
)
    requires
        0 < config.rms_threshold,
        4 * config.rms_threshold <= 65_535,
        levels.len() < u32::MAX,
        0 <= s,
        ({
            let n: int = if config.minimum_voiced_frames == 0 {
                1
            } else {
                config.minimum_voiced_frames as int
            };
            &&& s + n <= e + 1
            &&& forall|k: int| s <= k < s + n ==> loud(config, #[trigger] levels[k])
        }),
        e < levels.len(),
        loud(config, levels[e]),
        forall|k: int| 0 <= k < s ==> hushed(config, #[trigger] levels[k]),
        forall|k: int| e < k < levels.len() ==> hushed(config, #[trigger] levels[k]),
        forall|k: int|
            0 <= k < levels.len() ==> loud(config, #[trigger] levels[k]) || hushed(
                config,
                levels[k],
            ),
        forall|j: int|
            s <= j && j + 15 <= e + 1 ==> #[trigger] loud_within(config, levels, j, 15),
    ensures
        ({
            let result = conclusion(run(initial_state(config, noise), levels));
            &&& result.speech_detected
            &&& result.total_frames == levels.len()
            &&& result.speech_start_frame == Some(s as u32)
            &&& result.speech_end_frame == Some((e + 1) as u32)
            &&& result.trim_start_frame == Some((if s < 8 {
                0
            } else {
                s - 8
            }) as u32)
            &&& result.trim_end_frame == Some((if e + 16 < levels.len() {
                e + 16
            } else {
                levels.len() as int
            }) as u32)
        }),
{
    let m = levels.len() as int;
    lemma_speech_so_far(config, noise, levels, s, e, m);
    assert(levels.take(m) =~= levels);
}

/// The same of a recording, whose own noise the detector is told of.
pub proof fn law_recorded_speech_spans_its_pauses(pcm: Seq<u8>, config: VadConfig, s: int, e: int)
    requires
        0 < config.rms_threshold,
        4 * config.rms_threshold <= 65_535,
        levels_of(pcm).len() < u32::MAX,
        0 <= s,
        ({
            let n: int = if config.minimum_voiced_frames == 0 {
                1
            } else {
                config.minimum_voiced_frames as int
            };
            &&& s + n <= e + 1
            &&& forall|k: int| s <= k < s + n ==> loud(config, #[trigger] levels_of(pcm)[k])
        }),
        e < levels_of(pcm).len(),
        loud(config, levels_of(pcm)[e]),
        forall|k: int| 0 <= k < s ==> hushed(config, #[trigger] levels_of(pcm)[k]),
        forall|k: int|
            e < k < levels_of(pcm).len() ==> hushed(config, #[trigger] levels_of(pcm)[k]),
        forall|k: int|
            0 <= k < levels_of(pcm).len() ==> loud(config, #[trigger] levels_of(pcm)[k]) || hushed(
                config,
                levels_of(pcm)[k],
            ),
        forall|j: int|
            s <= j && j + 15 <= e + 1 ==> #[trigger] loud_within(config, levels_of(pcm), j, 15),
    ensures
        ({
            let result = recording_result(pcm, config);
            &&& result.speech_detected
            &&& result.speech_start_frame == Some(s as u32)
            &&& result.speech_end_frame == Some((e + 1) as u32)
            &&& result.trim_start_frame == Some((if s < 8 {
                0
            } else {
                s - 8
            }) as u32)
            &&& result.trim_end_frame == Some((if e + 16 < levels_of(pcm).len() {
                e + 16
            } else {
                levels_of(pcm).len() as int
            }) as u32)
        }),
{
    let noise = percentile_of(levels_of(pcm), NOISE_PERCENT as nat);
    law_speech_spans_its_pauses(config, Some(noise), levels_of(pcm), s, e);
}

/// Loud frames that never make a row of the configured length are no speech.
pub proof fn law_clicks_are_no_speech(config: VadConfig, noise: Option<u16>, levels: Seq<u16>)
    requires
        0 < config.rms_threshold,
        4 * config.rms_threshold <= 65_535,
        levels.len() < u32::MAX,
        forall|k: int|
            0 <= k < levels.len() ==> loud(config, #[trigger] levels[k]) || hushed(
                config,
                levels[k],
            ),
        forall|j: int|
            0 <= j && j + config.minimum_voiced_frames <= levels.len() ==> #[trigger] hushed_within(
                config,
                levels,
                j,
                config.minimum_voiced_frames as int,
            ),
    ensures
        ({
            let result = conclusion(run(initial_state(config, noise), levels));
            &&& !result.speech_detected
            &&& result.speech_start_frame is None
            &&& result.trim_start_frame is None
            &&& result.trim_end_frame is None
        }),
{
    let m = levels.len() as int;
    lemma_clicks_so_far(config, noise, levels, m);
    assert(levels.take(m) =~= levels);
}

proof fn lemma_clicks_so_far(config: VadConfig, noise: Option<u16>, levels: Seq<u16>, m: int)
    requires
        0 < config.rms_threshold,
        4 * config.rms_threshold <= 65_535,
        levels.len() < u32::MAX,
        0 <= m <= levels.len(),
        forall|k: int|
            0 <= k < levels.len() ==> loud(config, #[trigger] levels[k]) || hushed(
                config,
                levels[k],
            ),
        forall|j: int|
            0 <= j && j + config.minimum_voiced_frames <= levels.len() ==> #[trigger] hushed_within(
                config,
                levels,
                j,
                config.minimum_voiced_frames as int,
            ),
    ensures
        ({
            let state = run(initial_state(config, noise), levels.take(m));
            &&& state.total_frames == m
            &&& !state.speech_active
            &&& state.speech_start_frame is None
            &&& state.speech_end_frame is None
            &&& state.attack_frames <= m
            &&& forall|k: int|
                m - state.attack_frames <= k < m ==> loud(config, #[trigger] levels[k])
        }),
    decreases m,
{
    if m > 0 {
        lemma_clicks_so_far(config, noise, levels, m - 1);
        lemma_loud_and_hushed(config, noise, levels.take(m - 1));
        let before = run(initial_state(config, noise), levels.take(m - 1));
        let level = levels[m - 1];
        assert(levels.take(m).drop_last() =~= levels.take(m - 1));
        assert(levels.take(m).last() == level);
        assert(loud(config, level) || hushed(config, level));
        if loud(config, level) {
            let n = config.minimum_voiced_frames as int;
            if before.attack_frames + 1 >= n {
                let j = m - n;
                if j < 0 {
                    assert(before.attack_frames + 1 <= m);
                    assert(false);
                }
                assert(hushed_within(config, levels, j, n));
                let k = choose|k: int| j <= k < j + n && hushed(config, #[trigger] levels[k]);
                assert(k < m - 1 ==> loud(config, levels[k]));
                assert(false);
            }
        }
    } else {
        assert(levels.take(0) =~= Seq::<u16>::empty());
    }
}

/// Every voiced frame of speech stays in the trimmed interval, whatever follows it. `i` is a frame
/// behind which speech goes on, and that was voiced: it started the speech or kept it going.
pub proof fn law_trim_holds_every_voiced_frame(
    config: VadConfig,
    noise: Option<u16>,
    levels: Seq<u16>,
    i: int,
)
    requires
        levels.len() < u32::MAX,
        0 <= i < levels.len(),
        ({
            let before = run(initial_state(config, noise), levels.take(i));
            let after = run(initial_state(config, noise), levels.take(i + 1));
            &&& after.speech_active
            &&& 4 * levels[i] >= 3 * before.adaptive_threshold
        }),
    ensures
        ({
            let after = run(initial_state(config, noise), levels.take(i + 1));
            let result = conclusion(run(initial_state(config, noise), levels));
            &&& after.speech_end_frame == Some((i + 1) as u32)
            &&& after.release_frames == 0
            &&& result.speech_detected
            &&& result.speech_start_frame->0 <= i < result.speech_end_frame->0
            &&& result.trim_start_frame->0 <= i < result.trim_end_frame->0
            &&& result.trim_start_frame->0 <= result.speech_start_frame->0
            &&& result.speech_end_frame->0 <= result.trim_end_frame->0 <= levels.len()
        }),
{
    let before = run(initial_state(config, noise), levels.take(i));
    let after = run(initial_state(config, noise), levels.take(i + 1));
    assert(levels.take(i + 1).drop_last() =~= levels.take(i));
    assert(levels.take(i + 1).last() == levels[i]);
    lemma_frames_counted(config, noise, levels, i);
    law_every_state_is_in_order(config, noise, levels.take(i));
    let m = levels.len() as int;
    lemma_end_only_grows(config, noise, levels, i + 1, m);
    assert(levels.take(m) =~= levels);
    law_every_state_is_in_order(config, noise, levels);
    lemma_frames_counted(config, noise, levels, m);
}

proof fn lemma_frames_counted(config: VadConfig, noise: Option<u16>, levels: Seq<u16>, m: int)
    requires
        levels.len() < u32::MAX,
        0 <= m <= levels.len(),
    ensures
        run(initial_state(config, noise), levels.take(m)).total_frames == m,
    decreases m,
{
    if m > 0 {
        lemma_frames_counted(config, noise, levels, m - 1);
        assert(levels.take(m).drop_last() =~= levels.take(m - 1));
    } else {
        assert(levels.take(0) =~= Seq::<u16>::empty());
    }
}

proof fn lemma_end_only_grows(
    config: VadConfig,
    noise: Option<u16>,
    levels: Seq<u16>,
    a: int,
    m: int,
)
    requires
        levels.len() < u32::MAX,
        0 <= a <= m <= levels.len(),
        run(initial_state(config, noise), levels.take(a)).speech_end_frame is Some,
        run(initial_state(config, noise), levels.take(a)).speech_start_frame is Some,
    ensures
        ({
            let early = run(initial_state(config, noise), levels.take(a));
            let late = run(initial_state(config, noise), levels.take(m));
            &&& late.speech_end_frame is Some
            &&& early.speech_end_frame->0 <= late.speech_end_frame->0
            &&& late.speech_start_frame == early.speech_start_frame
        }),
    decreases m - a,
{
    if a < m {
        lemma_end_only_grows(config, noise, levels, a, m - 1);
        lemma_frames_counted(config, noise, levels, m - 1);
        law_every_state_is_in_order(config, noise, levels.take(m - 1));
        assert(levels.take(m).drop_last() =~= levels.take(m - 1));
    }
}

/// What is told of a frame is how the detector stands behind it: whether the frame was voiced,
/// whether speech goes on, and how many frames of a pause remain.
pub proof fn law_a_frame_is_told_as_it_was_heard(state: VadState, rms: u16)
    requires
        state.release_frames < 15,
        state.attack_frames < u32::MAX,
        state.speech_active ==> state.speech_end_frame is Some,
    ensures
        ({
            let told = analysis_of(state, rms);
            let (after, event) = stepped(state, rms);
            let tripled: int = if 3 * state.adaptive_threshold < 65_535 {
                3 * state.adaptive_threshold
            } else {
                65_535
            };
            &&& told.frame == state.total_frames
            &&& told.rms == rms
            &&& told.speech_active == after.speech_active
            &&& told.adaptive_threshold == after.adaptive_threshold
            &&& after.noise_floor is Some ==> told.noise_floor == after.noise_floor->0
            &&& after.noise_floor is None ==> told.noise_floor == 0
            &&& told.event == event
            &&& told.voiced == (if state.speech_active {
                rms >= tripled / 4
            } else {
                rms >= state.adaptive_threshold
            })
            &&& told.release_frames == (if state.speech_active && !told.voiced {
                state.release_frames + 1
            } else {
                0
            })
            &&& told.attack_frames == (if !state.speech_active && told.voiced {
                state.attack_frames + 1
            } else {
                0
            })
            &&& told.hangover_frames_remaining == (if told.speech_active && told.release_frames
                > 0 {
                15 - told.release_frames
            } else {
                0
            })
        }),
{
}

/// The levels one after the other.
pub open spec fn level_sum(levels: Seq<u16>) -> nat
    decreases levels.len(),
{
    if levels.len() == 0 {
        0
    } else {
        level_sum(levels.drop_last()) + levels.last() as nat
    }
}

/// Every frame counts in the total and in the average.
pub proof fn law_every_frame_counts(config: VadConfig, noise: Option<u16>, levels: Seq<u16>)
    requires
        0 < levels.len() < u32::MAX,
    ensures
        ({
            let result = conclusion(run(initial_state(config, noise), levels));
            &&& result.total_frames == levels.len()
            &&& result.average_rms == level_sum(levels) / levels.len()
            &&& result.voiced_frames <= levels.len()
        }),
{
    let m = levels.len() as int;
    lemma_sum_so_far(config, noise, levels);
    lemma_frames_counted(config, noise, levels, m);
    assert(levels.take(m) =~= levels);
    law_every_state_is_in_order(config, noise, levels);
    let sum = level_sum(levels);
    assert(sum / levels.len() <= 65_535) by (nonlinear_arith)
        requires
            sum <= 65_535 * levels.len(),
            levels.len() > 0,
    ;
}

proof fn lemma_sum_so_far(config: VadConfig, noise: Option<u16>, levels: Seq<u16>)
    requires
        levels.len() < u32::MAX,
    ensures
        run(initial_state(config, noise), levels).rms_sum == level_sum(levels),
        level_sum(levels) <= 65_535 * levels.len(),
    decreases levels.len(),
{
    if levels.len() > 0 {
        lemma_sum_so_far(config, noise, levels.drop_last());
    }
}

/// Trimming cuts at frames of 640 bytes, within the recording.
pub proof fn law_trim_cuts_at_frames(result: VadResult, length: nat)
    ensures
        match kept_range(result, length) {
            Some((start, end)) => {
                &&& result.trim_start_frame is Some && result.trim_end_frame is Some
                &&& start < end <= length
                &&& start == 640 * result.trim_start_frame->0
                &&& end == 640 * result.trim_end_frame->0 || (end == length && length < 640
                    * result.trim_end_frame->0)
            },
            None => result.trim_start_frame is None || result.trim_end_frame is None
                || result.trim_start_frame->0 >= result.trim_end_frame->0 || 640
                * result.trim_start_frame->0 >= length,
        },
{
}

/// A recording has a frame for every 640 bytes, and one for the rest where that holds a sample; each
/// has the level of its own bytes.
pub proof fn law_recording_is_cut_into_frames(pcm: Seq<u8>, i: int)
    requires
        0 <= i < levels_of(pcm).len(),
    ensures
        levels_of(pcm).len() == (pcm.len() + 638) / 640,
        640 * i + 2 <= pcm.len(),
        levels_of(pcm)[i] == rms_of(
            pcm.subrange(
                640 * i,
                if 640 * i + 640 <= pcm.len() {
                    640 * i + 640
                } else {
                    pcm.len() as int
                },
            ),
        ) as u16,
{
}

} // verus!
