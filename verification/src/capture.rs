//! Audio capture: the command that records, and what is measured of the frames it delivers.

use crate::doubao::framer::{stream_frame, Pcm20msFramer};
use crate::error::{ErrorCategory, VoxError};
use crate::level::{
    clipped_of, energy, min_nat, peak_of, root_mean_square, root_of, sample_count, sum_frame,
};
use crate::ports::CaptureFrameMetrics;
use crate::text::{
    begins, decimal, ends, ends_with, join2, join3, owned, starts_with, texts, trim, trimmed,
    write_number, write_wide_number,
};
use vstd::prelude::*;
use vstd::string::*;

verus! {

/// A sample of this magnitude counts as clipped.
pub const CLIPPED_MAGNITUDE: u16 = 32_735;

/// Bounded, content-free metrics for one 20 ms PCM frame.
#[derive(Clone, Copy, Debug, Eq, PartialEq, Structural)]
pub struct AudioFrameMetrics {
    pub frame: u64,
    pub rms: u16,
    pub peak: u16,
    pub clipped_samples: u16,
    pub samples: u16,
}

/// A finished recording.
#[derive(Clone, Debug, Eq, PartialEq)]
pub struct RecordingResult {
    pub path: String,
    pub bytes: u64,
    pub duration_millis: u64,
    pub backend: &'static str,
}

pub open spec fn as_u16(n: nat) -> u16 {
    if n > u16::MAX {
        u16::MAX
    } else {
        n as u16
    }
}

/// What is measured of the frame with the number `frame`.
pub open spec fn metrics_of(frame: u64, pcm: Seq<u8>) -> AudioFrameMetrics {
    let n = sample_count(pcm.len());
    let samples = as_u16(n);
    let mean = min_nat(energy(pcm, n), u64::MAX as nat) / (samples as nat);
    AudioFrameMetrics {
        frame,
        rms: if samples == 0 || root_of(mean) > u16::MAX {
            0
        } else {
            root_of(mean) as u16
        },
        peak: peak_of(pcm, n) as u16,
        clipped_samples: as_u16(clipped_of(pcm, n, CLIPPED_MAGNITUDE as nat)),
        samples,
    }
}

fn to_u16(n: u64) -> (r: u16)
    ensures
        r == as_u16(n as nat),
{
    if n > 65_535 {
        65_535
    } else {
        n as u16
    }
}

pub fn frame_metrics(frame: u64, pcm: &[u8]) -> (metrics: AudioFrameMetrics)
    ensures
        metrics == metrics_of(frame, pcm@),
{
    let sum = sum_frame(pcm, CLIPPED_MAGNITUDE);
    let samples: u16 = to_u16(sum.samples);
    AudioFrameMetrics {
        frame,
        rms: root_mean_square(sum.energy, samples as u64),
        peak: sum.peak,
        clipped_samples: to_u16(sum.clipped),
        samples,
    }
}

impl AudioFrameMetrics {
    /// The same as the metrics of the capture port.
    pub fn to_capture(&self) -> (r: CaptureFrameMetrics)
        ensures
            r.frame == self.frame,
            r.rms == self.rms,
            r.peak == self.peak,
            r.clipped_samples == self.clipped_samples,
            r.samples == self.samples,
    {
        CaptureFrameMetrics {
            frame: self.frame,
            rms: self.rms,
            peak: self.peak,
            clipped_samples: self.clipped_samples,
            samples: self.samples,
        }
    }
}

/// Measures the frames of a stream that arrives in chunks of any size.
#[derive(Debug)]
pub struct CaptureMeter {
    framer: Pcm20msFramer,
    frame: u64,
    written: u64,
}

/// What a meter knows of its stream.
pub struct MeterModel {
    /// The bytes that wait for the rest of their frame.
    pub pending: Seq<u8>,
    /// The number of the next frame.
    pub frame: u64,
    /// The bytes that were taken in.
    pub written: u64,
}

pub open spec fn counted_up(n: u64, by: nat) -> u64 {
    if n + by > u64::MAX {
        u64::MAX
    } else {
        (n + by) as u64
    }
}

impl CaptureMeter {
    pub closed spec fn view(&self) -> MeterModel {
        MeterModel { pending: self.framer@, frame: self.frame, written: self.written }
    }

    pub fn new() -> (meter: Self)
        ensures
            meter@.pending.len() == 0,
            meter@.frame == 0,
            meter@.written == 0,
    {
        CaptureMeter { framer: Pcm20msFramer::default(), frame: 0, written: 0 }
    }

    /// Takes in a chunk and measures every frame that is complete.
    pub fn take(&mut self, chunk: &[u8]) -> (metrics: Vec<AudioFrameMetrics>)
        requires
            old(self)@.pending.len() + chunk@.len() <= usize::MAX,
        ensures
            ({
                let stream = old(self)@.pending + chunk@;
                &&& metrics@.len() == stream.len() / 640
                &&& forall|i: int|
                    0 <= i < metrics@.len() ==> #[trigger] metrics@[i] == metrics_of(
                        counted_up(old(self)@.frame, i as nat),
                        stream_frame(stream, i),
                    )
                &&& final(self)@.pending == stream.skip((640 * metrics@.len()) as int)
                &&& final(self)@.frame == counted_up(old(self)@.frame, metrics@.len())
                &&& final(self)@.written == counted_up(old(self)@.written, chunk@.len())
            }),
    {
        let ghost stream = self@.pending + chunk@;
        let ghost first = self.frame;
        let frames = self.framer.push(chunk);
        let ghost rest = self.framer@;
        self.written = self.written.saturating_add(chunk.len() as u64);
        let mut metrics: Vec<AudioFrameMetrics> = Vec::new();
        for i in 0..frames.len()
            invariant
                frames@.len() == stream.len() / 640,
                forall|k: int|
                    0 <= k < frames@.len() ==> (#[trigger] frames@[k])@ == stream_frame(stream, k),
                metrics@.len() == i,
                forall|k: int|
                    0 <= k < i ==> #[trigger] metrics@[k] == metrics_of(
                        counted_up(first, k as nat),
                        stream_frame(stream, k),
                    ),
                self.frame == counted_up(first, i as nat),
                self.framer@ == rest,
                self.written == counted_up(old(self)@.written, chunk@.len()),
        {
            metrics.push(frame_metrics(self.frame, &frames[i]));
            self.frame = self.frame.saturating_add(1);
        }
        metrics
    }

    pub fn written(&self) -> (r: u64)
        ensures
            r == self@.written,
    {
        self.written
    }
}

/// The milliseconds of 16 kHz mono 16-bit PCM in so many bytes.
pub open spec fn recorded_millis(bytes: u64) -> u64 {
    if bytes * 1_000 > u64::MAX {
        u64::MAX / 32_000
    } else {
        (bytes * 1_000 / 32_000) as u64
    }
}

pub fn duration_millis(bytes: u64) -> (r: u64)
    ensures
        r == recorded_millis(bytes),
{
    if bytes > u64::MAX / 1_000 {
        u64::MAX / 32_000
    } else {
        bytes * 1_000 / 32_000
    }
}

/// The device that was asked for, unless it is blank.
pub open spec fn chosen_device(device: Option<Seq<char>>) -> Option<Seq<char>> {
    match device {
        Some(device) => if trimmed(device).len() > 0 {
            Some(trimmed(device))
        } else {
            None
        },
        None => None,
    }
}

pub open spec fn opt_str(text: Option<&str>) -> Option<Seq<char>> {
    match text {
        Some(text) => Some(text@),
        None => None,
    }
}

pub fn configured_device(device: Option<&str>) -> (r: Option<&str>)
    ensures
        opt_str(r) == chosen_device(opt_str(device)),
{
    match device {
        Some(device) => {
            let name = trim(device);
            if name.unicode_len() > 0 {
                Some(name)
            } else {
                None
            }
        },
        None => None,
    }
}

/// The arguments of `pw-record`: it takes its target before the path, which is standard output.
pub open spec fn pipewire_arguments(device: Option<Seq<char>>) -> Seq<Seq<char>> {
    let settings = seq![
        "--raw"@,
        "--format=s16"@,
        "--rate=16000"@,
        "--channels=1"@,
        "--media-category=Capture"@,
        "--media-role=Communication"@,
        "--latency=20ms"@,
    ];
    let target = match chosen_device(device) {
        Some(device) => seq!["--target"@, device],
        None => Seq::empty(),
    };
    settings + target + seq!["-"@]
}

pub fn pipewire_command(device: Option<&str>) -> (arguments: Vec<String>)
    ensures
        texts(arguments@) == pipewire_arguments(opt_str(device)),
{
    let mut arguments: Vec<String> = Vec::new();
    arguments.push(owned("--raw"));
    arguments.push(owned("--format=s16"));
    arguments.push(owned("--rate=16000"));
    arguments.push(owned("--channels=1"));
    arguments.push(owned("--media-category=Capture"));
    arguments.push(owned("--media-role=Communication"));
    arguments.push(owned("--latency=20ms"));
    match configured_device(device) {
        Some(device) => {
            arguments.push(owned("--target"));
            arguments.push(owned(device));
        },
        None => {},
    }
    arguments.push(owned("-"));
    assert(texts(arguments@) =~= pipewire_arguments(opt_str(device)));
    arguments
}

/// The arguments of `parec`.
pub open spec fn pulseaudio_arguments(device: Option<Seq<char>>) -> Seq<Seq<char>> {
    seq![
        "--raw"@,
        "--format=s16le"@,
        "--rate=16000"@,
        "--channels=1"@,
        "--latency-msec=20"@,
        "--process-time-msec=20"@,
        "--device="@ + (match chosen_device(device) {
            Some(device) => device,
            None => "@DEFAULT_SOURCE@"@,
        }),
    ]
}

pub fn pulseaudio_command(device: Option<&str>) -> (arguments: Vec<String>)
    ensures
        texts(arguments@) == pulseaudio_arguments(opt_str(device)),
{
    let mut arguments: Vec<String> = Vec::new();
    arguments.push(owned("--raw"));
    arguments.push(owned("--format=s16le"));
    arguments.push(owned("--rate=16000"));
    arguments.push(owned("--channels=1"));
    arguments.push(owned("--latency-msec=20"));
    arguments.push(owned("--process-time-msec=20"));
    let source = match configured_device(device) {
        Some(device) => device,
        None => "@DEFAULT_SOURCE@",
    };
    arguments.push(join2("--device=", source));
    assert(texts(arguments@) =~= pulseaudio_arguments(opt_str(device)));
    arguments
}

/// The program that records and its arguments; `pw-record` is taken where there is one.
pub fn capture_command(has_pipewire: bool, device: Option<&str>) -> (r: (&'static str, Vec<String>))
    ensures
        r.0@ == (if has_pipewire {
            "pw-record"@
        } else {
            "parec"@
        }),
        texts(r.1@) == (if has_pipewire {
            pipewire_arguments(opt_str(device))
        } else {
            pulseaudio_arguments(opt_str(device))
        }),
{
    if has_pipewire {
        return ("pw-record", pipewire_command(device));
    }
    ("parec", pulseaudio_command(device))
}

/// The name of the file that a process records to.
pub fn recording_name(process: u32, timestamp_millis: u128) -> (r: String)
    ensures
        r@ == "recording-"@ + decimal(process as nat) + "-"@ + decimal(timestamp_millis as nat)
            + ".pcm"@,
{
    let process = write_number(process as u64);
    let stamp = write_wide_number(timestamp_millis);
    let mut name = join3("recording-", process.as_str(), "-");
    name.append(stamp.as_str());
    name.append(".pcm");
    name
}

/// A file that a recording may have been left in.
pub open spec fn recording_file(name: Seq<char>) -> bool {
    begins(name, "recording-"@) && ends(name, ".pcm"@)
}

pub fn is_recording_file(name: &str) -> (r: bool)
    ensures
        r == recording_file(name@),
{
    starts_with(name, "recording-") && ends_with(name, ".pcm")
}

/// Why a recording could not be started.
pub fn start_failure(reason: &str) -> (error: VoxError)
    ensures
        error.says(ErrorCategory::Unavailable, "audio.start_failed"@, reason@, false),
{
    VoxError::new(ErrorCategory::Unavailable, "audio.start_failed", reason)
}

/// Why a recording could not be stopped.
pub fn stop_failure(reason: &str) -> (error: VoxError)
    ensures
        error.says(ErrorCategory::Unavailable, "audio.stop_failed"@, reason@, false),
{
    VoxError::new(ErrorCategory::Unavailable, "audio.stop_failed", reason)
}

/// What is said of a recorder that ended right after its start.
pub fn startup_exit(backend: &str, status: &str) -> (r: String)
    ensures
        r@ == backend@ + " exited during startup with "@ + status@,
{
    join3(backend, " exited during startup with ", status)
}

/// Whatever a process records to is found again as a recording.
pub proof fn law_recordings_are_found_again(process: nat, timestamp_millis: nat)
    ensures
        recording_file(
            "recording-"@ + decimal(process) + "-"@ + decimal(timestamp_millis) + ".pcm"@,
        ),
{
    let name = "recording-"@ + decimal(process) + "-"@ + decimal(timestamp_millis) + ".pcm"@;
    assert(name.take("recording-"@.len() as int) =~= "recording-"@);
    assert(name.skip(name.len() - ".pcm"@.len()) =~= ".pcm"@);
}

/// Thirty-two bytes of a recording last a millisecond.
pub proof fn law_recording_lasts_as_it_is_long(bytes: u64)
    requires
        bytes * 1_000 <= u64::MAX,
    ensures
        recorded_millis(bytes) * 32 <= bytes < (recorded_millis(bytes) + 1) * 32,
{
}

/// The device that was asked for is handed to the recorder, without the white space around it; a blank
/// one stands for the default device. Both recorders are asked for one channel of 16 bits at 16000
/// samples a second.
pub proof fn law_recorder_gets_its_device(device: Seq<char>)
    ensures
        !crate::text::blank(device) ==> {
            &&& pipewire_arguments(Some(device)).len() == 10
            &&& pipewire_arguments(Some(device))[7] == "--target"@
            &&& pipewire_arguments(Some(device))[8] == trimmed(device)
            &&& pulseaudio_arguments(Some(device)).last() == "--device="@ + trimmed(device)
        },
        crate::text::blank(device) ==> {
            &&& pipewire_arguments(Some(device)) == pipewire_arguments(None)
            &&& pulseaudio_arguments(Some(device)) == pulseaudio_arguments(None)
        },
        pipewire_arguments(Some(device)).last() == "-"@,
        pipewire_arguments(None).len() == 8,
        pipewire_arguments(None).last() == "-"@,
        pulseaudio_arguments(None).last() == "--device="@ + "@DEFAULT_SOURCE@"@,
        pipewire_arguments(Some(device))[1] == "--format=s16"@,
        pipewire_arguments(Some(device))[2] == "--rate=16000"@,
        pipewire_arguments(Some(device))[3] == "--channels=1"@,
        pulseaudio_arguments(Some(device))[1] == "--format=s16le"@,
        pulseaudio_arguments(Some(device))[2] == "--rate=16000"@,
        pulseaudio_arguments(Some(device))[3] == "--channels=1"@,
{
    crate::text::lemma_trimmed_empty(device);
}

/// A frame is measured by its samples: their number, their greatest magnitude, how many of them are
/// clipped, and the whole root of their mean square.
pub proof fn law_frame_is_measured(frame: u64, pcm: Seq<u8>)
    requires
        2 <= pcm.len() < 131_072,
    ensures
        ({
            let n = pcm.len() / 2;
            let told = metrics_of(frame, pcm);
            &&& told.frame == frame
            &&& told.samples == n
            &&& told.peak == peak_of(pcm, n) as u16
            &&& told.clipped_samples == as_u16(clipped_of(pcm, n, 32_735))
            &&& energy(pcm, n) <= u64::MAX && root_of(energy(pcm, n) / n) <= u16::MAX ==> told.rms
                == root_of(energy(pcm, n) / n)
        }),
{
}

} // verus!
