//! Provider-neutral audio types.

use vstd::prelude::*;

verus! {

/// Audio sample representation at an adapter boundary.
#[derive(Clone, Copy, Debug, Eq, PartialEq, Structural)]
pub enum SampleFormat {
    I16Le,
    F32Le,
}

/// Format of one stream of audio chunks.
#[derive(Clone, Copy, Debug, Eq, PartialEq, Structural)]
pub struct AudioFormat {
    pub sample_rate_hz: u32,
    pub channels: u16,
    pub sample_format: SampleFormat,
}

impl AudioFormat {
    /// Signed 16-bit samples of one channel at 16 kHz.
    pub fn pcm_16khz_mono() -> (format: Self)
        ensures
            format.sample_rate_hz == 16_000,
            format.channels == 1,
            format.sample_format == SampleFormat::I16Le,
    {
        AudioFormat { sample_rate_hz: 16_000, channels: 1, sample_format: SampleFormat::I16Le }
    }
}

/// Owned audio passed between bounded queues.
#[derive(Clone, Debug, Eq, PartialEq)]
pub struct AudioChunk {
    pub sequence: u64,
    pub captured_at_micros: u64,
    pub format: AudioFormat,
    pub samples: Vec<u8>,
}

/// The bytes that one sample takes.
pub open spec fn sample_bytes(format: SampleFormat) -> nat {
    match format {
        SampleFormat::I16Le => 2,
        SampleFormat::F32Le => 4,
    }
}

/// The playing time of `bytes` bytes in whole microseconds, rounded down, of the whole
/// frames among them; none where the rate is zero or the product does not fit 64 bits.
pub open spec fn playing_micros(format: AudioFormat, bytes: nat) -> Option<nat> {
    let frames = bytes / (sample_bytes(format.sample_format) * format.channels as nat);
    if frames * 1_000_000 > u64::MAX || format.sample_rate_hz == 0 {
        None
    } else {
        Some(frames * 1_000_000 / format.sample_rate_hz as nat)
    }
}

impl AudioChunk {
    /// The playing time of the chunk.
    pub fn duration_micros(&self) -> (r: Option<u64>)
        requires
            self.format.channels > 0,
        ensures
            match r {
                Some(micros) => playing_micros(self.format, self.samples@.len()) == Some(
                    micros as nat,
                ),
                None => playing_micros(self.format, self.samples@.len()) is None,
            },
    {
        let bytes_per_sample: u64 = match self.format.sample_format {
            SampleFormat::I16Le => 2,
            SampleFormat::F32Le => 4,
        };
        let channels: u64 = self.format.channels as u64;
        assert(0 < bytes_per_sample * channels <= 4 * 0xFFFF) by (nonlinear_arith)
            requires
                0 < bytes_per_sample <= 4,
                0 < channels <= 0xFFFF,
        ;
        let bytes_per_frame: u64 = bytes_per_sample * channels;
        let frames: u64 = self.samples.len() as u64 / bytes_per_frame;
        match frames.checked_mul(1_000_000) {
            None => None,
            Some(scaled) => {
                if self.format.sample_rate_hz == 0 {
                    None
                } else {
                    Some(scaled / self.format.sample_rate_hz as u64)
                }
            },
        }
    }
}

/// A recording plays for as many microseconds as its whole frames take at its rate: never longer, and
/// by less than one microsecond shorter.
pub proof fn law_playing_time_is_exact(format: AudioFormat, frames: nat)
    requires
        format.sample_rate_hz > 0,
        format.channels > 0,
        frames * 1_000_000 <= u64::MAX,
    ensures
        ({
            let width: nat = match format.sample_format {
                SampleFormat::I16Le => 2,
                SampleFormat::F32Le => 4,
            };
            let played = playing_micros(format, frames * (width * format.channels as nat));
            &&& played is Some
            &&& played->0 * format.sample_rate_hz <= frames * 1_000_000 < (played->0 + 1)
                * format.sample_rate_hz
        }),
{
    let width = sample_bytes(format.sample_format);
    let block = width * format.channels as nat;
    let rate = format.sample_rate_hz as nat;
    assert(block > 0) by (nonlinear_arith)
        requires
            block == width * format.channels as nat,
            width > 0,
            format.channels > 0,
    ;
    assert((frames * block) / block == frames) by (nonlinear_arith)
        requires
            block > 0,
    ;
    let total = frames * 1_000_000;
    assert(total / rate * rate <= total < (total / rate + 1) * rate) by (nonlinear_arith)
        requires
            rate > 0,
            total >= 0,
    ;
}

} // verus!
