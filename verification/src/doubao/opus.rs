//! Exact 20 ms mono 16 kHz PCM to raw Opus packets.

use crate::doubao::session::MAX_OPUS_PACKET_BYTES;
use crate::level::sample;
use vstd::prelude::*;

verus! {

pub const PCM_SAMPLES_PER_FRAME: usize = 320;

/// Why a frame was not encoded.
#[derive(Clone, Copy, Debug, Eq, PartialEq)]
pub struct OpusCodecError {
    message: &'static str,
}

impl OpusCodecError {
    pub closed spec fn view(&self) -> Seq<char> {
        self.message@
    }

    pub fn new(message: &'static str) -> (error: Self)
        ensures
            error@ == message@,
    {
        OpusCodecError { message }
    }

    pub fn message(&self) -> (r: &'static str)
        ensures
            r@ == self@,
    {
        self.message
    }
}

/// Replaceable frame encoder used by the session transport.
///
/// Keeping this boundary packet-oriented prevents container framing from leaking into the
/// WebSocket protocol.
pub trait OpusFrameEncoder {
    /// Encodes exactly one 20 ms little-endian S16 mono PCM frame.
    fn encode_20ms(&mut self, pcm: &[u8; 640]) -> Result<Vec<u8>, OpusCodecError>;
}

/// The samples of one frame.
pub fn frame_samples(pcm: &[u8; 640]) -> (samples: Vec<i16>)
    ensures
        samples@.len() == PCM_SAMPLES_PER_FRAME,
        forall|i: int| 0 <= i < 320 ==> #[trigger] samples@[i] == sample(pcm@, i),
{
    let mut samples: Vec<i16> = Vec::new();
    for i in 0..PCM_SAMPLES_PER_FRAME
        invariant
            samples@.len() == i,
            forall|j: int| 0 <= j < i ==> #[trigger] samples@[j] == sample(pcm@, j),
    {
        let raw: i32 = pcm[2 * i] as i32 + 256 * pcm[2 * i + 1] as i32;
        let value: i32 = if raw >= 32_768 {
            raw - 65_536
        } else {
            raw
        };
        samples.push(value as i16);
    }
    samples
}

/// A packet has one to 1275 bytes.
pub open spec fn proper_packet_size(bytes: nat) -> bool {
    0 < bytes <= MAX_OPUS_PACKET_BYTES
}

/// The packet that an encoder wrote to the beginning of `buffer`.
pub fn finish_packet(buffer: Vec<u8>, encoded: usize) -> (r: Result<Vec<u8>, OpusCodecError>)
    requires
        buffer@.len() >= MAX_OPUS_PACKET_BYTES,
    ensures
        match r {
            Ok(packet) => proper_packet_size(encoded as nat) && packet@ == buffer@.take(
                encoded as int,
            ),
            Err(error) => !proper_packet_size(encoded as nat) && error@
                == "Opus encoder returned an invalid packet size"@,
        },
{
    if encoded == 0 || encoded > MAX_OPUS_PACKET_BYTES {
        return Err(OpusCodecError::new("Opus encoder returned an invalid packet size"));
    }
    let mut packet = buffer;
    packet.truncate(encoded);
    assert(packet@ =~= buffer@.take(encoded as int));
    Ok(packet)
}

} // verus!
