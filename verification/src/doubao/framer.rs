//! Exact 20 ms frames out of PCM chunks of any size.

use vstd::prelude::*;
use vstd::slice::{slice_subrange, slice_to_vec};

verus! {

/// The bytes of one 20 ms frame of 16 kHz mono signed 16-bit PCM.
pub const PCM_FRAME_BYTES: usize = 640;

/// Collects arbitrarily sized PCM chunks into exact 20 ms frames. A final partial frame is
/// zero-padded explicitly rather than silently dropped.
#[derive(Debug)]
pub struct Pcm20msFramer {
    pending: Vec<u8>,
}

impl Default for Pcm20msFramer {
    fn default() -> (framer: Self)
        ensures
            framer@.len() == 0,
    {
        Pcm20msFramer { pending: Vec::new() }
    }
}

/// Frame `i` of a stream of bytes.
pub open spec fn stream_frame(stream: Seq<u8>, i: int) -> Seq<u8> {
    stream.subrange(640 * i, 640 * (i + 1))
}

/// A chunk behind the bytes that wait gives every frame that is complete, and leaves the rest.
pub open spec fn pushes(
    before: Seq<u8>,
    chunk: Seq<u8>,
    frames: Seq<[u8; 640]>,
    after: Seq<u8>,
) -> bool {
    let stream = before + chunk;
    &&& frames.len() == stream.len() / 640
    &&& forall|i: int|
        0 <= i < frames.len() ==> (#[trigger] frames[i])@ == stream_frame(stream, i)
    &&& after == stream.skip((640 * frames.len()) as int)
    &&& after.len() < 640
}

/// The bytes followed by zeros up to a whole frame.
pub open spec fn padded(bytes: Seq<u8>) -> Seq<u8> {
    Seq::new(640, |i: int| if i < bytes.len() { bytes[i] } else { 0u8 })
}

fn copy_frame(bytes: &[u8]) -> (frame: [u8; 640])
    requires
        bytes@.len() <= 640,
    ensures
        frame@ == padded(bytes@),
{
    let mut frame: [u8; 640] = [0u8; 640];
    for i in 0..bytes.len()
        invariant
            bytes@.len() <= 640,
            frame@.len() == 640,
            forall|j: int| 0 <= j < i ==> frame@[j] == bytes@[j],
            forall|j: int| i <= j < 640 ==> frame@[j] == 0,
    {
        frame[i] = bytes[i];
    }
    assert(frame@ =~= padded(bytes@));
    frame
}

impl Pcm20msFramer {
    #[verifier::type_invariant]
    spec fn less_than_a_frame(self) -> bool {
        self.pending@.len() < 640
    }

    /// The bytes that wait for the rest of their frame.
    pub closed spec fn view(&self) -> Seq<u8> {
        self.pending@
    }

    /// Takes in a chunk and hands out every frame that is complete.
    pub fn push(&mut self, pcm: &[u8]) -> (frames: Vec<[u8; 640]>)
        ensures
            pushes(old(self)@, pcm@, frames@, final(self)@),
    {
        proof {
            use_type_invariant(&*self);
        }
        let ghost stream = self@ + pcm@;
        let mut frames: Vec<[u8; 640]> = Vec::new();
        let total: usize = pcm.len();
        let waiting: usize = self.pending.len();
        let missing: usize = 640 - waiting;
        if total < missing {
            let mut bytes: Vec<u8> = Vec::new();
            std::mem::swap(&mut bytes, &mut self.pending);
            bytes.extend_from_slice(pcm);
            assert(bytes@ =~= stream.skip(0));
            self.pending = bytes;
            return frames;
        }
        let mut first: Vec<u8> = Vec::new();
        std::mem::swap(&mut first, &mut self.pending);
        first.extend_from_slice(slice_subrange(pcm, 0, missing));
        let frame = copy_frame(&first);
        assert(frame@ =~= stream_frame(stream, 0));
        frames.push(frame);
        let mut start: usize = missing;
        while total - start >= 640
            invariant
                total == pcm@.len(),
                start <= total,
                stream.len() == waiting + total,
                forall|k: int| 0 <= k < total ==> stream[waiting + k] == #[trigger] pcm@[k],
                waiting + start == 640 * frames@.len(),
                forall|i: int|
                    0 <= i < frames@.len() ==> (#[trigger] frames@[i])@ == stream_frame(stream, i),
            decreases total - start,
        {
            let frame = copy_frame(slice_subrange(pcm, start, start + 640));
            assert(frame@ =~= stream_frame(stream, frames@.len() as int)) by {
                assert forall|k: int| 0 <= k < 640 implies frame@[k] == stream[waiting + start
                    + k] by {
                    assert(stream[waiting + (start + k)] == pcm@[start + k]);
                }
            }
            frames.push(frame);
            start = start + 640;
        }
        let rest = slice_to_vec(slice_subrange(pcm, start, total));
        assert(rest@ =~= stream.skip((640 * frames@.len()) as int)) by {
            assert forall|k: int| 0 <= k < total - start implies rest@[k] == stream[waiting + start
                + k] by {
                assert(stream[waiting + (start + k)] == pcm@[start + k]);
            }
        }
        self.pending = rest;
        frames
    }

    /// Hands out what waits as a last frame padded with zeros, if anything waits.
    pub fn finish_padded(&mut self) -> (r: Option<[u8; 640]>)
        ensures
            match r {
                Some(frame) => old(self)@.len() > 0 && frame@ == padded(old(self)@),
                None => old(self)@.len() == 0,
            },
            final(self)@.len() == 0,
    {
        proof {
            use_type_invariant(&*self);
        }
        if self.pending.len() == 0 {
            return None;
        }
        let frame = copy_frame(&self.pending);
        self.pending = Vec::new();
        Some(frame)
    }

    pub fn pending_bytes(&self) -> (r: usize)
        ensures
            r == self@.len(),
    {
        self.pending.len()
    }
}

/// The bytes of the frames one after the other.
pub open spec fn joined(frames: Seq<[u8; 640]>) -> Seq<u8>
    decreases frames.len(),
{
    if frames.len() == 0 {
        Seq::empty()
    } else {
        joined(frames.drop_last()) + frames.last()@
    }
}

/// No byte of a chunk is lost, repeated or moved: the frames handed out and what waits are the
/// stream.
pub proof fn law_frames_hold_the_stream(
    stream: Seq<u8>,
    frames: Seq<[u8; 640]>,
    waiting: Seq<u8>,
)
    requires
        frames.len() == stream.len() / 640,
        forall|i: int|
            0 <= i < frames.len() ==> (#[trigger] frames[i])@ == stream_frame(stream, i),
        waiting == stream.skip((640 * frames.len()) as int),
    ensures
        joined(frames) + waiting == stream,
{
    lemma_joined(stream, frames, frames.len() as int);
    assert(frames.take(frames.len() as int) =~= frames);
    assert(stream.take((640 * frames.len()) as int) + stream.skip((640 * frames.len()) as int) =~= stream);
}

/// Some sequences one after the other.
pub open spec fn together<T>(parts: Seq<Seq<T>>) -> Seq<T>
    decreases parts.len(),
{
    if parts.len() == 0 {
        Seq::empty()
    } else {
        together(parts.drop_last()) + parts.last()
    }
}

proof fn lemma_joined_parts(a: Seq<[u8; 640]>, b: Seq<[u8; 640]>)
    ensures
        joined(a + b) == joined(a) + joined(b),
    decreases b.len(),
{
    if b.len() == 0 {
        assert(a + b =~= a);
        assert(joined(a) + joined(b) =~= joined(a));
    } else {
        lemma_joined_parts(a, b.drop_last());
        assert((a + b).drop_last() =~= a + b.drop_last());
        assert((a + b).last() == b.last());
        assert(joined(a + b) =~= joined(a) + joined(b));
    }
}

proof fn lemma_joined_length(frames: Seq<[u8; 640]>)
    ensures
        joined(frames).len() == 640 * frames.len(),
    decreases frames.len(),
{
    if frames.len() > 0 {
        lemma_joined_length(frames.drop_last());
    }
}

/// However a stream is cut into chunks, the frames handed out for them are its first whole frames
/// and the rest waits: no byte is lost, repeated or moved. `waiting[i]` is what waits before chunk
/// `i`, and `given[i]` what is handed out for it.
pub proof fn law_frames_do_not_depend_on_the_chunks(
    chunks: Seq<Seq<u8>>,
    given: Seq<Seq<[u8; 640]>>,
    waiting: Seq<Seq<u8>>,
)
    requires
        given.len() == chunks.len(),
        waiting.len() == chunks.len() + 1,
        waiting[0].len() == 0,
        forall|i: int|
            0 <= i < chunks.len() ==> pushes(
                #[trigger] waiting[i],
                chunks[i],
                given[i],
                waiting[i + 1],
            ),
    ensures
        ({
            let stream = together(chunks);
            let whole = (stream.len() / 640 * 640) as int;
            &&& joined(together(given)) == stream.take(whole)
            &&& waiting.last() == stream.skip(whole)
            &&& waiting.last().len() == stream.len() % 640
        }),
{
    let n = chunks.len() as int;
    lemma_chunks(chunks, given, waiting, n);
    assert(chunks.take(n) =~= chunks);
    assert(given.take(n) =~= given);
    let stream = together(chunks);
    let frames = together(given);
    lemma_joined_length(frames);
    assert(waiting[n].len() < 640) by {
        if n > 0 {
            assert(pushes(waiting[n - 1], chunks[n - 1], given[n - 1], waiting[n - 1 + 1]));
        }
    }
    let whole = (stream.len() / 640 * 640) as int;
    assert(joined(frames).len() == whole);
    assert(stream.take(whole) =~= joined(frames));
    assert(stream.skip(whole) =~= waiting[n]);
}

proof fn lemma_chunks(
    chunks: Seq<Seq<u8>>,
    given: Seq<Seq<[u8; 640]>>,
    waiting: Seq<Seq<u8>>,
    n: int,
)
    requires
        0 <= n <= chunks.len(),
        given.len() == chunks.len(),
        waiting.len() == chunks.len() + 1,
        waiting[0].len() == 0,
        forall|i: int|
            0 <= i < chunks.len() ==> pushes(
                #[trigger] waiting[i],
                chunks[i],
                given[i],
                waiting[i + 1],
            ),
    ensures
        joined(together(given.take(n))) + waiting[n] == together(chunks.take(n)),
    decreases n,
{
    if n == 0 {
        assert(joined(together(given.take(0))) + waiting[0] =~= together(chunks.take(0)));
    } else {
        let i = n - 1;
        lemma_chunks(chunks, given, waiting, i);
        assert(pushes(waiting[i], chunks[i], given[i], waiting[i + 1]));
        law_frames_hold_the_stream(waiting[i] + chunks[i], given[i], waiting[n]);
        assert(given.take(n).drop_last() =~= given.take(i));
        assert(chunks.take(n).drop_last() =~= chunks.take(i));
        let before = together(given.take(i));
        lemma_joined_parts(before, given[i]);
        assert(joined(before) + joined(given[i]) + waiting[n] =~= joined(before) + (joined(given[i])
            + waiting[n]));
        assert(joined(before) + (waiting[i] + chunks[i]) =~= joined(before) + waiting[i]
            + chunks[i]);
    }
}

proof fn lemma_joined(stream: Seq<u8>, frames: Seq<[u8; 640]>, n: int)
    requires
        0 <= n <= frames.len(),
        640 * frames.len() <= stream.len(),
        forall|i: int|
            0 <= i < frames.len() ==> (#[trigger] frames[i])@ == stream_frame(stream, i),
    ensures
        joined(frames.take(n)) == stream.take(640 * n),
    decreases n,
{
    if n == 0 {
        assert(stream.take(0) =~= Seq::<u8>::empty());
    } else {
        lemma_joined(stream, frames, n - 1);
        assert(frames.take(n).drop_last() =~= frames.take(n - 1));
        assert(frames.take(n).last() == frames[n - 1]);
        assert(stream.take(640 * (n - 1)) + stream_frame(stream, n - 1) =~= stream.take(640 * n));
    }
}

} // verus!
