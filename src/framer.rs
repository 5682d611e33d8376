//! Cutting a captured byte stream into fixed-length network frames.

use vstd::prelude::*;

verus! {

/// 20 ms of 16-bit mono PCM at 16 kHz: 320 samples of two bytes.
pub const AUDIO_FRAME_SIZE: usize = 640;

pub open spec fn frame_bytes(frames: Seq<Vec<u8>>) -> Seq<Seq<u8>> {
    frames.map_values(|f: Vec<u8>| f@)
}

/// Accumulates captured bytes and hands them out as whole frames; a partial
/// tail is carried over to the next frame.
pub struct AudioFramer {
    buffer: Vec<u8>,
}

impl AudioFramer {
    /// The bytes held back for the next frame.
    pub closed spec fn buffered(&self) -> Seq<u8> {
        self.buffer@
    }

    pub open spec fn wf(&self) -> bool {
        self.buffered().len() < AUDIO_FRAME_SIZE
    }

    pub fn new() -> (r: Self)
        ensures
            r.wf(),
            r.buffered() == Seq::<u8>::empty(),
    {
        AudioFramer { buffer: Vec::new() }
    }

    /// Number of bytes held back.
    pub fn buffered_len(&self) -> (r: usize)
        ensures
            r == self.buffered().len(),
    {
        self.buffer.len()
    }

    /// Appends `bytes` and returns every whole frame that is now complete,
    /// in order.
    pub fn push(&mut self, bytes: &[u8]) -> (frames: Vec<Vec<u8>>)
        requires
            old(self).wf(),
        ensures
            final(self).wf(),
            forall|i: int| 0 <= i < frames@.len() ==> (#[trigger] frames@[i])@.len() == AUDIO_FRAME_SIZE,
            old(self).buffered() + bytes@ == frame_bytes(frames@).flatten() + final(self).buffered(),
    {
        let mut frames: Vec<Vec<u8>> = Vec::new();
        let mut pos: usize = 0;
        while pos < bytes.len()
            invariant
                pos <= bytes@.len(),
                self.wf(),
                forall|i: int| 0 <= i < frames@.len() ==> (#[trigger] frames@[i])@.len() == AUDIO_FRAME_SIZE,
                old(self).buffered() + bytes@.take(pos as int) == frame_bytes(frames@).flatten()
                    + self.buffered(),
            decreases bytes@.len() - pos,
        {
            let ghost fb = frame_bytes(frames@);
            assert(bytes@.take(pos + 1) =~= bytes@.take(pos as int).push(bytes@[pos as int]));
            let ghost prev = self.buffer@;
            self.buffer.push(bytes[pos]);
            pos += 1;
            assert(old(self).buffered() + bytes@.take(pos as int) =~= (old(self).buffered()
                + bytes@.take(pos - 1)).push(bytes@[pos - 1]));
            assert((fb.flatten() + prev).push(bytes@[pos - 1]) =~= fb.flatten() + self.buffered());
            if self.buffer.len() == AUDIO_FRAME_SIZE {
                let mut frame: Vec<u8> = Vec::new();
                std::mem::swap(&mut self.buffer, &mut frame);
                frames.push(frame);
                proof {
                    assert(frame_bytes(frames@) =~= fb.push(frame@));
                    fb.lemma_flatten_push(frame@);
                    assert(fb.flatten() + frame@ =~= fb.flatten() + frame@ + self.buffered());
                }
            }
        }
        assert(bytes@.take(pos as int) =~= bytes@);
        frames
    }

    /// Hands out what is held back, a short final frame, if anything is.
    pub fn flush(&mut self) -> (r: Option<Vec<u8>>)
        ensures
            final(self).wf(),
            final(self).buffered() == Seq::<u8>::empty(),
            old(self).buffered().len() == 0 ==> r is None,
            old(self).buffered().len() > 0 ==> r is Some && r->Some_0@ == old(self).buffered(),
    {
        let mut rest: Vec<u8> = Vec::new();
        std::mem::swap(&mut self.buffer, &mut rest);
        if rest.len() > 0 {
            Some(rest)
        } else {
            None
        }
    }
}


pub open spec fn byte_chunks(v: Seq<Vec<u8>>) -> Seq<Seq<u8>> {
    v.map_values(|b: Vec<u8>| b@)
}

/// Frame fidelity over a whole capture session: the bytes of every buffer in
/// `captured`, in order, cut into frames and flushed at the end. Every frame
/// but the last has exactly the fixed length, the last is not empty and at
/// most that long, and the frames concatenate to the captured stream.
pub fn frame_stream(captured: &Vec<Vec<u8>>) -> (frames: Vec<Vec<u8>>)
    ensures
        forall|i: int|
            0 <= i < frames@.len() - 1 ==> (#[trigger] frames@[i])@.len() == AUDIO_FRAME_SIZE,
        frames@.len() > 0 ==> 0 < frames@.last()@.len() <= AUDIO_FRAME_SIZE,
        frame_bytes(frames@).flatten() == byte_chunks(captured@).flatten(),
{
    let ghost cs = byte_chunks(captured@);
    let mut framer = AudioFramer::new();
    let mut frames: Vec<Vec<u8>> = Vec::new();
    let mut i: usize = 0;
    while i < captured.len()
        invariant
            cs == byte_chunks(captured@),
            i <= captured@.len(),
            framer.wf(),
            forall|k: int| 0 <= k < frames@.len() ==> (#[trigger] frames@[k])@.len() == AUDIO_FRAME_SIZE,
            cs.take(i as int).flatten() == frame_bytes(frames@).flatten() + framer.buffered(),
        decreases captured@.len() - i,
    {
        let ghost fb = frame_bytes(frames@);
        let ghost buf = framer.buffered();
        let mut out = framer.push(captured[i].as_slice());
        let ghost ob = frame_bytes(out@);
        proof {
            assert(cs[i as int] == captured@[i as int]@);
            assert(cs.take(i + 1) =~= cs.take(i as int).push(cs[i as int]));
            cs.take(i as int).lemma_flatten_push(cs[i as int]);
            lemma_flatten_append(fb, ob);
            assert(fb + ob =~= frame_bytes(frames@ + out@));
            assert(fb.flatten() + buf + cs[i as int] =~= fb.flatten() + (buf + cs[i as int]));
            assert(fb.flatten() + (ob.flatten() + framer.buffered()) =~= (fb.flatten()
                + ob.flatten()) + framer.buffered());
        }
        frames.append(&mut out);
        i += 1;
    }
    proof {
        assert(cs.take(i as int) =~= cs);
    }
    let ghost fb = frame_bytes(frames@);
    let last = framer.flush();
    match last {
        Some(f) => {
            frames.push(f);
            proof {
                assert(frame_bytes(frames@) =~= fb.push(frames@.last()@));
                fb.lemma_flatten_push(frames@.last()@);
            }
        },
        None => {
            assert(fb.flatten() + Seq::<u8>::empty() =~= fb.flatten());
        },
    }
    frames
}

proof fn lemma_flatten_append(a: Seq<Seq<u8>>, b: Seq<Seq<u8>>)
    ensures
        (a + b).flatten() == a.flatten() + b.flatten(),
    decreases b.len(),
{
    if b.len() == 0 {
        assert(a + b =~= a);
        assert(a.flatten() + b.flatten() =~= a.flatten());
    } else {
        let k = b.len() - 1;
        lemma_flatten_append(a, b.take(k));
        assert(a + b =~= (a + b.take(k)).push(b[k]));
        assert(b =~= b.take(k).push(b[k]));
        (a + b.take(k)).lemma_flatten_push(b[k]);
        b.take(k).lemma_flatten_push(b[k]);
        assert(a.flatten() + b.take(k).flatten() + b[k] =~= a.flatten() + (b.take(k).flatten()
            + b[k]));
    }
}

} // verus!
