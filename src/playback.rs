//! The playback jitter buffer: a FIFO of PCM entries drained to the output
//! device once enough audio is queued.

use vstd::prelude::*;
use std::collections::VecDeque;
use crate::pcm::{decode_pcm16, is_decoding};

verus! {

/// Entries queued before playback starts by itself.
pub const JITTER_BUFFER_FRAMES: usize = 5;

#[derive(Clone, Copy, PartialEq, Eq, Debug, Structural)]
pub enum PlaybackError {
    /// A playback session is already running.
    AlreadyActive,
    /// No usable output device, or its configuration was rejected.
    DeviceError,
}

pub open spec fn silence(n: nat) -> Seq<i16> {
    Seq::new(n, |i: int| 0i16)
}

/// One output-device callback asking for `n` samples, on the playing flag
/// and the pending samples: the new flag, the new pending samples, the
/// samples handed out, and whether this callback ended the session.
pub open spec fn fill_model(playing: bool, pending: Seq<i16>, n: nat) -> (
    bool,
    Seq<i16>,
    Seq<i16>,
    bool,
) {
    if !playing {
        (false, pending, silence(n), false)
    } else {
        let k = if pending.len() < n {
            pending.len()
        } else {
            n
        };
        let ended = pending.len() <= n;
        (!ended, pending.skip(k as int), pending.take(k as int) + silence((n - k) as nat), ended)
    }
}

/// Buffers PCM entries and drains them in order while playing.
pub struct AudioPlayback {
    queue: VecDeque<Vec<i16>>,
    pos: usize,
    playing: bool,
    completed: bool,
    threshold: usize,
}

impl AudioPlayback {
    pub closed spec fn entries(&self) -> Seq<Seq<i16>> {
        self.queue@.map_values(|e: Vec<i16>| e@)
    }

    /// The samples still to be played, in order.
    pub closed spec fn pending(&self) -> Seq<i16> {
        let es = self.entries();
        if es.len() == 0 {
            Seq::empty()
        } else {
            es[0].skip(self.pos as int) + es.drop_first().flatten()
        }
    }

    /// Number of queued entries.
    pub closed spec fn frames(&self) -> nat {
        self.queue@.len()
    }

    pub closed spec fn playing_spec(&self) -> bool {
        self.playing
    }

    pub closed spec fn completed_spec(&self) -> bool {
        self.completed
    }

    pub closed spec fn threshold_spec(&self) -> nat {
        self.threshold as nat
    }

    pub closed spec fn wf(&self) -> bool {
        &&& self.queue@.len() == 0 ==> self.pos == 0
        &&& self.queue@.len() > 0 ==> self.pos <= self.queue@[0]@.len()
        &&& self.playing ==> !self.completed
    }

    /// An idle buffer that starts playback by itself once `threshold`
    /// entries are queued.
    pub fn new(threshold: usize) -> (r: Self)
        ensures
            r.wf(),
            r.pending() == Seq::<i16>::empty(),
            r.frames() == 0,
            !r.playing_spec(),
            !r.completed_spec(),
            r.threshold_spec() == threshold,
    {
        AudioPlayback {
            queue: VecDeque::new(),
            pos: 0,
            playing: false,
            completed: false,
            threshold,
        }
    }

    pub fn is_playing(&self) -> (r: bool)
        ensures
            r == self.playing_spec(),
    {
        self.playing
    }

    /// Whether the last session ended by running out of audio.
    pub fn is_completed(&self) -> (r: bool)
        ensures
            r == self.completed_spec(),
    {
        self.completed
    }

    pub fn queued_frames(&self) -> (r: usize)
        ensures
            r == self.frames(),
    {
        self.queue.len()
    }

    /// Queues one PCM byte buffer. Returns whether playback should start now:
    /// the entry count has just reached the threshold and nothing is playing.
    pub fn queue_audio(&mut self, bytes: &[u8]) -> (start: bool)
        requires
            old(self).wf(),
        ensures
            final(self).wf(),
            exists|s: Seq<i16>|
                is_decoding(bytes@, s) && final(self).pending() == old(self).pending() + s,
            final(self).frames() == old(self).frames() + 1,
            final(self).playing_spec() == old(self).playing_spec(),
            final(self).completed_spec() == old(self).completed_spec(),
            final(self).threshold_spec() == old(self).threshold_spec(),
            start == (!old(self).playing_spec() && final(self).frames()
                == old(self).threshold_spec()),
    {
        let samples = decode_pcm16(bytes);
        let ghost s = samples@;
        let ghost es = self.entries();
        self.queue.push_back(samples);
        proof {
            assert(self.entries() =~= es.push(s));
            if es.len() > 0 {
                assert(self.entries().drop_first() =~= es.drop_first().push(s));
                es.drop_first().lemma_flatten_push(s);
                assert(self.pending() =~= old(self).pending() + s);
            } else {
                assert(self.entries().drop_first() =~= Seq::<Seq<i16>>::empty());
                assert(self.pending() =~= old(self).pending() + s);
            }
        }
        !self.playing && self.queue.len() == self.threshold
    }

    /// Starts playback once the output device is open (`device_ready`). A
    /// running session is left untouched and reported as `AlreadyActive`.
    pub fn start(&mut self, device_ready: bool) -> (r: Result<(), PlaybackError>)
        requires
            old(self).wf(),
        ensures
            final(self).wf(),
            final(self).pending() == old(self).pending(),
            final(self).frames() == old(self).frames(),
            final(self).threshold_spec() == old(self).threshold_spec(),
            old(self).playing_spec() ==> r == Err::<(), PlaybackError>(PlaybackError::AlreadyActive)
                && final(self).playing_spec() && !final(self).completed_spec(),
            !old(self).playing_spec() && !device_ready ==> r == Err::<(), PlaybackError>(
                PlaybackError::DeviceError,
            ) && !final(self).playing_spec() && final(self).completed_spec()
                == old(self).completed_spec(),
            !old(self).playing_spec() && device_ready ==> r is Ok && final(self).playing_spec()
                && !final(self).completed_spec(),
    {
        if self.playing {
            Err(PlaybackError::AlreadyActive)
        } else if !device_ready {
            Err(PlaybackError::DeviceError)
        } else {
            self.playing = true;
            self.completed = false;
            Ok(())
        }
    }

    /// Aborts playback: marks it inactive and discards everything queued.
    pub fn stop(&mut self)
        requires
            old(self).wf(),
        ensures
            final(self).wf(),
            !final(self).playing_spec(),
            final(self).completed_spec() == old(self).completed_spec(),
            final(self).pending() == Seq::<i16>::empty(),
            final(self).frames() == 0,
            final(self).threshold_spec() == old(self).threshold_spec(),
    {
        self.playing = false;
        self.queue.clear();
        self.pos = 0;
    }

    /// One output-device callback asking for `n` samples: silence unless
    /// playing, else the pending samples in order, padded with silence. The
    /// callback that runs out of audio ends the session, once.
    pub fn fill(&mut self, n: usize) -> (r: (Vec<i16>, bool))
        requires
            old(self).wf(),
        ensures
            final(self).wf(),
            (final(self).playing_spec(), final(self).pending(), r.0@, r.1) == fill_model(
                old(self).playing_spec(),
                old(self).pending(),
                n as nat,
            ),
            final(self).completed_spec() == (old(self).completed_spec() || r.1),
            final(self).frames() <= old(self).frames(),
            final(self).threshold_spec() == old(self).threshold_spec(),
    {
        let mut out: Vec<i16> = Vec::new();
        let ghost p0 = self.pending();
        let mut ended = false;
        if self.playing {
            loop
                invariant
                    self.wf(),
                    self.playing,
                    self.threshold == old(self).threshold,
                    self.completed == old(self).completed,
                    self.frames() <= old(self).frames(),
                    out@.len() <= n,
                    out@.len() <= p0.len(),
                    out@ == p0.take(out@.len() as int),
                    self.pending() == p0.skip(out@.len() as int),
                ensures
                    self.wf(),
                    self.playing,
                    self.threshold == old(self).threshold,
                    self.completed == old(self).completed,
                    self.frames() <= old(self).frames(),
                    out@.len() <= n,
                    out@.len() <= p0.len(),
                    out@ == p0.take(out@.len() as int),
                    self.pending() == p0.skip(out@.len() as int),
                    self.queue@.len() == 0 || (out@.len() == n && self.pos < self.queue@[0]@.len()),
                decreases self.pending().len() + self.frames(),
            {
                if self.queue.len() == 0 {
                    break;
                }
                let front_len = self.queue[0].len();
                if self.pos == front_len {
                    let ghost es = self.entries();
                    let ghost pend = self.pending();
                    self.queue.pop_front();
                    self.pos = 0;
                    proof {
                        assert(self.entries() =~= es.drop_first());
                        assert(es[0].skip(front_len as int) =~= Seq::<i16>::empty());
                        assert(pend =~= es.drop_first().flatten());
                        if self.entries().len() > 0 {
                            assert(self.entries()[0].skip(0) =~= self.entries()[0]);
                            assert(self.pending() =~= self.entries().flatten());
                        } else {
                            assert(self.entries().flatten() =~= Seq::<i16>::empty());
                        }
                    }
                } else if out.len() == n {
                    break;
                } else {
                    let ghost es = self.entries();
                    let ghost pend = self.pending();
                    let v = self.queue[0][self.pos];
                    out.push(v);
                    self.pos = self.pos + 1;
                    proof {
                        assert(es[0][self.pos - 1] == v);
                        assert(pend[0] == v);
                        assert(self.entries() =~= es);
                        assert(self.pending() =~= pend.drop_first());
                        assert(out@ =~= p0.take(out@.len() as int));
                        assert(self.pending() =~= p0.skip(out@.len() as int));
                    }
                }
            }
            if self.queue.len() == 0 {
                self.completed = true;
                self.playing = false;
                ended = true;
            } else {
                assert(self.entries()[0].skip(self.pos as int).len() > 0);
                assert(self.pending().len() > 0);
            }
        }
        let ghost k = out@.len();
        while out.len() < n
            invariant
                k <= out@.len() <= n,
                out@.take(k as int) == p0.take(k as int) || !old(self).playing,
                forall|i: int| k <= i < out@.len() ==> out@[i] == 0i16,
            decreases n - out@.len(),
        {
            out.push(0i16);
        }
        proof {
            assert(out@ =~= out@.take(k as int) + silence((n - k) as nat));
        }
        (out, ended)
    }
}


/// Total number of samples asked for by callbacks of sizes `ns`.
pub open spec fn total(ns: Seq<nat>) -> nat
    decreases ns.len(),
{
    if ns.len() == 0 {
        0
    } else {
        ns[0] + total(ns.drop_first())
    }
}

/// A run of output-device callbacks of sizes `ns`, by `fill_model`: the
/// final flag and pending samples, every sample handed out in order, and how
/// many callbacks ended the session.
pub open spec fn run_fills(playing: bool, pending: Seq<i16>, ns: Seq<nat>) -> (
    bool,
    Seq<i16>,
    Seq<i16>,
    nat,
)
    decreases ns.len(),
{
    if ns.len() == 0 {
        (playing, pending, Seq::empty(), 0)
    } else {
        let f = fill_model(playing, pending, ns[0]);
        let rest = run_fills(f.0, f.1, ns.drop_first());
        (rest.0, rest.1, f.2 + rest.2, (if f.3 {
            1nat
        } else {
            0nat
        }) + rest.3)
    }
}

/// Jitter threshold, first half: while playback has not started, no run of
/// callbacks drains anything; each hands out silence and the pending audio
/// stays as it was. (Playback starts only through `start`, which
/// `queue_audio` asks for when the entry count reaches the threshold.)
pub proof fn lemma_no_drain_before_start(pending: Seq<i16>, ns: Seq<nat>)
    ensures
        run_fills(false, pending, ns) == (false, pending, silence(total(ns)), 0nat),
    decreases ns.len(),
{
    if ns.len() > 0 {
        lemma_no_drain_before_start(pending, ns.drop_first());
        assert(silence(ns[0]) + silence(total(ns.drop_first())) =~= silence(total(ns)));
    } else {
        assert(silence(0) =~= Seq::<i16>::empty());
    }
}

/// Jitter threshold, second half: once started, a run of callbacks hands
/// out the pending samples strictly in FIFO order, as many as were asked
/// for, followed by silence.
pub proof fn lemma_fifo_drain(pending: Seq<i16>, ns: Seq<nat>)
    ensures
        ({
            let m = if pending.len() < total(ns) {
                pending.len()
            } else {
                total(ns)
            };
            run_fills(true, pending, ns).2 == pending.take(m as int) + silence(
                (total(ns) - m) as nat,
            )
        }),
    decreases ns.len(),
{
    if ns.len() == 0 {
        assert(pending.take(0) + silence(0) =~= Seq::<i16>::empty());
    } else {
        let n0 = ns[0];
        let rest = ns.drop_first();
        if pending.len() <= n0 {
            lemma_no_drain_before_start(pending.skip(pending.len() as int), rest);
            assert(pending.take(pending.len() as int) + silence((n0 - pending.len()) as nat)
                + silence(total(rest)) =~= pending.take(pending.len() as int) + silence(
                (total(ns) - pending.len()) as nat,
            ));
        } else {
            lemma_fifo_drain(pending.skip(n0 as int), rest);
            let p2 = pending.skip(n0 as int);
            let m2 = if p2.len() < total(rest) {
                p2.len()
            } else {
                total(rest)
            };
            assert(pending.take(n0 as int) + silence(0) + (p2.take(m2 as int) + silence(
                (total(rest) - m2) as nat,
            )) =~= pending.take((n0 + m2) as int) + silence((total(rest) - m2) as nat));
        }
    }
}

/// Single completion: over any run of callbacks in one playback session,
/// at most one ends it, and exactly one does when the run asks for at least
/// as many samples as are pending (in particular once the queue is
/// exhausted). A session that has not started never ends.
pub proof fn lemma_single_completion(pending: Seq<i16>, ns: Seq<nat>)
    ensures
        run_fills(true, pending, ns).3 <= 1,
        ns.len() > 0 && total(ns) >= pending.len() ==> run_fills(true, pending, ns).3 == 1,
        run_fills(false, pending, ns).3 == 0,
    decreases ns.len(),
{
    lemma_no_drain_before_start(pending, ns);
    if ns.len() > 0 {
        let n0 = ns[0];
        let rest = ns.drop_first();
        if pending.len() <= n0 {
            lemma_no_drain_before_start(pending.skip(pending.len() as int), rest);
        } else {
            lemma_single_completion(pending.skip(n0 as int), rest);
        }
    }
}

} // verus!
