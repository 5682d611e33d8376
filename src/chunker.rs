//! Splitting an incremental language-model text stream into speakable chunks.

use vstd::prelude::*;
use vstd::string::*;

verus! {

/// A chunk is flushed once it holds this many characters, whatever it contains.
pub const MIN_CHUNK_TOKENS: usize = 20;

/// A chunk of at least this many characters is flushed when the delta that
/// completed it holds sentence punctuation.
pub const PUNCTUATED_CHUNK_TOKENS: usize = 15;

/// A chunk open for at least this many milliseconds is flushed.
pub const MAX_CHUNK_LATENCY_MS: u64 = 200;

/// One text delta of the language-model stream.
pub struct LlmToken {
    pub text: String,
}

/// One speakable chunk of the response.
pub struct LlmChunk {
    pub content: String,
}

/// The flush rule over a chunk's character count, whether the latest delta
/// held punctuation, and the time since the chunk opened.
pub open spec fn emit_rule(count: nat, punctuated: bool, elapsed: nat) -> bool {
    count >= MIN_CHUNK_TOKENS || (count >= PUNCTUATED_CHUNK_TOKENS && punctuated)
        || elapsed >= MAX_CHUNK_LATENCY_MS
}

pub open spec fn is_boundary_char(c: char) -> bool {
    c == '.' || c == ',' || c == '!' || c == '?'
}

/// The text holds at least one sentence-boundary mark.
pub open spec fn has_boundary(s: Seq<char>) -> bool {
    exists|i: int| 0 <= i < s.len() && is_boundary_char(#[trigger] s[i])
}

/// The flush rule on executable values.
pub fn chunk_ready(token_count: usize, has_punctuation: bool, elapsed_ms: u64) -> (r: bool)
    ensures
        r == emit_rule(token_count as nat, has_punctuation, elapsed_ms as nat),
{
    token_count >= MIN_CHUNK_TOKENS || (token_count >= PUNCTUATED_CHUNK_TOKENS && has_punctuation)
        || elapsed_ms >= MAX_CHUNK_LATENCY_MS
}

impl LlmChunk {
    pub fn should_emit(&self, token_count: usize, has_punctuation: bool, elapsed_ms: u64) -> (r:
        bool)
        ensures
            r == emit_rule(token_count as nat, has_punctuation, elapsed_ms as nat),
    {
        chunk_ready(token_count, has_punctuation, elapsed_ms)
    }
}

/// Whether the text holds any of `. , ! ?`.
pub fn has_sentence_punctuation(s: &str) -> (r: bool)
    ensures
        r == has_boundary(s@),
{
    let n = s.unicode_len();
    let mut i: usize = 0;
    while i < n
        invariant
            n == s@.len(),
            i <= n,
            forall|j: int| 0 <= j < i ==> !is_boundary_char(#[trigger] s@[j]),
        decreases n - i,
    {
        let c = s.get_char(i);
        if c == '.' || c == ',' || c == '!' || c == '?' {
            assert(is_boundary_char(s@[i as int]));
            return true;
        }
        i += 1;
    }
    false
}

/// Milliseconds from `opened` to `now`; a clock reading before the opening
/// counts as no time.
pub open spec fn elapsed_since(opened: u64, now: u64) -> nat {
    if now >= opened {
        (now - opened) as nat
    } else {
        0
    }
}

/// Whether feeding `delta` at time `now` flushes a chunk that held `pending`
/// and opened at `opened`.
pub open spec fn flushes(pending: Seq<char>, opened: u64, delta: Seq<char>, now: u64) -> bool {
    emit_rule((pending + delta).len(), has_boundary(delta), elapsed_since(opened, now))
}

/// Chunk thresholds: feeding a delta flushes the chunk when the text
/// reaches 20 characters whatever it holds, when it reaches 15 and the
/// delta holds punctuation, or when 200 ms have passed since the chunk
/// opened; in no other case. In particular, single punctuation-free
/// characters arriving within 200 ms flush exactly when the chunk reaches
/// 20 characters.
pub proof fn lemma_chunk_thresholds(pending: Seq<char>, opened: u64, delta: Seq<char>, now: u64)
    ensures
        (pending + delta).len() >= 20 ==> flushes(pending, opened, delta, now),
        (pending + delta).len() >= 15 && has_boundary(delta) ==> flushes(
            pending,
            opened,
            delta,
            now,
        ),
        elapsed_since(opened, now) >= 200 ==> flushes(pending, opened, delta, now),
        (pending + delta).len() < 15 && elapsed_since(opened, now) < 200 ==> !flushes(
            pending,
            opened,
            delta,
            now,
        ),
        (pending + delta).len() < 20 && !has_boundary(delta) && elapsed_since(opened, now) < 200
            ==> !flushes(pending, opened, delta, now),
        delta.len() == 1 && !is_boundary_char(delta[0]) && elapsed_since(opened, now) < 200 ==> (
        flushes(pending, opened, delta, now) <==> pending.len() + 1 >= 20),
{
    if delta.len() == 1 && !is_boundary_char(delta[0]) {
        assert(!has_boundary(delta));
    }
}

/// Chunks emitted, pending text and opening time after feeding `deltas`,
/// the i-th arriving at `times[i]`, to a chunker opened empty at `start`.
pub open spec fn feed(start: u64, deltas: Seq<Seq<char>>, times: Seq<u64>) -> (Seq<Seq<char>>, Seq<char>, u64)
    decreases deltas.len(),
{
    if deltas.len() == 0 {
        (Seq::empty(), Seq::empty(), start)
    } else {
        let k = deltas.len() - 1;
        let prev = feed(start, deltas.take(k), times.take(k));
        let d = deltas[k];
        let t = times[k];
        if flushes(prev.1, prev.2, d, t) {
            (prev.0.push(prev.1 + d), Seq::empty(), t)
        } else {
            (prev.0, prev.1 + d, prev.2)
        }
    }
}

/// Every chunk of a whole stream: those emitted while feeding, then the
/// pending text if any is left at its end.
pub open spec fn all_chunks(start: u64, deltas: Seq<Seq<char>>, times: Seq<u64>) -> Seq<Seq<char>> {
    let r = feed(start, deltas, times);
    if r.1.len() > 0 {
        r.0.push(r.1)
    } else {
        r.0
    }
}

/// Splits a token stream into chunks as it arrives.
pub struct ResponseChunker {
    current: String,
    count: usize,
    opened_ms: u64,
}

impl ResponseChunker {
    /// The text of the chunk in progress.
    pub closed spec fn pending(&self) -> Seq<char> {
        self.current@
    }

    /// When the chunk in progress opened.
    pub closed spec fn opened_at(&self) -> u64 {
        self.opened_ms
    }

    pub closed spec fn wf(&self) -> bool {
        self.count == self.current@.len() && self.count < MIN_CHUNK_TOKENS
    }

    /// A chunker with an empty chunk opened at `now_ms`.
    pub fn new(now_ms: u64) -> (r: Self)
        ensures
            r.wf(),
            r.pending() == Seq::<char>::empty(),
            r.opened_at() == now_ms,
    {
        ResponseChunker { current: String::new(), count: 0, opened_ms: now_ms }
    }

    /// Appends `delta`, arriving at `now_ms`, and returns the chunk that it
    /// completes, if the flush rule holds.
    pub fn push(&mut self, delta: &str, now_ms: u64) -> (r: Option<LlmChunk>)
        requires
            old(self).wf(),
        ensures
            final(self).wf(),
            flushes(old(self).pending(), old(self).opened_at(), delta@, now_ms) ==> {
                &&& r is Some
                &&& r->Some_0.content@ == old(self).pending() + delta@
                &&& final(self).pending() == Seq::<char>::empty()
                &&& final(self).opened_at() == now_ms
            },
            !flushes(old(self).pending(), old(self).opened_at(), delta@, now_ms) ==> {
                &&& r is None
                &&& final(self).pending() == old(self).pending() + delta@
                &&& final(self).opened_at() == old(self).opened_at()
            },
    {
        let d = delta.unicode_len();
        // Past the hard cap only the fact that it was reached matters.
        let total: usize = if d < MIN_CHUNK_TOKENS {
            self.count + d
        } else {
            MIN_CHUNK_TOKENS
        };
        let punctuated = has_sentence_punctuation(delta);
        let elapsed: u64 = if now_ms >= self.opened_ms {
            now_ms - self.opened_ms
        } else {
            0
        };
        self.current.append(delta);
        if chunk_ready(total, punctuated, elapsed) {
            let mut content = String::new();
            std::mem::swap(&mut self.current, &mut content);
            self.count = 0;
            self.opened_ms = now_ms;
            Some(LlmChunk { content })
        } else {
            self.count = total;
            None
        }
    }

    /// Ends the stream: returns the chunk in progress if it holds any text.
    pub fn finish(&mut self, now_ms: u64) -> (r: Option<LlmChunk>)
        requires
            old(self).wf(),
        ensures
            final(self).wf(),
            final(self).pending() == Seq::<char>::empty(),
            final(self).opened_at() == now_ms,
            old(self).pending().len() > 0 ==> r is Some && r->Some_0.content@ == old(self).pending(),
            old(self).pending().len() == 0 ==> r is None,
    {
        let had_text = self.count > 0;
        let mut content = String::new();
        std::mem::swap(&mut self.current, &mut content);
        self.count = 0;
        self.opened_ms = now_ms;
        if had_text {
            Some(LlmChunk { content })
        } else {
            None
        }
    }
}


pub open spec fn texts(v: Seq<String>) -> Seq<Seq<char>> {
    v.map_values(|s: String| s@)
}

pub open spec fn chunk_texts(v: Seq<LlmChunk>) -> Seq<Seq<char>> {
    v.map_values(|c: LlmChunk| c.content@)
}

proof fn lemma_feed_invariant(start: u64, deltas: Seq<Seq<char>>, times: Seq<u64>)
    ensures
        ({
            let r = feed(start, deltas, times);
            r.0.flatten() + r.1 == deltas.flatten()
        }),
    decreases deltas.len(),
{
    broadcast use Seq::lemma_flatten_push;

    if deltas.len() > 0 {
        let k = deltas.len() - 1;
        lemma_feed_invariant(start, deltas.take(k), times.take(k));
        assert(deltas =~= deltas.take(k).push(deltas[k]));
        let prev = feed(start, deltas.take(k), times.take(k));
        assert(prev.0.flatten() + (prev.1 + deltas[k]) =~= (prev.0.flatten() + prev.1) + deltas[k]);
    } else {
        assert(deltas.flatten() =~= Seq::<char>::empty());
    }
}

/// Chunk completeness: for any delta stream, the chunks in the order they
/// are emitted, the final flush included, concatenate to exactly the
/// concatenation of the deltas.
pub proof fn lemma_chunks_complete(start: u64, deltas: Seq<Seq<char>>, times: Seq<u64>)
    ensures
        all_chunks(start, deltas, times).flatten() == deltas.flatten(),
{
    broadcast use Seq::lemma_flatten_push;

    lemma_feed_invariant(start, deltas, times);
    let r = feed(start, deltas, times);
    if r.1.len() == 0 {
        assert(r.0.flatten() + r.1 =~= r.0.flatten());
    }
}

/// Runs a whole delta stream, the i-th delta arriving at `times_ms[i]`,
/// through a chunker opened at `start_ms`. Returns the full response text
/// and every chunk, the final flush included.
pub fn chunk_completion(deltas: &Vec<String>, times_ms: &Vec<u64>, start_ms: u64) -> (r: (
    String,
    Vec<LlmChunk>,
))
    requires
        deltas@.len() == times_ms@.len(),
    ensures
        r.0@ == texts(deltas@).flatten(),
        chunk_texts(r.1@) == all_chunks(start_ms, texts(deltas@), times_ms@),
{
    broadcast use Seq::lemma_flatten_push;

    let ghost ds = texts(deltas@);
    let mut full = String::new();
    let mut chunks: Vec<LlmChunk> = Vec::new();
    let mut chunker = ResponseChunker::new(start_ms);
    let mut i: usize = 0;
    let mut now: u64 = start_ms;
    while i < deltas.len()
        invariant
            deltas@.len() == times_ms@.len(),
            ds == texts(deltas@),
            i <= deltas@.len(),
            chunker.wf(),
            full@ == ds.take(i as int).flatten(),
            ({
                let f = feed(start_ms, ds.take(i as int), times_ms@.take(i as int));
                &&& chunk_texts(chunks@) == f.0
                &&& chunker.pending() == f.1
                &&& chunker.opened_at() == f.2
            }),
        decreases deltas@.len() - i,
    {
        let ghost before = chunks@;
        proof {
            assert(ds.take(i + 1).take(i as int) =~= ds.take(i as int));
            assert(times_ms@.take(i + 1).take(i as int) =~= times_ms@.take(i as int));
            assert(ds.take(i + 1) =~= ds.take(i as int).push(ds[i as int]));
            assert(ds[i as int] == deltas@[i as int]@);
            ds.take(i as int).lemma_flatten_push(ds[i as int]);
        }
        let d: &str = deltas[i].as_str();
        now = times_ms[i];
        full.append(d);
        let emitted = chunker.push(d, now);
        match emitted {
            Some(c) => {
                chunks.push(c);
                assert(chunk_texts(chunks@) =~= chunk_texts(before).push(chunks@[before.len() as int].content@));
            },
            None => {},
        }
        i += 1;
    }
    proof {
        assert(ds.take(i as int) =~= ds);
        assert(times_ms@.take(i as int) =~= times_ms@);
    }
    let ghost before = chunks@;
    let last = chunker.finish(now);
    match last {
        Some(c) => {
            chunks.push(c);
            assert(chunk_texts(chunks@) =~= chunk_texts(before).push(chunks@[before.len() as int].content@));
        },
        None => {},
    }
    (full, chunks)
}

} // verus!
