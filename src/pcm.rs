//! Little-endian 16-bit PCM encoding and decoding.

use vstd::prelude::*;

verus! {

/// The unsigned 16-bit pattern of a sample.
pub open spec fn pattern(s: int) -> int {
    if s < 0 {
        s + 65536
    } else {
        s
    }
}

/// Low byte of a sample's little-endian encoding.
pub open spec fn low_byte(s: i16) -> u8 {
    (pattern(s as int) % 256) as u8
}

/// High byte of a sample's little-endian encoding.
pub open spec fn high_byte(s: i16) -> u8 {
    (pattern(s as int) / 256) as u8
}

/// The sample that two little-endian bytes encode.
pub open spec fn sample_of(lo: u8, hi: u8) -> int {
    let v = lo as int + 256 * hi as int;
    if v >= 32768 {
        v - 65536
    } else {
        v
    }
}

/// The encoding of every sample, two bytes each, low byte first.
pub open spec fn is_encoding(samples: Seq<i16>, bytes: Seq<u8>) -> bool {
    &&& bytes.len() == 2 * samples.len()
    &&& forall|i: int|
        0 <= i < samples.len() ==> bytes[2 * i] == low_byte(#[trigger] samples[i]) && bytes[2 * i
            + 1] == high_byte(samples[i])
}

/// The samples of a byte buffer read as little-endian pairs; an odd trailing
/// byte holds no sample.
pub open spec fn is_decoding(bytes: Seq<u8>, samples: Seq<i16>) -> bool {
    &&& samples.len() == bytes.len() / 2
    &&& forall|i: int|
        0 <= i < samples.len() ==> #[trigger] samples[i] as int == sample_of(
            bytes[2 * i],
            bytes[2 * i + 1],
        )
}

pub fn encode_sample(s: i16) -> (r: (u8, u8))
    ensures
        r.0 == low_byte(s),
        r.1 == high_byte(s),
{
    let v: i32 = s as i32;
    let u: i32 = if v < 0 {
        v + 65536
    } else {
        v
    };
    ((u % 256) as u8, (u / 256) as u8)
}

pub fn decode_sample(lo: u8, hi: u8) -> (r: i16)
    ensures
        r as int == sample_of(lo, hi),
{
    let v: i32 = lo as i32 + 256 * (hi as i32);
    let s: i32 = if v >= 32768 {
        v - 65536
    } else {
        v
    };
    s as i16
}

/// Encodes samples as little-endian 16-bit PCM bytes.
pub fn encode_pcm16(samples: &[i16]) -> (r: Vec<u8>)
    requires
        2 * samples@.len() <= usize::MAX,
    ensures
        is_encoding(samples@, r@),
{
    let mut out: Vec<u8> = Vec::new();
    let mut i: usize = 0;
    while i < samples.len()
        invariant
            2 * samples@.len() <= usize::MAX,
            i <= samples@.len(),
            is_encoding(samples@.take(i as int), out@),
        decreases samples@.len() - i,
    {
        let (lo, hi) = encode_sample(samples[i]);
        out.push(lo);
        out.push(hi);
        i += 1;
        assert forall|j: int| 0 <= j < i implies out@[2 * j] == low_byte(
            #[trigger] samples@.take(i as int)[j],
        ) && out@[2 * j + 1] == high_byte(samples@.take(i as int)[j]) by {
            if j < i - 1 {
                assert(samples@.take(i as int)[j] == samples@.take(i - 1)[j]);
            }
        }
    }
    assert(samples@.take(i as int) =~= samples@);
    out
}

/// Decodes little-endian 16-bit PCM bytes into samples.
pub fn decode_pcm16(bytes: &[u8]) -> (r: Vec<i16>)
    ensures
        is_decoding(bytes@, r@),
{
    let len = bytes.len();
    let n = len / 2;
    let mut out: Vec<i16> = Vec::new();
    let mut i: usize = 0;
    while i < n
        invariant
            len == bytes@.len(),
            n == len / 2,
            i <= n,
            out@.len() == i,
            forall|j: int|
                0 <= j < i ==> #[trigger] out@[j] as int == sample_of(bytes@[2 * j], bytes@[2 * j + 1]),
        decreases n - i,
    {
        assert(2 * i + 1 < len) by (nonlinear_arith)
            requires
                i < n,
                n == len / 2,
        ;
        out.push(decode_sample(bytes[2 * i], bytes[2 * i + 1]));
        i += 1;
    }
    out
}


/// Decoding an encoding gives back the samples: the little-endian coding
/// loses nothing.
pub proof fn lemma_round_trip(samples: Seq<i16>, bytes: Seq<u8>, decoded: Seq<i16>)
    requires
        is_encoding(samples, bytes),
        is_decoding(bytes, decoded),
    ensures
        decoded == samples,
{
    assert(decoded.len() == samples.len()) by (nonlinear_arith)
        requires
            bytes.len() == 2 * samples.len(),
            decoded.len() == bytes.len() / 2,
    ;
    assert forall|i: int| 0 <= i < samples.len() implies decoded[i] == samples[i] by {
        let s = samples[i] as int;
        let p = pattern(s);
        assert(bytes[2 * i] == low_byte(samples[i]));
        assert(bytes[2 * i + 1] == high_byte(samples[i]));
        assert(0 <= p < 65536);
        assert(p % 256 + 256 * (p / 256) == p);
        assert(decoded[i] as int == sample_of(bytes[2 * i], bytes[2 * i + 1]));
    }
    assert(decoded =~= samples);
}

} // verus!
