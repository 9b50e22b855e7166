//! Little-endian encodings of the frame length header and of PCM samples.

use vstd::prelude::*;

verus! {

/// The value of four bytes read as a little-endian unsigned integer.
pub open spec fn le_u32(b: Seq<u8>) -> nat
    recommends
        b.len() == 4,
{
    (b[0] + 256 * b[1] + 65536 * b[2] + 16777216 * b[3]) as nat
}

/// The four little-endian bytes of `n`.
pub open spec fn u32_le_bytes(n: u32) -> Seq<u8> {
    seq![
        (n % 256) as u8,
        ((n / 256) % 256) as u8,
        ((n / 65536) % 256) as u8,
        (n / 16777216) as u8,
    ]
}

/// Reading back the bytes of `n` gives `n`.
pub proof fn lemma_le_u32_round_trip(n: u32)
    ensures
        u32_le_bytes(n).len() == 4,
        le_u32(u32_le_bytes(n)) == n,
{
    let m1 = n / 256;
    let m2 = m1 / 256;
    assert(n == n % 256 + 256 * m1);
    assert(m1 == m1 % 256 + 256 * m2);
    assert(m2 == m2 % 256 + 256 * (m2 / 256));
    assert(n / 65536 == m2);
    assert(n / 16777216 == m2 / 256);
}

/// Encodes `n` as four little-endian bytes.
pub fn encode_u32_le(n: u32) -> (r: [u8; 4])
    ensures
        r@ == u32_le_bytes(n),
{
    let r = [(n % 256) as u8, ((n / 256) % 256) as u8, ((n / 65536) % 256) as u8, (n / 16777216) as u8];
    assert(r@ =~= u32_le_bytes(n));
    r
}

/// Decodes four little-endian bytes.
pub fn decode_u32_le(b0: u8, b1: u8, b2: u8, b3: u8) -> (r: u32)
    ensures
        r == le_u32(seq![b0, b1, b2, b3]),
{
    b0 as u32 + 256 * (b1 as u32) + 65536 * (b2 as u32) + 16777216 * (b3 as u32)
}

/// The sample that two little-endian bytes hold in two's complement.
pub open spec fn le_i16(lo: u8, hi: u8) -> int {
    let v = lo + 256 * hi;
    if v >= 32768 {
        v - 65536
    } else {
        v
    }
}

/// The two little-endian bytes of a sample in two's complement.
pub open spec fn i16_le_bytes(s: i16) -> Seq<u8> {
    let v: int = if s < 0 {
        s + 65536
    } else {
        s as int
    };
    seq![(v % 256) as u8, (v / 256) as u8]
}

/// The PCM bytes of a run of samples: each sample's two bytes, in order.
pub open spec fn pcm_bytes(samples: Seq<i16>) -> Seq<u8>
    decreases samples.len(),
{
    if samples.len() == 0 {
        Seq::empty()
    } else {
        pcm_bytes(samples.drop_last()) + i16_le_bytes(samples.last())
    }
}

/// A run of samples takes two bytes each.
pub proof fn lemma_pcm_bytes_len(samples: Seq<i16>)
    ensures
        pcm_bytes(samples).len() == 2 * samples.len(),
    decreases samples.len(),
{
    if samples.len() > 0 {
        lemma_pcm_bytes_len(samples.drop_last());
    }
}

/// Bytes `2 * i` and `2 * i + 1` of the PCM bytes of a run are the bytes
/// of its sample `i`.
pub proof fn lemma_pcm_bytes_index(samples: Seq<i16>, i: int)
    requires
        0 <= i < samples.len(),
    ensures
        pcm_bytes(samples)[2 * i] == i16_le_bytes(samples[i])[0],
        pcm_bytes(samples)[2 * i + 1] == i16_le_bytes(samples[i])[1],
    decreases samples.len(),
{
    let front = samples.drop_last();
    lemma_pcm_bytes_len(front);
    if i < samples.len() - 1 {
        lemma_pcm_bytes_index(front, i);
    }
}

/// Reading the bytes of a sample back gives the sample.
pub proof fn lemma_i16_round_trip(s: i16)
    ensures
        i16_le_bytes(s).len() == 2,
        le_i16(i16_le_bytes(s)[0], i16_le_bytes(s)[1]) == s,
{
}

/// Decodes a sample from its two little-endian bytes.
pub fn decode_i16_le(lo: u8, hi: u8) -> (r: i16)
    ensures
        r == le_i16(lo, hi),
{
    let v: u32 = lo as u32 + 256 * (hi as u32);
    if v >= 32768 {
        (v as i32 - 65536) as i16
    } else {
        v as i16
    }
}

/// Encodes a sample as two little-endian bytes.
pub fn encode_i16_le(s: i16) -> (r: [u8; 2])
    ensures
        r@ == i16_le_bytes(s),
{
    let v: u32 = if s < 0 {
        (s as i32 + 65536) as u32
    } else {
        s as u32
    };
    let r = [(v % 256) as u8, (v / 256) as u8];
    assert(r@ =~= i16_le_bytes(s));
    r
}

} // verus!
