//! 16-bit PCM as bytes: little-endian, two bytes per sample, the form `parec` writes
//! and the realtime endpoint reads.

use vstd::prelude::*;

verus! {

/// The sample that two little-endian bytes hold (`i16::from_le_bytes`).
pub open spec fn sample_of(lo: u8, hi: u8) -> int {
    let u = lo as int + 256 * hi as int;
    if u >= 32768 {
        u - 65536
    } else {
        u
    }
}

/// The two's-complement bit pattern of a sample, as an unsigned number.
pub open spec fn bits_of(s: i16) -> int {
    if s < 0 {
        s + 65536
    } else {
        s as int
    }
}

/// The first byte of a sample in little-endian order.
pub open spec fn low_byte(s: i16) -> int {
    bits_of(s) % 256
}

/// The second byte of a sample in little-endian order.
pub open spec fn high_byte(s: i16) -> int {
    bits_of(s) / 256
}

/// The little-endian bytes of `pcm`, two per sample (`i16::to_le_bytes`, concatenated).
pub open spec fn le_bytes(pcm: Seq<i16>) -> Seq<u8> {
    Seq::new(
        2 * pcm.len(),
        |i: int|
            if i % 2 == 0 {
                low_byte(pcm[i / 2]) as u8
            } else {
                high_byte(pcm[i / 2]) as u8
            },
    )
}

/// The samples that `raw` holds, one per whole pair of bytes; an odd last byte is not a
/// sample (`chunks_exact(2)` and `i16::from_le_bytes`).
pub open spec fn samples_of(raw: Seq<u8>) -> Seq<i16> {
    Seq::new(raw.len() / 2, |i: int| sample_of(raw[2 * i], raw[2 * i + 1]) as i16)
}

/// The magnitude of a sample.
pub open spec fn magnitude(s: i16) -> int {
    if s < 0 {
        -s
    } else {
        s as int
    }
}

proof fn lemma_sample_round_trip(s: i16)
    ensures
        0 <= low_byte(s) < 256,
        0 <= high_byte(s) < 256,
        sample_of(low_byte(s) as u8, high_byte(s) as u8) == s,
{
    let u = bits_of(s);
    assert(0 <= u < 65536);
    assert(low_byte(s) + 256 * high_byte(s) == u) by (nonlinear_arith)
        requires
            low_byte(s) == u % 256,
            high_byte(s) == u / 256,
    ;
    assert(0 <= u % 256 < 256) by (nonlinear_arith);
    assert(0 <= u / 256 < 256) by (nonlinear_arith)
        requires
            0 <= u < 65536,
    ;
}

/// Reading back the bytes written for some samples gives those samples again, and
/// every sample takes exactly two bytes.
pub proof fn lemma_le_bytes_round_trip(pcm: Seq<i16>)
    ensures
        le_bytes(pcm).len() == 2 * pcm.len(),
        samples_of(le_bytes(pcm)) == pcm,
{
    let b = le_bytes(pcm);
    assert forall|i: int| 0 <= i < pcm.len() implies #[trigger] samples_of(b)[i] == pcm[i] by {
        lemma_sample_round_trip(pcm[i]);
        assert((2 * i) % 2 == 0 && (2 * i) / 2 == i);
        assert((2 * i + 1) % 2 == 1 && (2 * i + 1) / 2 == i);
    }
    assert(samples_of(b) =~= pcm);
}

/// The samples held by little-endian bytes, as `parec` writes them.
pub fn pcm_from_le_bytes(raw: &[u8]) -> (r: Vec<i16>)
    ensures
        r@ == samples_of(raw@),
{
    let n: usize = raw.len() / 2;
    let mut out: Vec<i16> = Vec::new();
    let mut i: usize = 0;
    while i < n
        invariant
            n == raw@.len() / 2,
            i <= n,
            out@ == samples_of(raw@).take(i as int),
        decreases n - i,
    {
        assert(2 * i + 1 < raw@.len()) by (nonlinear_arith)
            requires
                i < n,
                n == raw@.len() / 2,
        ;
        let len: usize = raw.len();
        assert(2 * i + 1 < len);
        let lo: u8 = raw[2 * i];
        let hi: u8 = raw[2 * i + 1];
        let u: u32 = lo as u32 + 256 * hi as u32;
        let s: i16 = if u >= 32768 {
            (u as i32 - 65536) as i16
        } else {
            u as i16
        };
        out.push(s);
        assert(out@ =~= samples_of(raw@).take(i + 1));
        i = i + 1;
    }
    out
}

/// The little-endian bytes of `pcm`, as the uplink sends them.
pub fn pcm_to_le_bytes(pcm: &[i16]) -> (r: Vec<u8>)
    ensures
        r@ == le_bytes(pcm@),
{
    let mut out: Vec<u8> = Vec::new();
    let mut i: usize = 0;
    while i < pcm.len()
        invariant
            i <= pcm.len(),
            out@ == le_bytes(pcm@).take(2 * i as int),
        decreases pcm.len() - i,
    {
        let s: i16 = pcm[i];
        let u: u32 = if s < 0 {
            (s as i32 + 65536) as u32
        } else {
            s as u32
        };
        proof {
            lemma_sample_round_trip(s);
        }
        out.push((u % 256) as u8);
        out.push((u / 256) as u8);
        proof {
            let b = le_bytes(pcm@);
            assert((2 * i) % 2 == 0 && (2 * i) / 2 == i as int);
            assert((2 * i + 1) % 2 == 1 && (2 * i + 1) / 2 == i as int);
            assert(out@ =~= b.take(2 * i + 2));
        }
        i = i + 1;
    }
    assert(le_bytes(pcm@).take(2 * pcm.len() as int) =~= le_bytes(pcm@));
    out
}

/// The largest magnitude among the samples of `pcm` (0 for no samples): the level meter
/// shows it as a fraction of full scale.
pub fn peak_magnitude(pcm: &[i16]) -> (r: u32)
    ensures
        forall|i: int| 0 <= i < pcm@.len() ==> magnitude(#[trigger] pcm@[i]) <= r,
        pcm@.len() == 0 ==> r == 0,
        pcm@.len() > 0 ==> exists|i: int| 0 <= i < pcm@.len() && magnitude(#[trigger] pcm@[i]) == r,
{
    let mut best: u32 = 0;
    let mut i: usize = 0;
    while i < pcm.len()
        invariant
            i <= pcm.len(),
            forall|j: int| 0 <= j < i ==> magnitude(#[trigger] pcm@[j]) <= best,
            i == 0 ==> best == 0,
            i > 0 ==> exists|j: int| 0 <= j < i && magnitude(#[trigger] pcm@[j]) == best,
        decreases pcm.len() - i,
    {
        let s: i16 = pcm[i];
        let m: u32 = if s < 0 {
            (0i32 - s as i32) as u32
        } else {
            s as u32
        };
        if i == 0 || m > best {
            best = m;
        }
        assert(magnitude(pcm@[i as int]) == m);
        i = i + 1;
    }
    best
}

/// Each sample is written as two bytes, low byte first: the two's-complement pattern of
/// the sample (the sample itself, or the sample plus 65536 where it is negative) modulo
/// 256, and then that pattern divided by 256.
pub proof fn lemma_bytes_are_low_then_high(pcm: Seq<i16>, i: int)
    requires
        0 <= i < pcm.len(),
    ensures
        le_bytes(pcm).len() == 2 * pcm.len(),
        le_bytes(pcm)[2 * i] as int == (if pcm[i] < 0 {
            pcm[i] + 65536
        } else {
            pcm[i] as int
        }) % 256,
        le_bytes(pcm)[2 * i + 1] as int == (if pcm[i] < 0 {
            pcm[i] + 65536
        } else {
            pcm[i] as int
        }) / 256,
{
    lemma_sample_round_trip(pcm[i]);
    assert((2 * i) % 2 == 0 && (2 * i) / 2 == i);
    assert((2 * i + 1) % 2 == 1 && (2 * i + 1) / 2 == i);
}

/// Each pair of bytes is read as one sample, the first byte low: the sample is the first
/// byte plus 256 times the second, less 65536 where the second byte has its top bit set.
pub proof fn lemma_samples_are_read_low_then_high(raw: Seq<u8>, i: int)
    requires
        0 <= i < raw.len() / 2,
    ensures
        samples_of(raw).len() == raw.len() / 2,
        samples_of(raw)[i] as int == raw[2 * i] as int + 256 * raw[2 * i + 1] as int - (if raw[2
            * i + 1] >= 128 {
            65536int
        } else {
            0int
        }),
{
    assert(2 * i + 1 < raw.len());
    let u = raw[2 * i] as int + 256 * raw[2 * i + 1] as int;
    assert(raw[2 * i + 1] >= 128 <==> u >= 32768);
}

} // verus!
