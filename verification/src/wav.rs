use vstd::prelude::*;

use crate::types::TranscribeError;

verus! {

/// The canonical container this library writes and reads for its audio:
/// a RIFF/WAVE file holding 16-bit little-endian PCM, one channel, at
/// 16 kHz, with a 44-byte header followed by the sample data.
///
/// Together, `lemma_encode_is_wav`, `lemma_encode_injective` and the
/// contracts of `encode_wav_16k_mono` / `decode_wav_16k_mono` give the
/// round trip both ways, bit-exact: decoding an encoding yields the
/// samples, and re-encoding a decoded file yields the bytes.
pub open spec fn byte0(x: int) -> u8 {
    (x % 256) as u8
}

pub open spec fn byte1(x: int) -> u8 {
    (x / 256 % 256) as u8
}

pub open spec fn byte2(x: int) -> u8 {
    (x / 65536 % 256) as u8
}

pub open spec fn byte3(x: int) -> u8 {
    (x / 16777216 % 256) as u8
}

/// A 32-bit value in little-endian bytes.
pub open spec fn u32_le(x: int) -> Seq<u8> {
    seq![byte0(x), byte1(x), byte2(x), byte3(x)]
}

/// A 16-bit value in little-endian bytes.
pub open spec fn u16_le(x: int) -> Seq<u8> {
    seq![byte0(x), (x / 256 % 256) as u8]
}

/// A sample's unsigned 16-bit representation (two's complement).
pub open spec fn sample_repr(s: i16) -> int {
    if s < 0 {
        s + 65536
    } else {
        s as int
    }
}

/// A sample in little-endian bytes.
pub open spec fn i16_le(s: i16) -> Seq<u8> {
    u16_le(sample_repr(s))
}

/// The sample two little-endian bytes encode.
pub open spec fn sample_of_bytes(b0: u8, b1: u8) -> i16 {
    if b0 + 256 * b1 >= 32768 {
        (b0 + 256 * b1 - 65536) as i16
    } else {
        (b0 + 256 * b1) as i16
    }
}

proof fn lemma_sample_bytes_inverse(b0: u8, b1: u8)
    ensures
        i16_le(sample_of_bytes(b0, b1)) =~= seq![b0, b1],
{
}

proof fn lemma_sample_repr_inverse(s: i16)
    ensures
        sample_of_bytes(byte0(sample_repr(s)), (sample_repr(s) / 256 % 256) as u8) == s,
{
}

/// The 44-byte header of a file holding `n` samples.
pub open spec fn wav_header(n: int) -> Seq<u8> {
    seq![0x52u8, 0x49u8, 0x46u8, 0x46u8]  // "RIFF"
     + u32_le(36 + 2 * n) + seq![0x57u8, 0x41u8, 0x56u8, 0x45u8]  // "WAVE"
     + seq![0x66u8, 0x6du8, 0x74u8, 0x20u8]  // "fmt "
     + u32_le(16)  // fmt chunk size
     + u16_le(1)  // PCM
     + u16_le(1)  // mono
     + u32_le(16000)  // sample rate
     + u32_le(32000)  // byte rate
     + u16_le(2)  // block align
     + u16_le(16)  // bits per sample
     + seq![0x64u8, 0x61u8, 0x74u8, 0x61u8]  // "data"
     + u32_le(2 * n)
}

/// The sample data, each sample as two little-endian bytes.
pub open spec fn wav_data(samples: Seq<i16>) -> Seq<u8>
    decreases samples.len(),
{
    if samples.len() == 0 {
        Seq::empty()
    } else {
        wav_data(samples.drop_last()) + i16_le(samples.last())
    }
}

/// The whole encoded file.
pub open spec fn spec_encode_wav(samples: Seq<i16>) -> Seq<u8> {
    wav_header(samples.len() as int) + wav_data(samples)
}

/// What decoding accepts: exactly the canonical encodings.
pub open spec fn is_wav_16k_mono(bytes: Seq<u8>) -> bool {
    &&& bytes.len() >= 44
    &&& (bytes.len() - 44) % 2 == 0
    &&& bytes.len() - 44 + 36 <= u32::MAX
    &&& bytes.subrange(0, 44) == wav_header((bytes.len() - 44) / 2)
}

proof fn lemma_wav_data_len(samples: Seq<i16>)
    ensures
        wav_data(samples).len() == 2 * samples.len(),
    decreases samples.len(),
{
    if samples.len() > 0 {
        lemma_wav_data_len(samples.drop_last());
    }
}

proof fn lemma_wav_data_injective(s1: Seq<i16>, s2: Seq<i16>)
    requires
        s1.len() == s2.len(),
        wav_data(s1) == wav_data(s2),
    ensures
        s1 =~= s2,
    decreases s1.len(),
{
    if s1.len() > 0 {
        lemma_wav_data_len(s1.drop_last());
        lemma_wav_data_len(s2.drop_last());
        let d1 = wav_data(s1.drop_last());
        let d2 = wav_data(s2.drop_last());
        assert(wav_data(s1) == d1 + i16_le(s1.last()));
        assert(wav_data(s2) == d2 + i16_le(s2.last()));
        assert(d1 =~= d2) by {
            assert forall|i: int| 0 <= i < d1.len() implies d1[i] == d2[i] by {
                assert((d1 + i16_le(s1.last()))[i] == d1[i]);
                assert((d2 + i16_le(s2.last()))[i] == d2[i]);
            }
        }
        lemma_wav_data_injective(s1.drop_last(), s2.drop_last());
        let r1 = sample_repr(s1.last());
        let r2 = sample_repr(s2.last());
        assert((d1 + i16_le(s1.last()))[d1.len() as int] == byte0(r1));
        assert((d2 + i16_le(s2.last()))[d2.len() as int] == byte0(r2));
        assert((d1 + i16_le(s1.last()))[d1.len() as int + 1] == (r1 / 256 % 256) as u8);
        assert((d2 + i16_le(s2.last()))[d2.len() as int + 1] == (r2 / 256 % 256) as u8);
        lemma_sample_repr_inverse(s1.last());
        lemma_sample_repr_inverse(s2.last());
        assert(s1.last() == s2.last());
        assert forall|i: int| 0 <= i < s1.len() implies s1[i] == s2[i] by {
            if i < s1.len() - 1 {
                assert(s1.drop_last()[i] == s2.drop_last()[i]);
            }
        }
    }
}

/// A canonical encoding is accepted by the decoder.
pub proof fn lemma_encode_is_wav(samples: Seq<i16>)
    requires
        2 * samples.len() + 36 <= u32::MAX,
    ensures
        is_wav_16k_mono(spec_encode_wav(samples)),
{
    lemma_wav_data_len(samples);
    let bytes = spec_encode_wav(samples);
    assert(bytes.len() == 44 + 2 * samples.len());
    assert(bytes.subrange(0, 44) =~= wav_header(samples.len() as int));
}

/// Two sample lists with the same encoding are the same list.
pub proof fn lemma_encode_injective(s1: Seq<i16>, s2: Seq<i16>)
    requires
        spec_encode_wav(s1) == spec_encode_wav(s2),
    ensures
        s1 =~= s2,
{
    lemma_wav_data_len(s1);
    lemma_wav_data_len(s2);
    assert(spec_encode_wav(s1).len() == 44 + 2 * s1.len());
    assert(spec_encode_wav(s2).len() == 44 + 2 * s2.len());
    let b1 = spec_encode_wav(s1);
    assert(wav_data(s1) =~= wav_data(s2)) by {
        assert forall|i: int| 0 <= i < wav_data(s1).len() implies wav_data(s1)[i] == wav_data(
            s2,
        )[i] by {
            assert(spec_encode_wav(s1)[44 + i] == wav_data(s1)[i]);
            assert(spec_encode_wav(s2)[44 + i] == wav_data(s2)[i]);
        }
    }
    lemma_wav_data_injective(s1, s2);
}

/// Append a 16-bit value in little-endian order.
fn push_u16_le(v: &mut Vec<u8>, x: u16)
    ensures
        final(v)@ == old(v)@ + u16_le(x as int),
{
    let b0 = (x % 256) as u8;
    let b1 = (x / 256) as u8;
    v.push(b0);
    v.push(b1);
    proof {
        assert(v@ =~= old(v)@ + u16_le(x as int));
    }
}

/// Append a 32-bit value in little-endian order.
fn push_u32_le(v: &mut Vec<u8>, x: u32)
    ensures
        final(v)@ == old(v)@ + u32_le(x as int),
{
    let b0 = (x % 256) as u8;
    let b1 = (x / 256 % 256) as u8;
    let b2 = (x / 65536 % 256) as u8;
    let b3 = (x / 16777216 % 256) as u8;
    v.push(b0);
    v.push(b1);
    v.push(b2);
    v.push(b3);
    proof {
        assert(v@ =~= old(v)@ + u32_le(x as int));
    }
}

/// Append a sample in little-endian two's complement.
fn push_i16_le(v: &mut Vec<u8>, s: i16)
    ensures
        final(v)@ == old(v)@ + i16_le(s),
{
    let r: u16 = if s < 0 {
        ((s as i32) + 65536) as u16
    } else {
        s as u16
    };
    proof {
        assert(r as int == sample_repr(s));
    }
    push_u16_le(v, r);
}

/// The canonical header for `n` samples.
fn encode_header(n: usize) -> (v: Vec<u8>)
    requires
        2 * n + 36 <= u32::MAX,
    ensures
        v@ == wav_header(n as int),
        v@.len() == 44,
{
    let data_size: u32 = (2 * n) as u32;
    let mut v: Vec<u8> = Vec::new();
    v.push(0x52u8);
    v.push(0x49u8);
    v.push(0x46u8);
    v.push(0x46u8);
    push_u32_le(&mut v, 36 + data_size);
    v.push(0x57u8);
    v.push(0x41u8);
    v.push(0x56u8);
    v.push(0x45u8);
    v.push(0x66u8);
    v.push(0x6du8);
    v.push(0x74u8);
    v.push(0x20u8);
    push_u32_le(&mut v, 16);
    push_u16_le(&mut v, 1);
    push_u16_le(&mut v, 1);
    push_u32_le(&mut v, 16000);
    push_u32_le(&mut v, 32000);
    push_u16_le(&mut v, 2);
    push_u16_le(&mut v, 16);
    v.push(0x64u8);
    v.push(0x61u8);
    v.push(0x74u8);
    v.push(0x61u8);
    push_u32_le(&mut v, data_size);
    proof {
        assert(v@ =~= wav_header(n as int));
    }
    v
}

/// Encode samples as a canonical 16 kHz mono 16-bit WAV file.
pub fn encode_wav_16k_mono(samples: &Vec<i16>) -> (r: Vec<u8>)
    requires
        2 * samples@.len() + 36 <= u32::MAX,
    ensures
        r@ == spec_encode_wav(samples@),
{
    let mut v = encode_header(samples.len());
    let ghost header = v@;
    let mut k: usize = 0;
    while k < samples.len()
        invariant
            header == wav_header(samples@.len() as int),
            2 * samples@.len() + 36 <= u32::MAX,
            0 <= k <= samples@.len(),
            v@ == header + wav_data(samples@.take(k as int)),
        decreases samples@.len() - k,
    {
        push_i16_le(&mut v, samples[k]);
        proof {
            assert(samples@.take(k + 1).drop_last() =~= samples@.take(k as int));
            assert(samples@.take(k + 1).last() == samples@[k as int]);
            assert(v@ =~= header + wav_data(samples@.take(k + 1)));
        }
        k += 1;
    }
    proof {
        assert(samples@.take(samples@.len() as int) =~= samples@);
    }
    v
}

/// Decode a canonical 16 kHz mono 16-bit WAV file. Succeeds exactly on
/// canonical encodings and then returns the samples the bytes encode:
/// re-encoding them reproduces the input bit for bit. A missing or
/// malformed header is an unsupported format; a truncated sample is a
/// decode error.
#[verifier::rlimit(100)]
#[verifier::spinoff_prover]
pub fn decode_wav_16k_mono(bytes: &Vec<u8>) -> (r: Result<Vec<i16>, TranscribeError>)
    ensures
        r is Ok <==> is_wav_16k_mono(bytes@),
        r matches Ok(s) ==> bytes@ == spec_encode_wav(s@) && s@.len() == (bytes@.len() - 44) / 2,
        r is Err ==> (r matches Err(e) && (e == TranscribeError::UnsupportedFormat || e
            == TranscribeError::DecodeError)),
{
    if bytes.len() < 44 {
        return Err(TranscribeError::UnsupportedFormat);
    }
    if (bytes.len() - 44) % 2 != 0 {
        proof {
            assert(!is_wav_16k_mono(bytes@));
        }
        return Err(TranscribeError::DecodeError);
    }
    if bytes.len() - 44 > (u32::MAX - 36) as usize {
        return Err(TranscribeError::UnsupportedFormat);
    }
    let n = (bytes.len() - 44) / 2;
    let expected = encode_header(n);
    let mut i: usize = 0;
    while i < 44
        invariant
            bytes@.len() >= 44,
            (bytes@.len() - 44) % 2 == 0,
            bytes@.len() - 44 + 36 <= u32::MAX,
            n as int == (bytes@.len() - 44) / 2,
            expected@ == wav_header(n as int),
            expected@.len() == 44,
            0 <= i <= 44,
            forall|j: int| 0 <= j < i ==> bytes@[j] == expected@[j],
        decreases 44 - i,
    {
        if bytes[i] != expected[i] {
            proof {
                assert(bytes@.subrange(0, 44)[i as int] == bytes@[i as int]);
                assert(bytes@.subrange(0, 44) != wav_header(n as int));
            }
            return Err(TranscribeError::UnsupportedFormat);
        }
        i += 1;
    }
    proof {
        assert(bytes@.subrange(0, 44) =~= wav_header(n as int));
        assert(bytes@.len() == 44 + 2 * n);
    }
    let mut samples: Vec<i16> = Vec::new();
    let mut k: usize = 0;
    while k < n
        invariant
            bytes@.len() == 44 + 2 * n,
            44 + 2 * n <= usize::MAX,
            0 <= k <= n,
            samples@.len() == k,
            wav_data(samples@) =~= bytes@.subrange(44, 44 + 2 * k),
        decreases n - k,
    {
        let b0 = bytes[44 + 2 * k];
        let b1 = bytes[44 + 2 * k + 1];
        let s: i16 = {
            let u: u32 = (b0 as u32) + 256 * (b1 as u32);
            if u >= 32768 {
                ((u as i32) - 65536) as i16
            } else {
                u as i16
            }
        };
        proof {
            assert(s == sample_of_bytes(b0, b1));
        }
        let ghost pre = samples@;
        samples.push(s);
        proof {
            assert(samples@.drop_last() =~= pre);
            lemma_sample_bytes_inverse(b0, b1);
            assert(wav_data(samples@) =~= wav_data(pre) + i16_le(s));
            assert(bytes@.subrange(44, 44 + 2 * (k + 1)) =~= bytes@.subrange(44, 44 + 2 * k)
                + seq![bytes@[44 + 2 * k], bytes@[44 + 2 * k + 1]]);
        }
        k += 1;
    }
    proof {
        lemma_wav_data_len(samples@);
        assert(bytes@ =~= bytes@.subrange(0, 44) + bytes@.subrange(44, bytes@.len() as int));
        assert(bytes@.subrange(44, 44 + 2 * (n as int)) =~= bytes@.subrange(
            44,
            bytes@.len() as int,
        ));
        assert(bytes@ =~= spec_encode_wav(samples@));
    }
    Ok(samples)
}

} // verus!
