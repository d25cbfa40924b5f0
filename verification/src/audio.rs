use vstd::prelude::*;

use crate::types::TranscribeError;

verus! {

/// The integer PCM sample formats the decoder normalizes, each with its
/// full-scale positive magnitude. Floating-point sources are the host's
/// to convert.
#[derive(Clone, Copy, Debug, PartialEq, Eq, Structural)]
pub enum PcmFormat {
    U8,
    U16,
    U32,
    S8,
    S16,
    S24,
    S32,
}

/// The raw values a format can hold.
pub open spec fn fmt_in_range(fmt: PcmFormat, raw: int) -> bool {
    match fmt {
        PcmFormat::U8 => 0 <= raw < 256,
        PcmFormat::U16 => 0 <= raw < 65536,
        PcmFormat::U32 => 0 <= raw < 0x1_0000_0000,
        PcmFormat::S8 => -128 <= raw < 128,
        PcmFormat::S16 => -32768 <= raw < 32768,
        PcmFormat::S24 => -0x80_0000 <= raw < 0x80_0000,
        PcmFormat::S32 => -0x8000_0000 <= raw < 0x8000_0000,
    }
}

/// A raw sample normalized to a signed 32-bit fixed-point value with
/// full scale 2^31: dividing the result by 2^31 gives the value the
/// original format represents in [-1, 1), with unsigned formats centered
/// by their signed shift.
pub open spec fn spec_normalize(fmt: PcmFormat, raw: int) -> int {
    match fmt {
        PcmFormat::U8 => (raw - 128) * 0x100_0000,
        PcmFormat::U16 => (raw - 32768) * 0x1_0000,
        PcmFormat::U32 => raw - 0x8000_0000,
        PcmFormat::S8 => raw * 0x100_0000,
        PcmFormat::S16 => raw * 0x1_0000,
        PcmFormat::S24 => raw * 0x100,
        PcmFormat::S32 => raw,
    }
}

/// Normalize one raw integer sample to the canonical fixed-point scale.
pub fn normalize_sample(fmt: PcmFormat, raw: i64) -> (r: i32)
    requires
        fmt_in_range(fmt, raw as int),
    ensures
        r == spec_normalize(fmt, raw as int),
{
    match fmt {
        PcmFormat::U8 => ((raw - 128) * 0x100_0000) as i32,
        PcmFormat::U16 => ((raw - 32768) * 0x1_0000) as i32,
        PcmFormat::U32 => (raw - 0x8000_0000) as i32,
        PcmFormat::S8 => (raw * 0x100_0000) as i32,
        PcmFormat::S16 => (raw * 0x1_0000) as i32,
        PcmFormat::S24 => (raw * 0x100) as i32,
        PcmFormat::S32 => raw as i32,
    }
}

/// The arithmetic mean of one frame's channel samples, rounded toward
/// negative infinity.
pub open spec fn spec_sum(frame: Seq<i32>) -> int
    decreases frame.len(),
{
    if frame.len() == 0 {
        0
    } else {
        spec_sum(frame.drop_last()) + frame.last()
    }
}

pub open spec fn spec_mean(frame: Seq<i32>) -> int {
    spec_sum(frame) / frame.len() as int
}

proof fn lemma_sum_bounds(frame: Seq<i32>)
    ensures
        i32::MIN * frame.len() <= spec_sum(frame) <= i32::MAX * frame.len(),
    decreases frame.len(),
{
    if frame.len() > 0 {
        lemma_sum_bounds(frame.drop_last());
        assert(i32::MIN * (frame.len() - 1) + i32::MIN == i32::MIN * frame.len()) by (nonlinear_arith);
        assert(i32::MAX * (frame.len() - 1) + i32::MAX == i32::MAX * frame.len()) by (nonlinear_arith);
    }
}

/// Mix one frame to mono: the arithmetic mean of its channels.
pub fn mix_frame(frame: &Vec<i32>) -> (r: i32)
    requires
        0 < frame@.len() <= 0x10000,
    ensures
        r == spec_mean(frame@),
{
    let n = frame.len();
    let mut sum: i64 = 0;
    let mut k: usize = 0;
    while k < n
        invariant
            n == frame@.len(),
            0 < n <= 0x10000,
            0 <= k <= n,
            sum == spec_sum(frame@.take(k as int)),
            i32::MIN * k <= sum <= i32::MAX * k,
        decreases n - k,
    {
        proof {
            assert(frame@.take(k + 1).drop_last() =~= frame@.take(k as int));
            assert(frame@.take(k + 1).last() == frame@[k as int]);
            assert(i32::MIN * (k + 1) == i32::MIN * k + i32::MIN) by (nonlinear_arith);
            assert(i32::MAX * (k + 1) == i32::MAX * k + i32::MAX) by (nonlinear_arith);
        }
        sum = sum + (frame[k] as i64);
        k += 1;
    }
    proof {
        assert(frame@.take(n as int) =~= frame@);
    }
    let len = n as i64;
    let q = if sum >= 0 {
        sum / len
    } else {
        -((-sum + len - 1) / len)
    };
    proof {
        lemma_floor_div(sum as int, len as int);
        assert(i32::MIN as int <= spec_mean(frame@) <= i32::MAX as int) by (nonlinear_arith)
            requires
                spec_mean(frame@) == (sum as int) / (n as int),
                i32::MIN * n <= sum <= i32::MAX * n,
                0 < n,
        ;
    }
    q as i32
}

/// Truncating machine division, corrected to the floor, matches the
/// mathematical (Euclidean) division for a positive divisor.
proof fn lemma_floor_div(a: int, b: int)
    requires
        b > 0,
    ensures
        a < 0 ==> a / b == -((-a + b - 1) / b),
{
    if a < 0 {
        vstd::arithmetic::div_mod::lemma_fundamental_div_mod(a, b);
        let q = a / b;
        let r = a % b;
        assert(a == b * q + r && 0 <= r < b);
        assert(-a + b - 1 == (-q) * b + (b - 1 - r)) by (nonlinear_arith)
            requires
                a == b * q + r,
        ;
        vstd::arithmetic::div_mod::lemma_fundamental_div_mod_converse(-a + b - 1, b, -q, b - 1 - r);
    }
}

/// The samples of channel-planar audio mixed to mono: element `i` of the
/// result is the mean of the channels' samples at `i`.
pub open spec fn frame_at(channels: Seq<Seq<i32>>, i: int) -> Seq<i32> {
    channels.map_values(|c: Seq<i32>| c[i])
}

/// Mix planar channel buffers to mono by arithmetic mean. All channels
/// carry the same number of samples.
pub fn mix_planar(channels: &Vec<Vec<i32>>) -> (r: Result<Vec<i32>, TranscribeError>)
    ensures
        (channels@.len() == 0 || channels@.len() > 0x10000 || exists|c: int|
            0 < c < channels@.len() && (#[trigger] channels@[c])@.len() != channels@[0]@.len())
            <==> r is Err,
        r matches Err(e) ==> e == TranscribeError::DecodeError,
        r matches Ok(v) ==> v@.len() == channels@[0]@.len() && forall|i: int|
            0 <= i < v@.len() ==> #[trigger] v@[i] == spec_mean(
                frame_at(channels@.map_values(|c: Vec<i32>| c@), i),
            ),
{
    if channels.len() == 0 || channels.len() > 0x10000 {
        return Err(TranscribeError::DecodeError);
    }
    let width = channels[0].len();
    let mut c: usize = 1;
    while c < channels.len()
        invariant
            channels@.len() > 0,
            width == channels@[0]@.len(),
            1 <= c <= channels@.len(),
            forall|j: int| 0 < j < c ==> (#[trigger] channels@[j])@.len() == width,
        decreases channels@.len() - c,
    {
        if channels[c].len() != width {
            return Err(TranscribeError::DecodeError);
        }
        c += 1;
    }
    let ghost cviews = channels@.map_values(|ch: Vec<i32>| ch@);
    let mut out: Vec<i32> = Vec::new();
    let mut i: usize = 0;
    while i < width
        invariant
            cviews == channels@.map_values(|ch: Vec<i32>| ch@),
            channels@.len() > 0,
            channels@.len() <= 0x10000,
            width == channels@[0]@.len(),
            forall|j: int| 0 <= j < channels@.len() ==> (#[trigger] channels@[j])@.len() == width,
            0 <= i <= width,
            out@.len() == i,
            forall|t: int|
                0 <= t < i ==> #[trigger] out@[t] == spec_mean(frame_at(cviews, t)),
        decreases width - i,
    {
        let mut frame: Vec<i32> = Vec::new();
        let mut c2: usize = 0;
        while c2 < channels.len()
            invariant
                cviews == channels@.map_values(|ch: Vec<i32>| ch@),
                channels@.len() > 0,
                width == channels@[0]@.len(),
                forall|j: int|
                    0 <= j < channels@.len() ==> (#[trigger] channels@[j])@.len() == width,
                0 <= i < width,
                0 <= c2 <= channels@.len(),
                frame@.len() == c2,
                forall|j: int| 0 <= j < c2 ==> #[trigger] frame@[j] == channels@[j]@[i as int],
            decreases channels@.len() - c2,
        {
            frame.push(channels[c2][i]);
            c2 += 1;
        }
        proof {
            assert(frame@ =~= frame_at(cviews, i as int));
        }
        let m = mix_frame(&frame);
        out.push(m);
        i += 1;
    }
    Ok(out)
}

} // verus!
