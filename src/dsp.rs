//! Sample normalisation: mono downmix and linear-interpolation resampling.
//!
//! Samples are fixed-point: the value 1.0 is held as `FULL_SCALE`. Every
//! division rounds toward negative infinity, so results are exact functions
//! of the integer inputs.
use vstd::prelude::*;

verus! {

/// The fixed-point value of a full-scale (1.0) sample.
pub const FULL_SCALE: i32 = 8388608;

/// The rate, in Hz, that every captured chunk is normalised to.
pub const TARGET_SAMPLE_RATE: u32 = 16000;

/// Floor division of a signed value by a positive divisor.
pub fn floor_div(n: i128, d: i128) -> (r: i128)
    requires
        d > 0,
        -0x1_0000_0000_0000_0000_0000 < n < 0x1_0000_0000_0000_0000_0000,
        d < 0x1_0000_0000_0000_0000_0000,
    ensures
        r == n / d,
{
    if n >= 0 {
        n / d
    } else {
        let m: i128 = -n;
        let q: i128 = (m + d - 1) / d;
        proof {
            let ni = n as int;
            let di = d as int;
            let qi = q as int;
            assert(qi == (-ni + di - 1) / di);
            assert(-qi == ni / di) by (nonlinear_arith)
                requires
                    qi == (-ni + di - 1) / di,
                    di > 0,
                    ni < 0,
            ;
        }
        -q
    }
}

/// Linear blend of `a` and `b` at position `num / den` from `a` toward `b`.
pub open spec fn lerp(a: int, b: int, num: int, den: int) -> int {
    (a * (den - num) + b * num) / den
}

pub open spec fn min_int(a: int, b: int) -> int {
    if a <= b { a } else { b }
}

pub open spec fn max_int(a: int, b: int) -> int {
    if a <= b { b } else { a }
}

proof fn lemma_lerp_bounds(a: int, b: int, num: int, den: int)
    requires
        den > 0,
        0 <= num < den,
    ensures
        min_int(a, b) <= lerp(a, b, num, den) <= max_int(a, b),
        num == 0 ==> lerp(a, b, num, den) == a,
{
    let lo = min_int(a, b);
    let hi = max_int(a, b);
    let n = a * (den - num) + b * num;
    assert(lo * den <= n <= hi * den) by (nonlinear_arith)
        requires
            n == a * (den - num) + b * num,
            lo <= a <= hi,
            lo <= b <= hi,
            0 <= num < den,
    ;
    assert(lo <= n / den <= hi) by (nonlinear_arith)
        requires
            lo * den <= n <= hi * den,
            den > 0,
    ;
    if num == 0 {
        assert(n == a * den) by (nonlinear_arith)
            requires
                n == a * (den - num) + b * num,
                num == 0,
        ;
        assert(n / den == a) by (nonlinear_arith)
            requires
                n == a * den,
                den > 0,
        ;
    }
}

/// Executable form of `lerp` on samples.
fn lerp_sample(a: i32, b: i32, num: u32, den: u32) -> (r: i32)
    requires
        den > 0,
        num < den,
    ensures
        r == lerp(a as int, b as int, num as int, den as int),
        min_int(a as int, b as int) <= r <= max_int(a as int, b as int),
{
    let wa: i128 = (den - num) as i128;
    let wb: i128 = num as i128;
    proof {
        assert(-0x8000_0000 * 0x1_0000_0000 <= (a as int) * wa <= 0x8000_0000 * 0x1_0000_0000)
            by (nonlinear_arith)
            requires
                -0x8000_0000 <= a < 0x8000_0000,
                0 <= wa <= 0x1_0000_0000,
        ;
        assert(-0x8000_0000 * 0x1_0000_0000 <= (b as int) * wb <= 0x8000_0000 * 0x1_0000_0000)
            by (nonlinear_arith)
            requires
                -0x8000_0000 <= b < 0x8000_0000,
                0 <= wb <= 0x1_0000_0000,
        ;
        lemma_lerp_bounds(a as int, b as int, num as int, den as int);
    }
    let n: i128 = a as i128 * wa + b as i128 * wb;
    let q: i128 = floor_div(n, den as i128);
    q as i32
}

/// Length of `s` resampled from `from` Hz to `to` Hz: `floor(len * to / from)`.
pub open spec fn resampled_len(len: nat, from: nat, to: nat) -> nat {
    if from == to {
        len
    } else {
        len * to / from
    }
}

/// Output sample `i` of a resampling from `from` Hz to `to` Hz: the source
/// position is `i * from / to`, split into an index and a fraction.
pub open spec fn resampled_at(s: Seq<i32>, from: nat, to: nat, i: int) -> int {
    let idx = (i * from) / (to as int);
    let frac = (i * from) % (to as int);
    if idx + 1 < s.len() {
        lerp(s[idx] as int, s[idx + 1] as int, frac, to as int)
    } else {
        s[idx] as int
    }
}

/// Linear-interpolation resampling of a mono sequence.
pub open spec fn resample_spec(s: Seq<i32>, from: nat, to: nat) -> Seq<i32> {
    if from == to {
        s
    } else {
        Seq::new(resampled_len(s.len(), from, to), |i: int| resampled_at(s, from, to, i) as i32)
    }
}

/// Every sample of `s` lies in `[lo, hi]`.
pub open spec fn within(s: Seq<i32>, lo: int, hi: int) -> bool {
    forall|i: int| 0 <= i < s.len() ==> lo <= #[trigger] s[i] <= hi
}

proof fn lemma_source_index(i: int, len: int, from: int, to: int)
    requires
        from > 0,
        to > 0,
        0 <= i < len * to / from,
        len >= 0,
    ensures
        0 <= (i * from) / to < len,
        0 <= (i * from) % to < to,
{
    assert((i + 1) * from <= len * to) by (nonlinear_arith)
        requires
            0 <= i < len * to / from,
            from > 0,
            len >= 0,
            to > 0,
    ;
    assert(0 <= (i * from) / to < len) by (nonlinear_arith)
        requires
            (i + 1) * from <= len * to,
            from > 0,
            to > 0,
            i >= 0,
    ;
}

/// Converts mono `samples` from `from_rate` Hz to `to_rate` Hz by linear
/// interpolation between the two nearest source samples. Equal rates give
/// the input back unchanged. This trades fidelity for simplicity: it is
/// adequate for speech recognition, not for broadcast audio.
pub fn resample(samples: &[i32], from_rate: u32, to_rate: u32) -> (r: Vec<i32>)
    requires
        from_rate == to_rate || from_rate > 0,
        resampled_len(samples@.len(), from_rate as nat, to_rate as nat) <= usize::MAX,
    ensures
        r@ == resample_spec(samples@, from_rate as nat, to_rate as nat),
        to_rate < from_rate ==> r@.len() <= samples@.len(),
        to_rate > from_rate ==> r@.len() >= samples@.len(),
{
    proof {
        if from_rate > 0 {
            lemma_resample_length_monotonic(samples@, from_rate as nat, to_rate as nat);
        }
    }
    if from_rate == to_rate {
        return vstd::slice::slice_to_vec(samples);
    }
    let n: usize = samples.len();
    proof {
        assert((n as int) * (to_rate as int) <= 0x1_0000_0000_0000_0000 * 0x1_0000_0000)
            by (nonlinear_arith)
            requires
                0 <= n <= 0x1_0000_0000_0000_0000,
                0 <= to_rate <= 0x1_0000_0000,
        ;
    }
    let prod: u128 = n as u128 * to_rate as u128;
    let new_len_wide: u128 = prod / from_rate as u128;
    let new_len: usize = new_len_wide as usize;
    let ghost spec_out = resample_spec(samples@, from_rate as nat, to_rate as nat);
    let mut out: Vec<i32> = Vec::with_capacity(new_len);
    let mut i: usize = 0;
    while i < new_len
        invariant
            i <= new_len,
            new_len == resampled_len(n as nat, from_rate as nat, to_rate as nat),
            from_rate != to_rate,
            from_rate > 0,
            n == samples@.len(),
            spec_out == resample_spec(samples@, from_rate as nat, to_rate as nat),
            out@.len() == i,
            forall|j: int| 0 <= j < i ==> out@[j] == spec_out[j],
        decreases new_len - i,
    {
        proof {
            lemma_source_index(i as int, n as int, from_rate as int, to_rate as int);
        }
        proof {
            assert((i as int) * (from_rate as int) <= 0x1_0000_0000_0000_0000 * 0x1_0000_0000)
                by (nonlinear_arith)
                requires
                    0 <= i <= 0x1_0000_0000_0000_0000,
                    0 <= from_rate <= 0x1_0000_0000,
            ;
        }
        let pos: u128 = i as u128 * from_rate as u128;
        let idx: usize = (pos / to_rate as u128) as usize;
        let frac: u32 = (pos % to_rate as u128) as u32;
        let v: i32 = if idx + 1 < n {
            lerp_sample(samples[idx], samples[idx + 1], frac, to_rate)
        } else {
            samples[idx]
        };
        out.push(v);
        i = i + 1;
    }
    assert(out@ =~= spec_out);
    out
}

/// Sum of the `k` samples of `s` that start at `start`.
pub open spec fn frame_sum(s: Seq<i32>, start: int, k: nat) -> int
    decreases k,
{
    if k == 0 {
        0
    } else {
        frame_sum(s, start, (k - 1) as nat) + s[start + k - 1] as int
    }
}

/// Mono downmix: each whole frame of `channels` interleaved samples becomes
/// the mean of its channels; a trailing partial frame is dropped. One
/// channel (or none) leaves the input as it is.
pub open spec fn to_mono_spec(s: Seq<i32>, channels: nat) -> Seq<i32> {
    if channels <= 1 {
        s
    } else {
        Seq::new(
            s.len() / channels,
            |f: int| (frame_sum(s, f * channels, channels) / (channels as int)) as i32,
        )
    }
}

proof fn lemma_frame_sum_bounds(s: Seq<i32>, start: int, k: nat, lo: int, hi: int)
    requires
        0 <= start,
        start + k <= s.len(),
        forall|i: int| start <= i < start + k ==> lo <= #[trigger] s[i] <= hi,
    ensures
        k * lo <= frame_sum(s, start, k) <= k * hi,
    decreases k,
{
    if k > 0 {
        lemma_frame_sum_bounds(s, start, (k - 1) as nat, lo, hi);
        assert(lo <= s[start + k - 1] <= hi);
        assert(k * lo == (k - 1) * lo + lo) by (nonlinear_arith);
        assert(k * hi == (k - 1) * hi + hi) by (nonlinear_arith);
    }
}

proof fn lemma_mean_bounds(sum: int, k: int, lo: int, hi: int)
    requires
        k > 0,
        k * lo <= sum <= k * hi,
    ensures
        lo <= sum / k <= hi,
{
    assert(lo <= sum / k <= hi) by (nonlinear_arith)
        requires
            k > 0,
            k * lo <= sum <= k * hi,
    ;
}

proof fn lemma_frame_in_range(f: int, c: int, len: int)
    requires
        c > 0,
        0 <= f < len / c,
    ensures
        0 <= f * c,
        f * c + c <= len,
{
    assert(0 <= f * c && f * c + c <= len) by (nonlinear_arith)
        requires
            c > 0,
            0 <= f < len / c,
    ;
}

/// Collapses interleaved multi-channel `samples` to mono by averaging the
/// channels of each whole frame; a trailing partial frame is dropped.
pub fn to_mono(samples: &[i32], channel_count: u16) -> (r: Vec<i32>)
    ensures
        r@ == to_mono_spec(samples@, channel_count as nat),
{
    if channel_count <= 1 {
        return vstd::slice::slice_to_vec(samples);
    }
    let c: usize = channel_count as usize;
    let n: usize = samples.len();
    let frames: usize = n / c;
    let ghost spec_out = to_mono_spec(samples@, c as nat);
    let mut out: Vec<i32> = Vec::with_capacity(frames);
    let mut f: usize = 0;
    while f < frames
        invariant
            f <= frames,
            frames == n / c,
            c == channel_count,
            c > 1,
            n == samples@.len(),
            spec_out == to_mono_spec(samples@, c as nat),
            out@.len() == f,
            forall|j: int| 0 <= j < f ==> out@[j] == spec_out[j],
        decreases frames - f,
    {
        proof {
            lemma_frame_in_range(f as int, c as int, n as int);
        }
        let start: usize = f * c;
        let mut sum: i64 = 0;
        let mut k: usize = 0;
        while k < c
            invariant
                k <= c,
                c <= 0xffff,
                start + c <= n,
                n == samples@.len(),
                sum == frame_sum(samples@, start as int, k as nat),
                -0x8000_0000 * k <= sum <= 0x8000_0000 * k,
            decreases c - k,
        {
            sum = sum + samples[start + k] as i64;
            k = k + 1;
        }
        proof {
            lemma_frame_sum_bounds(samples@, start as int, c as nat, i32::MIN as int, i32::MAX as int);
            lemma_mean_bounds(sum as int, c as int, i32::MIN as int, i32::MAX as int);
        }
        let mean: i128 = floor_div(sum as i128, c as i128);
        out.push(mean as i32);
        f = f + 1;
    }
    assert(out@ =~= spec_out);
    out
}

/// A captured chunk normalised for transcription: downmixed to mono, then
/// resampled from the device rate to `TARGET_SAMPLE_RATE`.
pub open spec fn normalize_spec(s: Seq<i32>, channels: nat, rate: nat) -> Seq<i32> {
    resample_spec(to_mono_spec(s, channels), rate, TARGET_SAMPLE_RATE as nat)
}

proof fn lemma_to_mono_len(s: Seq<i32>, channels: nat)
    ensures
        to_mono_spec(s, channels).len() <= s.len(),
{
    if channels > 1 {
        assert(s.len() / channels <= s.len()) by (nonlinear_arith)
            requires
                channels > 1,
        ;
    }
}

/// Normalises one chunk delivered by a capture device at `sample_rate` Hz
/// with `channel_count` interleaved channels.
pub fn normalize_chunk(data: &[i32], channel_count: u16, sample_rate: u32) -> (r: Vec<i32>)
    requires
        sample_rate > 0,
        resampled_len(data@.len(), sample_rate as nat, TARGET_SAMPLE_RATE as nat) <= usize::MAX,
    ensures
        r@ == normalize_spec(data@, channel_count as nat, sample_rate as nat),
{
    let mono = to_mono(data, channel_count);
    proof {
        lemma_to_mono_len(data@, channel_count as nat);
        let m = mono@.len() as int;
        let d = data@.len() as int;
        if sample_rate != TARGET_SAMPLE_RATE {
            assert(m * 16000 / (sample_rate as int) <= d * 16000 / (sample_rate as int))
                by (nonlinear_arith)
                requires
                    m <= d,
                    sample_rate > 0,
            ;
        }
    }
    resample(mono.as_slice(), sample_rate, TARGET_SAMPLE_RATE)
}

/// Resampling to the rate a sequence already has gives it back unchanged.
pub proof fn lemma_resample_identity(s: Seq<i32>, rate: nat)
    ensures
        resample_spec(s, rate, rate) == s,
{
}

/// Resampling down never lengthens a sequence, and resampling up never
/// shortens it.
pub proof fn lemma_resample_length_monotonic(s: Seq<i32>, from: nat, to: nat)
    requires
        from > 0,
    ensures
        to < from ==> resample_spec(s, from, to).len() <= s.len(),
        to > from ==> resample_spec(s, from, to).len() >= s.len(),
{
    let n = s.len();
    if to < from {
        assert(n * to / from <= n) by (nonlinear_arith)
            requires
                to < from,
                from > 0,
        ;
    }
    if to > from {
        assert(n * to / from >= n) by (nonlinear_arith)
            requires
                to > from,
                from > 0,
        ;
    }
}

/// Downmixing a single-channel sequence gives it back unchanged.
pub proof fn lemma_to_mono_identity(s: Seq<i32>)
    ensures
        to_mono_spec(s, 1) == s,
{
}

/// A downmix stays within any bounds that hold for all its input samples.
pub proof fn lemma_to_mono_within(s: Seq<i32>, channels: nat, lo: int, hi: int)
    requires
        within(s, lo, hi),
    ensures
        within(to_mono_spec(s, channels), lo, hi),
{
    if channels > 1 {
        let m = to_mono_spec(s, channels);
        assert forall|f: int| 0 <= f < m.len() implies lo <= #[trigger] m[f] <= hi by {
            lemma_frame_in_range(f, channels as int, s.len() as int);
            lemma_frame_sum_bounds(s, f * channels, channels, lo, hi);
            lemma_mean_bounds(frame_sum(s, f * channels, channels), channels as int, lo, hi);
            lemma_frame_sum_bounds(s, f * channels, channels, i32::MIN as int, i32::MAX as int);
            lemma_mean_bounds(
                frame_sum(s, f * channels, channels),
                channels as int,
                i32::MIN as int,
                i32::MAX as int,
            );
        }
    }
}

/// A resampling stays within any bounds that hold for all its input samples.
pub proof fn lemma_resample_within(s: Seq<i32>, from: nat, to: nat, lo: int, hi: int)
    requires
        from > 0,
        within(s, lo, hi),
    ensures
        within(resample_spec(s, from, to), lo, hi),
{
    if from != to {
        let r = resample_spec(s, from, to);
        assert forall|i: int| 0 <= i < r.len() implies lo <= #[trigger] r[i] <= hi by {
            lemma_source_index(i, s.len() as int, from as int, to as int);
            let idx = (i * from) / (to as int);
            let frac = (i * from) % (to as int);
            if idx + 1 < s.len() {
                lemma_lerp_bounds(s[idx] as int, s[idx + 1] as int, frac, to as int);
            }
        }
    }
}

/// A normalised chunk stays within any bounds (such as full scale) that
/// hold for all the samples the device delivered.
pub proof fn lemma_normalize_within(s: Seq<i32>, channels: nat, rate: nat, lo: int, hi: int)
    requires
        rate > 0,
        within(s, lo, hi),
    ensures
        within(normalize_spec(s, channels, rate), lo, hi),
{
    lemma_to_mono_within(s, channels, lo, hi);
    lemma_resample_within(to_mono_spec(s, channels), rate, TARGET_SAMPLE_RATE as nat, lo, hi);
}

/// A mono chunk delivered at the target rate is appended exactly as it came.
pub proof fn lemma_normalize_identity(s: Seq<i32>)
    ensures
        normalize_spec(s, 1, TARGET_SAMPLE_RATE as nat) == s,
{
}

/// A 48 kHz stereo chunk of a whole number of three-frame groups gives one
/// sample for every six it holds.
pub proof fn lemma_normalize_stereo_len(s: Seq<i32>)
    requires
        s.len() % 6 == 0,
    ensures
        normalize_spec(s, 2, 48000).len() * 6 == s.len(),
{
    let n = s.len() as int;
    assert((n / 2) * 16000 / 48000 * 6 == n) by (nonlinear_arith)
        requires
            n % 6 == 0,
            n >= 0,
    ;
}

} // verus!
