//! Level statistics over a sample buffer, for live metering.
use vstd::prelude::*;
use crate::dsp::FULL_SCALE;

verus! {

/// 100 percent, at the fixed-point scale of samples.
pub const FULL_PERCENT: u32 = 838860800;

/// Average absolute amplitude, peak absolute amplitude and the share of
/// silent samples, all at the fixed-point scale of samples (the silence
/// share is a percentage: `FULL_PERCENT` is 100%).
#[derive(Clone, Copy, Debug, PartialEq, Eq, Structural)]
pub struct AudioStats {
    pub average: u32,
    pub peak: u32,
    pub silence: u32,
}

pub open spec fn abs_int(x: int) -> int {
    if x < 0 { -x } else { x }
}

/// A sample is silent when its absolute value is below 0.01 of full scale.
pub open spec fn is_silent(x: i32) -> bool {
    abs_int(x as int) * 100 < FULL_SCALE as int
}

pub open spec fn abs_sum(s: Seq<i32>) -> int
    decreases s.len(),
{
    if s.len() == 0 {
        0
    } else {
        abs_sum(s.drop_last()) + abs_int(s.last() as int)
    }
}

pub open spec fn peak(s: Seq<i32>) -> int
    decreases s.len(),
{
    if s.len() == 0 {
        0
    } else {
        let p = peak(s.drop_last());
        let a = abs_int(s.last() as int);
        if a > p { a } else { p }
    }
}

pub open spec fn silent_count(s: Seq<i32>) -> int
    decreases s.len(),
{
    if s.len() == 0 {
        0
    } else {
        silent_count(s.drop_last()) + if is_silent(s.last()) { 1int } else { 0int }
    }
}

/// The statistics of `s` as `(average, peak, silence)`; an empty buffer
/// gives `(0, 0, 100%)` without dividing by zero. Divisions round down.
pub open spec fn stats_spec(s: Seq<i32>) -> (int, int, int) {
    if s.len() == 0 {
        (0, 0, FULL_PERCENT as int)
    } else {
        (
            abs_sum(s) / (s.len() as int),
            peak(s),
            silent_count(s) * (FULL_PERCENT as int) / (s.len() as int),
        )
    }
}

proof fn lemma_prefix_step(s: Seq<i32>, i: int)
    requires
        0 <= i < s.len(),
    ensures
        s.subrange(0, i + 1).drop_last() == s.subrange(0, i),
        s.subrange(0, i + 1).last() == s[i],
{
    assert(s.subrange(0, i + 1).drop_last() =~= s.subrange(0, i));
}

/// Computes the level statistics of `samples`.
pub fn compute_audio_stats(samples: &[i32]) -> (r: AudioStats)
    ensures
        (r.average as int, r.peak as int, r.silence as int) == stats_spec(samples@),
{
    let n: usize = samples.len();
    if n == 0 {
        return AudioStats { average: 0, peak: 0, silence: FULL_PERCENT };
    }
    let mut sum: u128 = 0;
    let mut top: u32 = 0;
    let mut silent: usize = 0;
    let mut i: usize = 0;
    while i < n
        invariant
            i <= n,
            n == samples@.len(),
            sum == abs_sum(samples@.subrange(0, i as int)),
            top == peak(samples@.subrange(0, i as int)),
            silent == silent_count(samples@.subrange(0, i as int)),
            sum <= i * 0x8000_0000,
            top <= 0x8000_0000,
            silent <= i,
        decreases n - i,
    {
        proof {
            lemma_prefix_step(samples@, i as int);
        }
        let x: i32 = samples[i];
        let a: u32 = if x < 0 { (-(x as i64)) as u32 } else { x as u32 };
        sum = sum + a as u128;
        if a > top {
            top = a;
        }
        if (a as u64) * 100 < FULL_SCALE as u64 {
            silent = silent + 1;
        }
        i = i + 1;
    }
    assert(samples@.subrange(0, n as int) =~= samples@);
    proof {
        assert((sum as int) / (n as int) <= 0x8000_0000) by (nonlinear_arith)
            requires
                sum <= n * 0x8000_0000,
                n > 0,
        ;
        assert((silent as int) * 838860800 / (n as int) <= 838860800) by (nonlinear_arith)
            requires
                silent <= n,
                n > 0,
        ;
    }
    let average: u32 = (sum / n as u128) as u32;
    let silence: u32 = ((silent as u128 * FULL_PERCENT as u128) / n as u128) as u32;
    AudioStats { average, peak: top, silence }
}

proof fn lemma_silent_prefix(s: Seq<i32>)
    requires
        forall|i: int| 0 <= i < s.len() ==> s[i] == 0,
    ensures
        abs_sum(s) == 0,
        peak(s) == 0,
        silent_count(s) == s.len(),
    decreases s.len(),
{
    if s.len() > 0 {
        let t = s.drop_last();
        assert forall|i: int| 0 <= i < t.len() implies t[i] == 0 by {
            assert(t[i] == s[i]);
        }
        lemma_silent_prefix(t);
    }
}

/// A buffer of nothing but zeros, of any length, and an empty buffer both
/// give average 0, peak 0 and 100% silence.
pub proof fn lemma_silence_stats(s: Seq<i32>)
    requires
        forall|i: int| 0 <= i < s.len() ==> s[i] == 0,
    ensures
        stats_spec(s) == (0int, 0int, FULL_PERCENT as int),
{
    lemma_silent_prefix(s);
    if s.len() > 0 {
        let n = s.len() as int;
        assert(n * (FULL_PERCENT as int) / n == FULL_PERCENT as int) by (nonlinear_arith)
            requires
                n > 0,
        ;
    }
}

} // verus!
