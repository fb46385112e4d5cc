use audio_capture::dsp::FULL_SCALE;
use audio_capture::stats::{compute_audio_stats, AudioStats, FULL_PERCENT};

#[test]
fn silence_stats_all_zero() {
    let s = vec![0; 1234];
    assert_eq!(compute_audio_stats(&s), AudioStats { average: 0, peak: 0, silence: FULL_PERCENT });
}

#[test]
fn silence_stats_empty() {
    assert_eq!(compute_audio_stats(&[]), AudioStats { average: 0, peak: 0, silence: FULL_PERCENT });
}

#[test]
fn stats_exact_values() {
    let s = vec![FULL_SCALE, -FULL_SCALE / 2, 0, 1000];
    let st = compute_audio_stats(&s);
    assert_eq!(st.average, ((8388608u64 + 4194304 + 1000) / 4) as u32);
    assert_eq!(st.peak, FULL_SCALE as u32);
    assert_eq!(st.silence, FULL_PERCENT / 2);
    assert_eq!(FULL_PERCENT, 100 * FULL_SCALE as u32);
}

#[test]
fn stats_silence_threshold_and_min_sample() {
    // 0.01 of full scale is 83886.08: 83886 is silent, 83887 is not.
    let st = compute_audio_stats(&[83886, -83887, i32::MIN]);
    assert_eq!(st.silence, FULL_PERCENT / 3);
    assert_eq!(st.peak, 2147483648u32);
}
