use audio_capture::dsp::{normalize_chunk, resample, to_mono, FULL_SCALE, TARGET_SAMPLE_RATE};

const FS: i32 = FULL_SCALE;

#[test]
fn resample_same_rate_is_identity() {
    let s = vec![1, -7, 300, FS, -FS, 0];
    assert_eq!(resample(&s, 44100, 44100), s);
    assert_eq!(resample(&[], 16000, 16000), Vec::<i32>::new());
}

#[test]
fn resample_down_is_not_longer() {
    let s: Vec<i32> = (0..1000).collect();
    let r = resample(&s, 48000, 16000);
    assert_eq!(r.len(), 333);
    assert!(r.len() <= s.len());
    assert_eq!(r[0], 0);
    assert_eq!(r[1], 3);
    assert_eq!(r[332], 996);
}

#[test]
fn resample_up_is_not_shorter() {
    let s = vec![0, 100];
    let r = resample(&s, 1, 2);
    assert_eq!(r, vec![0, 50, 100, 100]);
    assert!(r.len() >= s.len());
}

#[test]
fn resample_rounds_down() {
    assert_eq!(resample(&[-1, 0], 1, 2), vec![-1, -1, 0, 0]);
    assert_eq!(resample(&[0, 10], 2, 3), vec![0, 6, 10]);
}

#[test]
fn resample_empty_input() {
    assert_eq!(resample(&[], 44100, 16000), Vec::<i32>::new());
    assert_eq!(resample(&[], 8000, 16000), Vec::<i32>::new());
}

#[test]
fn to_mono_single_channel_is_identity() {
    let s = vec![5, -5, 9];
    assert_eq!(to_mono(&s, 1), s);
    assert_eq!(to_mono(&s, 0), s);
}

#[test]
fn to_mono_averages_stereo() {
    let s = vec![FS, -FS, FS / 2, FS / 2];
    assert_eq!(to_mono(&s, 2), vec![0, FS / 2]);
}

#[test]
fn to_mono_drops_partial_frame() {
    assert_eq!(to_mono(&[1, 2, 3], 2), vec![1]);
    assert_eq!(to_mono(&[3, 4, 5, -1, -2, -4, 7], 3), vec![4, -3]);
}

#[test]
fn normalize_chunk_downmixes_then_resamples() {
    let data = vec![10, 20, 30, 40, 50, 60, 70, 80];
    assert_eq!(normalize_chunk(&data, 2, 32000), vec![15, 55]);
    assert_eq!(normalize_chunk(&data, 1, TARGET_SAMPLE_RATE), data);
}
