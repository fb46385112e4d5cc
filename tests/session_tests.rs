use std::sync::{Arc, Mutex};

use audio_capture::capture::{find_device, system_audio_delta, AudioRecorder, CaptureError, SYSTEM_AUDIO_CAPACITY};
use audio_capture::dsp::FULL_SCALE;

#[test]
fn double_start_fails_and_keeps_buffer() {
    let mut r = AudioRecorder::new();
    assert_eq!(r.start_recording(), Ok(()));
    r.append_samples(&[1, 2, 3]);
    assert_eq!(r.start_recording(), Err(CaptureError::AlreadyRecording));
    assert_eq!(r.get_audio_buffer(), vec![1, 2, 3]);
    assert!(r.is_recording());
}

#[test]
fn stop_without_start_fails() {
    let mut r = AudioRecorder::new();
    assert_eq!(r.stop_recording(), Err(CaptureError::NotRecording));
    assert!(!r.is_recording());
}

#[test]
fn restart_clears_buffer() {
    let mut r = AudioRecorder::new();
    r.start_recording().unwrap();
    r.append_samples(&[4, 5, 6, 7]);
    r.stop_recording().unwrap();
    assert_eq!(r.buffer_len(), 4);
    r.start_recording().unwrap();
    assert_eq!(r.buffer_len(), 0);
}

#[test]
fn error_messages() {
    assert_eq!(CaptureError::AlreadyRecording.message(), "Already recording");
    assert_eq!(CaptureError::NotRecording.message(), "Not recording");
    assert_eq!(CaptureError::DeviceUnavailable.message(), "Audio device unavailable");
    assert!(CaptureError::PermissionDenied.message().contains("Screen Recording permission"));
    assert_eq!(CaptureError::BackendStartFailure.message(), "Audio capture failed to start");
    assert_eq!(CaptureError::StreamRuntimeError.message(), "Audio stream error");
}

#[test]
fn concurrent_appends_keep_whole_chunks() {
    // Producers share the recorder through one lock and take turns winning
    // it; each appends one chunk of known samples per turn.
    let producers: i32 = 8;
    let chunks: i32 = 50;
    let chunk_len: i32 = 10;
    let shared = Arc::new(Mutex::new(AudioRecorder::new()));
    shared.lock().unwrap().start_recording().unwrap();
    let handles: Vec<Arc<Mutex<AudioRecorder>>> = (0..producers).map(|_| shared.clone()).collect();
    for c in 0..chunks {
        for p in 0..producers {
            let order = if c % 2 == 0 { p } else { producers - 1 - p };
            let chunk: Vec<i32> = (0..chunk_len).map(|k| order * 1_000_000 + c * chunk_len + k).collect();
            handles[order as usize].lock().unwrap().append_samples(&chunk);
        }
    }
    let buf = shared.lock().unwrap().get_audio_buffer();
    assert_eq!(buf.len(), (producers * chunks * chunk_len) as usize);
    for (i, piece) in buf.chunks(chunk_len as usize).enumerate() {
        let owner = piece[0] / 1_000_000;
        let base = piece[0];
        assert_eq!(base % chunk_len, 0, "chunk {} starts mid-chunk", i);
        for (k, v) in piece.iter().enumerate() {
            assert_eq!(*v, base + k as i32);
            assert_eq!(v / 1_000_000, owner);
        }
    }
    for p in 0..producers {
        let mine: Vec<i32> = buf.iter().copied().filter(|v| v / 1_000_000 == p).collect();
        let expected: Vec<i32> = (0..chunks * chunk_len).map(|k| p * 1_000_000 + k).collect();
        assert_eq!(mine, expected);
    }
}

#[test]
fn end_to_end_one_second_of_stereo() {
    let mut r = AudioRecorder::new();
    r.start_recording().unwrap();
    let mut data = Vec::new();
    for frame in 0..48000 {
        let v = if frame % 2 == 0 { FULL_SCALE } else { -FULL_SCALE };
        data.push(v);
        data.push(v);
    }
    r.append_chunk(&data, 2, 48000);
    r.stop_recording().unwrap();
    let buf = r.get_audio_buffer();
    assert!((15999..=16001).contains(&buf.len()));
    assert!(buf.iter().all(|&s| -FULL_SCALE <= s && s <= FULL_SCALE));
    assert_eq!(buf[0], FULL_SCALE);
    assert_eq!(buf[1], -FULL_SCALE);
}

#[test]
fn appends_after_stop_still_land() {
    let mut r = AudioRecorder::new();
    r.start_recording().unwrap();
    r.stop_recording().unwrap();
    r.append_samples(&[9]);
    assert_eq!(r.get_audio_buffer(), vec![9]);
}

#[test]
fn input_device_selection() {
    let mut r = AudioRecorder::new();
    assert_eq!(r.get_input_device(), None);
    r.set_input_device(Some("input_2".to_string()));
    assert_eq!(r.get_input_device(), Some("input_2".to_string()));
    r.start_recording().unwrap();
    r.stop_recording().unwrap();
    assert_eq!(r.get_input_device(), Some("input_2".to_string()));
    r.set_input_device(None);
    assert_eq!(r.get_input_device(), None);
}

#[test]
fn system_audio_polling() {
    assert_eq!(system_audio_delta(0, 100), Some((0, 100)));
    assert_eq!(system_audio_delta(100, 100), None);
    assert_eq!(system_audio_delta(100, 50), None);
    assert_eq!(system_audio_delta(0, -5), None);
    assert_eq!(system_audio_delta(9_599_990, 10_000_000), Some((9_599_990, SYSTEM_AUDIO_CAPACITY)));
    assert_eq!(system_audio_delta(SYSTEM_AUDIO_CAPACITY, i32::MAX), None);
}

#[test]
fn device_listing_positional_ids() {
    let names = vec![Some("Built-in Mic".to_string()), None, Some("USB Mic".to_string())];
    let devs = AudioRecorder::list_input_devices(&names, &Some("USB Mic".to_string()));
    assert_eq!(devs.len(), 2);
    assert_eq!(devs[0].id, "input_0");
    assert_eq!(devs[0].name, "Built-in Mic");
    assert!(!devs[0].is_default);
    assert_eq!(devs[1].id, "input_2");
    assert_eq!(devs[1].name, "USB Mic");
    assert!(devs[1].is_default);
}

#[test]
fn device_listing_many_outputs() {
    let names: Vec<Option<String>> = (0..13).map(|i| Some(format!("Speaker {}", i))).collect();
    let devs = AudioRecorder::list_output_devices(&names, &None);
    assert_eq!(devs.len(), 13);
    assert_eq!(devs[12].id, "output_12");
    assert!(devs.iter().all(|d| !d.is_default));
    assert!(AudioRecorder::list_output_devices(&vec![], &None).is_empty());
}

#[test]
fn end_to_end_one_second_in_many_chunks() {
    let mut r = AudioRecorder::new();
    r.start_recording().unwrap();
    // 16 chunks of 3000 stereo frames: 1 s at 48 kHz.
    let mut expected_len = 0;
    for c in 0..16 {
        let mut data = Vec::new();
        for frame in 0..3000 {
            let v = if (c * 3000 + frame) % 2 == 0 { FULL_SCALE } else { -FULL_SCALE };
            data.push(v);
            data.push(v);
        }
        r.append_chunk(&data, 2, 48000);
        expected_len += 1000;
    }
    r.stop_recording().unwrap();
    let buf = r.get_audio_buffer();
    assert_eq!(buf.len(), expected_len);
    assert_eq!(buf.len(), 16000);
    assert!(buf.iter().all(|&s| -FULL_SCALE <= s && s <= FULL_SCALE));
}

#[test]
fn mono_chunk_at_target_rate_is_appended_as_is() {
    let mut r = AudioRecorder::new();
    r.start_recording().unwrap();
    r.append_samples(&[5]);
    r.append_chunk(&[1, -2, 3], 1, 16000);
    assert_eq!(r.get_audio_buffer(), vec![5, 1, -2, 3]);
}

#[test]
fn selected_device_lookup() {
    let names = vec![Some("A".to_string()), None, Some("B".to_string())];
    let devs = AudioRecorder::list_input_devices(&names, &None);
    assert_eq!(find_device(&devs, "input_2"), Some(1));
    assert_eq!(find_device(&devs, "input_0"), Some(0));
    assert_eq!(find_device(&devs, "input_1"), None);
}
