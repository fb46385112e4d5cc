use audio_capture::capture::CaptureError;
use audio_capture::host::{computer_name_candidate, environment_name_candidate, fallback_hostname, hostname_candidate, is_ip_address, trim_whitespace};
use audio_capture::models::{
    downloaded_quality, expected_folder_name, find_model, get_available_models, is_archive_url, is_parakeet_model,
    is_whisper_model, model_file_name,
};
use audio_capture::state::{is_valid_license_key, permission_status, AppState, FREE_RECORDING_LIMIT_MS};
use audio_capture::transcription::{join_segments, no_model_transcript, transcription_input, ParakeetTranscriber, PLACEHOLDER_SAMPLES};

#[test]
fn catalog_lists_seven_models() {
    let m = get_available_models();
    let ids: Vec<&str> = m.iter().map(|x| x.id.as_str()).collect();
    assert_eq!(
        ids,
        vec!["whisper-tiny", "whisper-base", "whisper-small", "whisper-medium", "whisper-large-v3", "parakeet-ctc-0.6b", "parakeet-tdt-0.6b"]
    );
    assert_eq!(m[0].url, "https://huggingface.co/ggerganov/whisper.cpp/resolve/main/ggml-tiny.bin");
    assert_eq!(m[3].size, "1.5 GB");
    assert_eq!(m[6].name, "Parakeet TDT 0.6B (Multilingual)");
}

#[test]
fn model_kinds() {
    assert!(is_whisper_model("whisper-tiny"));
    assert!(!is_whisper_model("whisper"));
    assert!(is_parakeet_model("parakeet-ctc-0.6b"));
    assert!(!is_parakeet_model("whisper-base"));
    assert!(!is_parakeet_model(""));
}

#[test]
fn model_storage_names() {
    assert_eq!(model_file_name("whisper-large-v3"), "ggml-large-v3.bin");
    assert_eq!(model_file_name("parakeet-ctc-0.6b"), "parakeet-ctc-0.6b");
    assert_eq!(model_file_name("other"), "other");
    assert_eq!(expected_folder_name("parakeet-ctc-0.6b"), "sherpa-onnx-nemo-parakeet-ctc-0.6b-en-2024-03-04");
    assert_eq!(expected_folder_name("parakeet-tdt-0.6b"), "sherpa-onnx-nemo-parakeet-tdt-0.6b-v3-int8");
    assert_eq!(expected_folder_name("whisper-tiny"), "");
}

#[test]
fn model_lookup_and_archives() {
    let m = get_available_models();
    assert_eq!(find_model(&m, "whisper-small"), Some(2));
    assert_eq!(find_model(&m, "nope"), None);
    assert!(is_archive_url(&m[5].url));
    assert!(!is_archive_url(&m[0].url));
    assert_eq!(downloaded_quality("Dengeli"), "Dengeli (İndirildi)");
}

#[test]
fn ip_address_check() {
    assert!(is_ip_address("192.168.1.10"));
    assert!(is_ip_address(""));
    assert!(!is_ip_address("my-laptop"));
    assert!(!is_ip_address("10.0.0.a"));
}

#[test]
fn hostname_cleanup() {
    assert_eq!(trim_whitespace("  host \n"), "host");
    assert_eq!(trim_whitespace("\u{3000}x y\u{a0}"), "x y");
    assert_eq!(fallback_hostname(Some(" laptop.example.com \n")), "laptop");
    assert_eq!(fallback_hostname(Some("10.0.0.1")), "unknown-device");
    assert_eq!(fallback_hostname(Some("   ")), "unknown-device");
    assert_eq!(fallback_hostname(None), "unknown-device");
    assert_eq!(computer_name_candidate("Ada's Mac\n"), Some("Ada's Mac".to_string()));
    assert_eq!(computer_name_candidate("mac.local"), None);
    assert_eq!(computer_name_candidate("  "), None);
    assert_eq!(hostname_candidate("DESKTOP-1.corp\r\n"), Some("DESKTOP-1".to_string()));
    assert_eq!(hostname_candidate("127.0.0.1"), None);
    assert_eq!(environment_name_candidate("DESKTOP-7"), Some("DESKTOP-7".to_string()));
    assert_eq!(environment_name_candidate(""), None);
    assert_eq!(environment_name_candidate("1.2.3.4"), None);
}

#[test]
fn transcription_placeholder_input() {
    let v = transcription_input(vec![]);
    assert_eq!(v.len(), PLACEHOLDER_SAMPLES);
    assert_eq!(PLACEHOLDER_SAMPLES, 16000 * 5);
    assert!(v.iter().all(|&s| s == 0));
    assert_eq!(transcription_input(vec![3, 4]), vec![3, 4]);
    assert_eq!(no_model_transcript(), "Kayıt durduruldu. Model yüklenmemiş, transkript yok.");
}

#[test]
fn segments_are_joined() {
    let segs = vec!["Merhaba".to_string(), "dünya".to_string()];
    assert_eq!(join_segments(&segs), "Merhaba dünya ");
    assert_eq!(join_segments(&vec![]), "");
}

#[test]
fn parakeet_placeholder() {
    let mut t = ParakeetTranscriber::new("/models/parakeet-ctc-0.6b").unwrap();
    assert_eq!(t.transcribe(&[0, 1]).unwrap(), "Parakeet transcription placeholder for model: /models/parakeet-ctc-0.6b");
}

#[test]
fn coordinator_timer_and_limit() {
    let mut s = AppState::new();
    assert_eq!(s.get_recording_duration(5000), 0);
    assert!(!s.check_recording_limit(5000));
    assert_eq!(s.start_recording(1000), Ok(()));
    assert_eq!(s.get_recording_duration(3500), 2500);
    assert!(!s.check_recording_limit(1000 + FREE_RECORDING_LIMIT_MS - 1));
    assert!(s.check_recording_limit(1000 + FREE_RECORDING_LIMIT_MS));
    assert!(s.set_premium_license("  KEY-123 "));
    assert!(!s.check_recording_limit(1000 + FREE_RECORDING_LIMIT_MS));
    s.remove_premium_license();
    assert!(!s.check_premium_license());
    s.stop_recording_only();
    assert!(!s.is_recording());
    assert_eq!(s.get_recording_duration(99_000), 0);
}

#[test]
fn coordinator_stop_returns_samples() {
    let mut s = AppState::new();
    assert_eq!(s.stop_recording(), Err(CaptureError::NotRecording));
    s.start_recording(0).unwrap();
    assert_eq!(s.start_recording(10), Err(CaptureError::AlreadyRecording));
    s.append_samples(&[7, 8]);
    assert_eq!(s.get_audio_buffer_size(), 2);
    assert_eq!(s.stop_recording(), Ok(vec![7, 8]));
    s.start_recording(20).unwrap();
    assert_eq!(s.stop_recording().unwrap().len(), PLACEHOLDER_SAMPLES);
}

#[test]
fn coordinator_settings() {
    let mut s = AppState::new();
    assert_eq!(s.get_current_settings(), (None, "tr".to_string()));
    assert_eq!(s.set_language("en".to_string()), Ok(()));
    assert_eq!(s.set_language("de".to_string()), Err("Geçersiz dil. tr, en veya auto kullanın".to_string()));
    s.set_current_model("whisper-base".to_string());
    assert_eq!(s.get_current_settings(), (Some("whisper-base".to_string()), "en".to_string()));
}

#[test]
fn license_keys_and_permissions() {
    assert!(is_valid_license_key("abc"));
    assert!(!is_valid_license_key(" \t\n"));
    assert!(!is_valid_license_key(""));
    let p = permission_status(true, 1);
    assert!(p.screen_recording);
    assert_eq!(p.microphone, "granted");
    assert_eq!(permission_status(false, 0).microphone, "not_determined");
    assert_eq!(permission_status(false, -1).microphone, "denied");
}

#[test]
fn coordinator_timer_follows_session() {
    let mut s = AppState::new();
    s.start_recording(1000).unwrap();
    // A second start fails and keeps the running timer.
    assert_eq!(s.start_recording(50_000), Err(CaptureError::AlreadyRecording));
    assert_eq!(s.get_recording_duration(61_000), 60_000);
    assert!(s.check_recording_limit(61_000));
    // A successful stop clears the timer.
    s.stop_recording().unwrap();
    assert_eq!(s.get_recording_duration(200_000), 0);
    assert!(!s.check_recording_limit(200_000));
    // A failed stop leaves it as it is (here: not running).
    assert_eq!(s.stop_recording(), Err(CaptureError::NotRecording));
    assert_eq!(s.get_recording_duration(300_000), 0);
}

#[test]
fn coordinator_setters_keep_the_rest() {
    let mut s = AppState::new();
    s.start_recording(0).unwrap();
    s.append_samples(&[1, 2, 3]);
    s.set_current_model("whisper-tiny".to_string());
    assert!(s.set_premium_license("k"));
    assert_eq!(s.set_language("auto".to_string()), Ok(()));
    s.set_input_device(Some("input_1".to_string()));
    assert!(s.is_recording());
    assert_eq!(s.get_audio_buffer(), vec![1, 2, 3]);
    assert_eq!(s.get_current_settings(), (Some("whisper-tiny".to_string()), "auto".to_string()));
    assert!(s.check_premium_license());
    assert_eq!(s.get_recording_duration(10), 10);
}
