//! The capture coordinator: the object the application holds. It owns the
//! recording session, the recording timer, the model and language settings
//! and the license flag. Wall-clock time is passed in by the caller, in
//! milliseconds of a monotonic clock.
use vstd::prelude::*;
use vstd::string::*;
use crate::capture::{AudioRecorder, CaptureError, start_post, stop_post, append_post};
use crate::dsp::{resampled_len, normalize_spec, TARGET_SAMPLE_RATE};
use crate::host::{is_ws, trim_whitespace};
use crate::stats::{AudioStats, compute_audio_stats, stats_spec};
use crate::text::{opt_view, same_text};
use crate::transcription::{transcription_input, transcription_input_spec};

verus! {

/// How long a recording may run without a premium license, in milliseconds.
pub const FREE_RECORDING_LIMIT_MS: u64 = 60000;

/// The languages a transcription can be asked for.
pub open spec fn is_valid_language(l: Seq<char>) -> bool {
    l == "tr"@ || l == "en"@ || l == "auto"@
}

/// A license key is accepted when it holds a character that is not white space.
pub open spec fn is_valid_license_spec(key: Seq<char>) -> bool {
    exists|k: int| 0 <= k < key.len() && !is_ws(#[trigger] key[k])
}

/// Whether `key` is accepted as a license key.
pub fn is_valid_license_key(key: &str) -> (r: bool)
    ensures
        r == is_valid_license_spec(key@),
{
    let t = trim_whitespace(key);
    proof {
        let (i, j) = choose|i: int, j: int|
            #![trigger key@.subrange(i, j)]
            0 <= i <= j <= key@.len() && t@ == key@.subrange(i, j) && (forall|k: int|
                0 <= k < i ==> is_ws(#[trigger] key@[k])) && (forall|k: int|
                j <= k < key@.len() ==> is_ws(#[trigger] key@[k])) && (i == j || (!is_ws(key@[i])
                && !is_ws(key@[j - 1]))) && (i == j ==> j == key@.len());
        if i == j {
            assert forall|k: int| 0 <= k < key@.len() implies is_ws(#[trigger] key@[k]) by {}
        } else {
            assert(!is_ws(key@[i]));
        }
    }
    t.unicode_len() > 0
}

/// The microphone permission as the platform reports it: 1 granted,
/// 0 not yet asked, anything else denied.
pub open spec fn microphone_status_spec(code: i32) -> Seq<char> {
    if code == 1 {
        "granted"@
    } else if code == 0 {
        "not_determined"@
    } else {
        "denied"@
    }
}

/// The capture permissions, for routing the user to the right settings.
#[derive(Clone, Debug)]
pub struct PermissionStatus {
    pub screen_recording: bool,
    pub microphone: String,
}

/// The permission status from the platform's answers.
pub fn permission_status(screen_recording: bool, microphone_code: i32) -> (r: PermissionStatus)
    ensures
        r.screen_recording == screen_recording,
        r.microphone@ == microphone_status_spec(microphone_code),
{
    let mic: &str = if microphone_code == 1 {
        "granted"
    } else if microphone_code == 0 {
        "not_determined"
    } else {
        "denied"
    };
    PermissionStatus { screen_recording, microphone: String::from_str(mic) }
}

/// Language, loaded model and license are the same in `a` and `b`.
pub open spec fn settings_kept(a: AppState, b: AppState) -> bool {
    &&& b.language() == a.language()
    &&& b.current_model() == a.current_model()
    &&& b.premium() == a.premium()
}

/// The coordinator state.
pub struct AppState {
    recorder: AudioRecorder,
    current_model: Option<String>,
    language: String,
    recording_start: Option<u64>,
    has_premium_license: bool,
}

impl AppState {
    pub closed spec fn recorder(&self) -> AudioRecorder {
        self.recorder
    }

    pub closed spec fn current_model(&self) -> Option<Seq<char>> {
        opt_view(self.current_model)
    }

    pub closed spec fn language(&self) -> Seq<char> {
        self.language@
    }

    /// When the running recording was started, if the timer runs.
    pub closed spec fn recording_start(&self) -> Option<u64> {
        self.recording_start
    }

    pub closed spec fn premium(&self) -> bool {
        self.has_premium_license
    }

    /// A fresh coordinator: idle recorder, no model, Turkish, no timer, no license.
    pub fn new() -> (r: Self)
        ensures
            !r.recorder().recording(),
            r.recorder().buffer().len() == 0,
            r.recorder().selected_device() is None,
            r.current_model() is None,
            r.language() == "tr"@,
            r.recording_start() is None,
            !r.premium(),
    {
        AppState {
            recorder: AudioRecorder::new(),
            current_model: None,
            language: String::from_str("tr"),
            recording_start: None,
            has_premium_license: false,
        }
    }

    /// Starts the recording session and, when it starts, the timer at
    /// `now_ms`. While a session runs this fails with `AlreadyRecording`
    /// and the running timer is kept.
    pub fn start_recording(&mut self, now_ms: u64) -> (r: Result<(), CaptureError>)
        ensures
            start_post(old(self).recorder(), final(self).recorder(), r),
            r is Ok ==> final(self).recording_start() == Some(now_ms),
            r is Err ==> final(self).recording_start() == old(self).recording_start(),
            settings_kept(*old(self), *final(self)),
    {
        let r = self.recorder.start_recording();
        if r.is_ok() {
            self.recording_start = Some(now_ms);
        }
        r
    }

    /// Milliseconds since the timer started (0 when it does not run).
    pub fn get_recording_duration(&self, now_ms: u64) -> (r: u64)
        ensures
            r == match self.recording_start() {
                Some(s) => if now_ms >= s { (now_ms - s) as u64 } else { 0 },
                None => 0,
            },
    {
        match self.recording_start {
            Some(s) => now_ms.saturating_sub(s),
            None => 0,
        }
    }

    /// Whether the free-tier duration cap is reached: never with a premium
    /// license or without a running timer. What follows is the caller's call.
    pub fn check_recording_limit(&self, now_ms: u64) -> (r: bool)
        ensures
            r == (!self.premium() && match self.recording_start() {
                Some(s) => now_ms >= s && now_ms - s >= FREE_RECORDING_LIMIT_MS,
                None => false,
            }),
    {
        if self.has_premium_license {
            return false;
        }
        match self.recording_start {
            Some(s) => now_ms >= s && now_ms - s >= FREE_RECORDING_LIMIT_MS,
            None => false,
        }
    }

    /// Clears the timer and lowers the recording flag, ignoring whether a
    /// session was running.
    pub fn stop_recording_only(&mut self)
        ensures
            final(self).recording_start() is None,
            !final(self).recorder().recording(),
            final(self).recorder().buffer() == old(self).recorder().buffer(),
            final(self).recorder().selected_device() == old(self).recorder().selected_device(),
            settings_kept(*old(self), *final(self)),
    {
        self.recording_start = None;
        let _ = self.recorder.stop_recording();
    }

    /// Stops the session, clears the timer and returns the samples to
    /// transcribe (five seconds of silence for an empty buffer); fails with
    /// `NotRecording` when idle, leaving the timer as it is.
    pub fn stop_recording(&mut self) -> (r: Result<Vec<i32>, CaptureError>)
        ensures
            stop_post(old(self).recorder(), final(self).recorder(), match r {
                Ok(_) => Ok(()),
                Err(e) => Err(e),
            }),
            r matches Ok(v) ==> v@ == transcription_input_spec(final(self).recorder().buffer()),
            r is Ok ==> final(self).recording_start() is None,
            r is Err ==> final(self).recording_start() == old(self).recording_start(),
            settings_kept(*old(self), *final(self)),
    {
        match self.recorder.stop_recording() {
            Ok(()) => {
                self.recording_start = None;
                Ok(transcription_input(self.recorder.get_audio_buffer()))
            },
            Err(e) => Err(e),
        }
    }

    /// The samples to transcribe now, without stopping.
    pub fn transcription_audio(&self) -> (r: Vec<i32>)
        ensures
            r@ == transcription_input_spec(self.recorder().buffer()),
    {
        transcription_input(self.recorder.get_audio_buffer())
    }

    /// A copy of the session buffer.
    pub fn get_audio_buffer(&self) -> (r: Vec<i32>)
        ensures
            r@ == self.recorder().buffer(),
    {
        self.recorder.get_audio_buffer()
    }

    /// The number of samples recorded.
    pub fn get_audio_buffer_size(&self) -> (r: usize)
        ensures
            r == self.recorder().buffer().len(),
    {
        self.recorder.buffer_len()
    }

    /// Level statistics of the buffer as it stands.
    pub fn get_audio_stats(&self) -> (r: AudioStats)
        ensures
            (r.average as int, r.peak as int, r.silence as int) == stats_spec(
                self.recorder().buffer(),
            ),
    {
        let buf = self.recorder.get_audio_buffer();
        compute_audio_stats(buf.as_slice())
    }

    /// Whether the recording flag is up (what the backends poll).
    pub fn is_recording(&self) -> (r: bool)
        ensures
            r == self.recorder().recording(),
    {
        self.recorder.is_recording()
    }

    /// Appends samples a backend has already normalised.
    pub fn append_samples(&mut self, samples: &[i32])
        ensures
            append_post(old(self).recorder(), final(self).recorder(), samples@),
            final(self).recording_start() == old(self).recording_start(),
            settings_kept(*old(self), *final(self)),
    {
        self.recorder.append_samples(samples);
    }

    /// Normalises and appends a chunk a device delivered.
    pub fn append_chunk(&mut self, data: &[i32], channel_count: u16, sample_rate: u32)
        requires
            sample_rate > 0,
            resampled_len(data@.len(), sample_rate as nat, TARGET_SAMPLE_RATE as nat)
                <= usize::MAX,
        ensures
            append_post(
                old(self).recorder(),
                final(self).recorder(),
                normalize_spec(data@, channel_count as nat, sample_rate as nat),
            ),
            final(self).recording_start() == old(self).recording_start(),
            settings_kept(*old(self), *final(self)),
    {
        self.recorder.append_chunk(data, channel_count, sample_rate);
    }

    /// Chooses the input device for the next sessions.
    pub fn set_input_device(&mut self, device_id: Option<String>)
        ensures
            final(self).recorder().selected_device() == opt_view(device_id),
            final(self).recorder().recording() == old(self).recorder().recording(),
            final(self).recorder().buffer() == old(self).recorder().buffer(),
            final(self).recording_start() == old(self).recording_start(),
            settings_kept(*old(self), *final(self)),
    {
        self.recorder.set_input_device(device_id);
    }

    /// The chosen input device, if any.
    pub fn get_input_device(&self) -> (r: Option<String>)
        ensures
            opt_view(r) == self.recorder().selected_device(),
    {
        self.recorder.get_input_device()
    }

    /// Sets the transcription language; anything but `tr`, `en` or `auto`
    /// is refused and changes nothing.
    pub fn set_language(&mut self, language: String) -> (r: Result<(), String>)
        ensures
            is_valid_language(language@) ==> r is Ok && final(self).language() == language@,
            !is_valid_language(language@) ==> (r matches Err(m) && m@
                == "Geçersiz dil. tr, en veya auto kullanın"@) && final(self).language()
                == old(self).language(),
            final(self).current_model() == old(self).current_model(),
            final(self).premium() == old(self).premium(),
            final(self).recorder() == old(self).recorder(),
            final(self).recording_start() == old(self).recording_start(),
    {
        if same_text(language.as_str(), "tr") || same_text(language.as_str(), "en") || same_text(
            language.as_str(),
            "auto",
        ) {
            self.language = language;
            Ok(())
        } else {
            Err(String::from_str("Geçersiz dil. tr, en veya auto kullanın"))
        }
    }

    /// Records which model is loaded.
    pub fn set_current_model(&mut self, model_id: String)
        ensures
            final(self).current_model() == Some(model_id@),
            final(self).language() == old(self).language(),
            final(self).premium() == old(self).premium(),
            final(self).recorder() == old(self).recorder(),
            final(self).recording_start() == old(self).recording_start(),
    {
        self.current_model = Some(model_id);
    }

    /// The loaded model and the language.
    pub fn get_current_settings(&self) -> (r: (Option<String>, String))
        ensures
            opt_view(r.0) == self.current_model(),
            r.1@ == self.language(),
    {
        let model = match &self.current_model {
            Some(m) => Some(m.clone()),
            None => None,
        };
        (model, self.language.clone())
    }

    /// Grants the premium license when the key is accepted; tells whether it was.
    pub fn set_premium_license(&mut self, license_key: &str) -> (r: bool)
        ensures
            r == is_valid_license_spec(license_key@),
            final(self).premium() == (old(self).premium() || r),
            final(self).language() == old(self).language(),
            final(self).current_model() == old(self).current_model(),
            final(self).recorder() == old(self).recorder(),
            final(self).recording_start() == old(self).recording_start(),
    {
        let valid = is_valid_license_key(license_key);
        if valid {
            self.has_premium_license = true;
        }
        valid
    }

    /// Whether the premium license is held.
    pub fn check_premium_license(&self) -> (r: bool)
        ensures
            r == self.premium(),
    {
        self.has_premium_license
    }

    /// Drops the premium license.
    pub fn remove_premium_license(&mut self)
        ensures
            !final(self).premium(),
            final(self).recording_start() == old(self).recording_start(),
            final(self).language() == old(self).language(),
            final(self).current_model() == old(self).current_model(),
            final(self).recorder() == old(self).recorder(),
    {
        self.has_premium_license = false;
    }
}

} // verus!
