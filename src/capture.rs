//! The recording session: a shared fixed-point sample buffer, the
//! recording flag, the selected input device, and the rules by which the
//! two capture backends feed the buffer.
//!
//! Producers (system audio and microphone) run on their own threads and
//! reach a recorder only through a lock held by the caller; every method
//! here is one critical section.
use vstd::prelude::*;
use vstd::string::*;
use crate::dsp::{
    normalize_chunk, normalize_spec, resampled_len, within, lemma_normalize_stereo_len,
    lemma_normalize_within, FULL_SCALE, TARGET_SAMPLE_RATE,
};
use crate::text::{decimal, decimal_string, opt_view, same_text};

verus! {

/// Errors of a recording session and of its capture backends. The two
/// lifecycle errors come back from `start_recording` and `stop_recording`;
/// the others are reported by a backend and never stop its sibling.
#[derive(Clone, Copy, Debug, PartialEq, Eq, Structural)]
pub enum CaptureError {
    /// `start_recording` while a session is already running.
    AlreadyRecording,
    /// `stop_recording` while no session is running.
    NotRecording,
    /// No default or selected device was found.
    DeviceUnavailable,
    /// The platform's capture permission is missing.
    PermissionDenied,
    /// A native capture service or stream failed to start.
    BackendStartFailure,
    /// The audio subsystem reported an error on a running stream.
    StreamRuntimeError,
}

impl CaptureError {
    /// The message shown to the caller.
    pub fn message(&self) -> (r: String)
        ensures
            r@ == self.message_spec(),
    {
        match self {
            CaptureError::AlreadyRecording => String::from_str("Already recording"),
            CaptureError::NotRecording => String::from_str("Not recording"),
            CaptureError::DeviceUnavailable => String::from_str("Audio device unavailable"),
            CaptureError::PermissionDenied => String::from_str(
                "Capture permission denied: grant Screen Recording permission in the system settings",
            ),
            CaptureError::BackendStartFailure => String::from_str("Audio capture failed to start"),
            CaptureError::StreamRuntimeError => String::from_str("Audio stream error"),
        }
    }

    pub open spec fn message_spec(&self) -> Seq<char> {
        match self {
            CaptureError::AlreadyRecording => "Already recording"@,
            CaptureError::NotRecording => "Not recording"@,
            CaptureError::DeviceUnavailable => "Audio device unavailable"@,
            CaptureError::PermissionDenied =>
                "Capture permission denied: grant Screen Recording permission in the system settings"@,
            CaptureError::BackendStartFailure => "Audio capture failed to start"@,
            CaptureError::StreamRuntimeError => "Audio stream error"@,
        }
    }
}

/// An audio device as listed for the user. Ids are positional
/// (`input_<n>`, `output_<n>`, `n` the enumeration order) and are not
/// stable across changes of the device topology.
#[derive(Clone, Debug)]
pub struct AudioDevice {
    pub id: String,
    pub name: String,
    pub is_default: bool,
}

/// `(id, name, is_default)` of a device.
pub open spec fn device_view(d: AudioDevice) -> (Seq<char>, Seq<char>, bool) {
    (d.id@, d.name@, d.is_default)
}

pub open spec fn device_views(v: Seq<AudioDevice>) -> Seq<(Seq<char>, Seq<char>, bool)> {
    v.map_values(|d: AudioDevice| device_view(d))
}

/// The id of the device at position `index` of an enumeration.
pub open spec fn device_id(prefix: Seq<char>, index: nat) -> Seq<char> {
    prefix + seq!['_'] + decimal(index)
}

/// The listing of the first `n` enumerated devices: `names[i]` is `None`
/// where the device's name could not be read, and such a device is left
/// out; a device is the default when its name equals `default_name`.
pub open spec fn listed_devices(
    names: Seq<Option<String>>,
    default_name: Option<Seq<char>>,
    prefix: Seq<char>,
    n: nat,
) -> Seq<(Seq<char>, Seq<char>, bool)>
    decreases n,
{
    if n == 0 {
        seq![]
    } else {
        let prev = listed_devices(names, default_name, prefix, (n - 1) as nat);
        match names[n - 1] {
            Some(name) => prev.push(
                (device_id(prefix, (n - 1) as nat), name@, default_name == Some(name@)),
            ),
            None => prev,
        }
    }
}

/// Lists enumerated devices under positional ids `<prefix>_<n>`.
pub fn label_devices(names: &Vec<Option<String>>, default_name: &Option<String>, prefix: &str) -> (r:
    Vec<AudioDevice>)
    ensures
        device_views(r@) == listed_devices(names@, opt_view(*default_name), prefix@, names@.len()),
{
    let mut out: Vec<AudioDevice> = Vec::new();
    let mut i: usize = 0;
    while i < names.len()
        invariant
            i <= names@.len(),
            device_views(out@) == listed_devices(
                names@,
                opt_view(*default_name),
                prefix@,
                i as nat,
            ),
        decreases names@.len() - i,
    {
        let ghost prev = out@;
        match &names[i] {
            Some(name) => {
                let is_default: bool = match default_name {
                    Some(d) => d.eq(name),
                    None => false,
                };
                let mut id = String::from_str(prefix);
                id.append("_");
                let digits = decimal_string(i);
                id.append(digits.as_str());
                let dev = AudioDevice { id, name: name.clone(), is_default };
                out.push(dev);
                proof {
                    reveal_strlit("_");
                    assert(dev.id@ =~= device_id(prefix@, i as nat));
                    assert(device_views(out@) =~= device_views(prev).push(device_view(dev)));
                }
            },
            None => {},
        }
        i = i + 1;
    }
    out
}

/// The position of the first device of `devices` whose id is `id`, if any.
pub fn find_device(devices: &Vec<AudioDevice>, id: &str) -> (r: Option<usize>)
    ensures
        match r {
            Some(i) => i < devices@.len() && devices@[i as int].id@ == id@ && forall|j: int|
                0 <= j < i ==> devices@[j].id@ != id@,
            None => forall|j: int| 0 <= j < devices@.len() ==> devices@[j].id@ != id@,
        },
{
    let mut i: usize = 0;
    while i < devices.len()
        invariant
            i <= devices@.len(),
            forall|j: int| 0 <= j < i ==> devices@[j].id@ != id@,
        decreases devices@.len() - i,
    {
        if same_text(devices[i].id.as_str(), id) {
            return Some(i);
        }
        i = i + 1;
    }
    None
}

/// The first sample index the system-audio service may not write: its
/// scratch buffer holds ten minutes at the target rate. Samples reported
/// past it are dropped.
pub const SYSTEM_AUDIO_CAPACITY: usize = 9600000;

/// The part of the system-audio scratch buffer still to be copied when the
/// service reports `reported` samples written and `last_index` were copied
/// before: the reported count is clamped to `[0, SYSTEM_AUDIO_CAPACITY]`.
pub open spec fn system_audio_delta_spec(last_index: int, reported: int) -> Option<(int, int)> {
    let avail = if reported < 0 {
        0
    } else if reported > SYSTEM_AUDIO_CAPACITY {
        SYSTEM_AUDIO_CAPACITY as int
    } else {
        reported
    };
    if avail > last_index {
        Some((last_index, avail))
    } else {
        None
    }
}

/// One poll of the system-audio service: the range `[start, end)` of the
/// scratch buffer to append, if any new samples arrived.
pub fn system_audio_delta(last_index: usize, reported: i32) -> (r: Option<(usize, usize)>)
    ensures
        match r {
            Some((a, b)) => system_audio_delta_spec(last_index as int, reported as int) == Some(
                (a as int, b as int),
            ),
            None => system_audio_delta_spec(last_index as int, reported as int) is None,
        },
{
    let avail: usize = if reported < 0 {
        0
    } else if reported as usize > SYSTEM_AUDIO_CAPACITY {
        SYSTEM_AUDIO_CAPACITY
    } else {
        reported as usize
    };
    if avail > last_index {
        Some((last_index, avail))
    } else {
        None
    }
}

/// The session state shared by the capture backends and the coordinator.
pub struct AudioRecorder {
    recording: bool,
    buffer: Vec<i32>,
    selected_input_device: Option<String>,
}

impl AudioRecorder {
    /// The recording flag: true from a successful start to the next stop.
    pub closed spec fn recording(&self) -> bool {
        self.recording
    }

    /// The samples captured since the last start, mono at the target rate.
    pub closed spec fn buffer(&self) -> Seq<i32> {
        self.buffer@
    }

    /// The input device chosen by the user, if any.
    pub closed spec fn selected_device(&self) -> Option<Seq<char>> {
        opt_view(self.selected_input_device)
    }

    /// An idle recorder with an empty buffer and no device selected.
    pub fn new() -> (r: Self)
        ensures
            !r.recording(),
            r.buffer() == Seq::<i32>::empty(),
            r.selected_device() is None,
    {
        AudioRecorder { recording: false, buffer: Vec::new(), selected_input_device: None }
    }

    /// A copy of the buffer as it stands; during a session it may be partial.
    pub fn get_audio_buffer(&self) -> (r: Vec<i32>)
        ensures
            r@ == self.buffer(),
    {
        let r = self.buffer.clone();
        assert(r@ =~= self.buffer@);
        r
    }

    /// The number of samples in the buffer.
    pub fn buffer_len(&self) -> (r: usize)
        ensures
            r == self.buffer().len(),
    {
        self.buffer.len()
    }

    /// Whether a session is running.
    pub fn is_recording(&self) -> (r: bool)
        ensures
            r == self.recording(),
    {
        self.recording
    }

    /// Chooses the input device (`None`: the platform default).
    pub fn set_input_device(&mut self, device_id: Option<String>)
        ensures
            final(self).selected_device() == opt_view(device_id),
            final(self).recording() == old(self).recording(),
            final(self).buffer() == old(self).buffer(),
    {
        self.selected_input_device = device_id;
    }

    /// The input device chosen by the user, if any.
    pub fn get_input_device(&self) -> (r: Option<String>)
        ensures
            opt_view(r) == self.selected_device(),
    {
        match &self.selected_input_device {
            Some(s) => Some(s.clone()),
            None => None,
        }
    }

    /// Lists the input devices of an enumeration, in order: `names[i]` is
    /// the name of the `i`-th device, `None` where it could not be read.
    pub fn list_input_devices(names: &Vec<Option<String>>, default_name: &Option<String>) -> (r:
        Vec<AudioDevice>)
        ensures
            device_views(r@) == listed_devices(
                names@,
                opt_view(*default_name),
                "input"@,
                names@.len(),
            ),
    {
        label_devices(names, default_name, "input")
    }

    /// Lists the output devices of an enumeration, as `list_input_devices`.
    pub fn list_output_devices(names: &Vec<Option<String>>, default_name: &Option<String>) -> (r:
        Vec<AudioDevice>)
        ensures
            device_views(r@) == listed_devices(
                names@,
                opt_view(*default_name),
                "output"@,
                names@.len(),
            ),
    {
        label_devices(names, default_name, "output")
    }

    /// Starts a session: fails with `AlreadyRecording` (and changes
    /// nothing) while one runs; otherwise clears the buffer and raises the
    /// flag. The caller then launches both backends.
    pub fn start_recording(&mut self) -> (r: Result<(), CaptureError>)
        ensures
            start_post(*old(self), *final(self), r),
    {
        if self.recording {
            return Err(CaptureError::AlreadyRecording);
        }
        self.recording = true;
        self.buffer.clear();
        Ok(())
    }

    /// Stops a session: fails with `NotRecording` (and changes nothing)
    /// when idle; otherwise lowers the flag and keeps the buffer. Backends
    /// see the flag at their next poll and exit on their own.
    pub fn stop_recording(&mut self) -> (r: Result<(), CaptureError>)
        ensures
            stop_post(*old(self), *final(self), r),
    {
        if !self.recording {
            return Err(CaptureError::NotRecording);
        }
        self.recording = false;
        Ok(())
    }

    /// Appends already normalised samples at the end of the buffer.
    pub fn append_samples(&mut self, samples: &[i32])
        ensures
            append_post(*old(self), *final(self), samples@),
    {
        let ghost old_buf = self.buffer@;
        let mut i: usize = 0;
        while i < samples.len()
            invariant
                i <= samples@.len(),
                self.buffer@ == old_buf + samples@.subrange(0, i as int),
                self.recording == old(self).recording,
                self.selected_input_device == old(self).selected_input_device,
            decreases samples@.len() - i,
        {
            self.buffer.push(samples[i]);
            i = i + 1;
            assert(self.buffer@ =~= old_buf + samples@.subrange(0, i as int));
        }
        assert(samples@.subrange(0, i as int) =~= samples@);
    }

    /// Normalises a chunk delivered by a device with `channel_count`
    /// interleaved channels at `sample_rate` Hz and appends it.
    pub fn append_chunk(&mut self, data: &[i32], channel_count: u16, sample_rate: u32)
        requires
            sample_rate > 0,
            resampled_len(data@.len(), sample_rate as nat, TARGET_SAMPLE_RATE as nat)
                <= usize::MAX,
        ensures
            final(self).buffer() == old(self).buffer() + normalize_spec(
                data@,
                channel_count as nat,
                sample_rate as nat,
            ),
            final(self).recording() == old(self).recording(),
            final(self).selected_device() == old(self).selected_device(),
    {
        let chunk = normalize_chunk(data, channel_count, sample_rate);
        assert(chunk@ == normalize_spec(data@, channel_count as nat, sample_rate as nat));
        self.append_samples(chunk.as_slice());
    }
}

/// What `start_recording` does: while a session runs it fails with
/// `AlreadyRecording` and changes nothing; otherwise it succeeds, clears the
/// buffer and raises the flag. The selected device is kept either way.
pub open spec fn start_post(pre: AudioRecorder, post: AudioRecorder, r: Result<(), CaptureError>) -> bool {
    &&& pre.recording() ==> r == Err::<(), CaptureError>(CaptureError::AlreadyRecording)
        && post.buffer() == pre.buffer()
    &&& !pre.recording() ==> r is Ok && post.buffer() == Seq::<i32>::empty()
    &&& post.recording()
    &&& post.selected_device() == pre.selected_device()
}

/// What `stop_recording` does: when idle it fails with `NotRecording`;
/// otherwise it succeeds. Either way the flag is down afterwards and the
/// buffer and the selected device are kept.
pub open spec fn stop_post(pre: AudioRecorder, post: AudioRecorder, r: Result<(), CaptureError>) -> bool {
    &&& !pre.recording() ==> r == Err::<(), CaptureError>(CaptureError::NotRecording)
    &&& pre.recording() ==> r is Ok
    &&& !post.recording()
    &&& post.buffer() == pre.buffer()
    &&& post.selected_device() == pre.selected_device()
}

/// What `append_samples` does: the samples go after those already there,
/// in order, whole; nothing else changes.
pub open spec fn append_post(pre: AudioRecorder, post: AudioRecorder, samples: Seq<i32>) -> bool {
    &&& post.buffer() == pre.buffer() + samples
    &&& post.recording() == pre.recording()
    &&& post.selected_device() == pre.selected_device()
}

/// Starting a running session again fails with `AlreadyRecording` and
/// leaves the running session's buffer as it was.
pub proof fn lemma_double_start(
    a: AudioRecorder,
    b: AudioRecorder,
    c: AudioRecorder,
    r1: Result<(), CaptureError>,
    r2: Result<(), CaptureError>,
)
    requires
        start_post(a, b, r1),
        start_post(b, c, r2),
    ensures
        r2 == Err::<(), CaptureError>(CaptureError::AlreadyRecording),
        c.buffer() == b.buffer(),
{
}

/// Stopping an idle session fails with `NotRecording`.
pub proof fn lemma_stop_when_idle(a: AudioRecorder, b: AudioRecorder, r: Result<(), CaptureError>)
    requires
        !a.recording(),
        stop_post(a, b, r),
    ensures
        r == Err::<(), CaptureError>(CaptureError::NotRecording),
{
}

/// After a stop, the next start succeeds and the buffer is empty before
/// any producer appends, whatever the previous session recorded.
pub proof fn lemma_restart_clears_buffer(
    a: AudioRecorder,
    b: AudioRecorder,
    c: AudioRecorder,
    r1: Result<(), CaptureError>,
    r2: Result<(), CaptureError>,
)
    requires
        stop_post(a, b, r1),
        start_post(b, c, r2),
    ensures
        r2 is Ok,
        c.buffer().len() == 0,
{
}

/// Appends applied one after another leave the buffer as the old one
/// followed by the appended sequences, in the order they were applied.
pub proof fn lemma_appends_in_order(states: Seq<AudioRecorder>, chunks: Seq<Seq<i32>>)
    requires
        states.len() == chunks.len() + 1,
        forall|i: int| 0 <= i < chunks.len() ==> append_post(states[i], #[trigger] states[i + 1], chunks[i]),
    ensures
        states.last().buffer() == states[0].buffer() + chunks.flatten_alt(),
        states.last().recording() == states[0].recording(),
        states.last().selected_device() == states[0].selected_device(),
    decreases chunks.len(),
{
    if chunks.len() == 0 {
        assert(states[0].buffer() + chunks.flatten_alt() =~= states[0].buffer());
    } else {
        let k = (chunks.len() - 1) as int;
        let s0 = states.drop_last();
        let c0 = chunks.drop_last();
        assert forall|i: int| 0 <= i < c0.len() implies append_post(s0[i], #[trigger] s0[i + 1], c0[i]) by {
            assert(append_post(states[i], states[i + 1], chunks[i]));
        }
        lemma_appends_in_order(s0, c0);
        assert(append_post(states[k], states[k + 1], chunks[k]));
        assert(states.last().buffer() =~= states[0].buffer() + chunks.flatten_alt());
    }
}

proof fn lemma_flatten_equal_lengths(chunks: Seq<Seq<i32>>, m: nat)
    requires
        forall|i: int| 0 <= i < chunks.len() ==> (#[trigger] chunks[i]).len() == m,
    ensures
        chunks.flatten_alt().len() == chunks.len() * m,
    decreases chunks.len(),
{
    if chunks.len() > 0 {
        let c0 = chunks.drop_last();
        assert forall|i: int| 0 <= i < c0.len() implies (#[trigger] c0[i]).len() == m by {
            assert(chunks[i].len() == m);
        }
        lemma_flatten_equal_lengths(c0, m);
        assert(chunks.last().len() == m);
        assert(c0.len() * m + m == chunks.len() * m) by (nonlinear_arith)
            requires
                c0.len() + 1 == chunks.len(),
        ;
    }
}

/// Producers appending whole chunks under the lock, in whatever order they
/// win it, leave the buffer as the old one followed by the chunks in that
/// order: `n` chunks of `m` samples add exactly `n * m` samples.
pub proof fn lemma_appends_concatenate(states: Seq<AudioRecorder>, chunks: Seq<Seq<i32>>, m: nat)
    requires
        states.len() == chunks.len() + 1,
        forall|i: int| 0 <= i < chunks.len() ==> append_post(states[i], #[trigger] states[i + 1], chunks[i]),
        forall|i: int| 0 <= i < chunks.len() ==> (#[trigger] chunks[i]).len() == m,
    ensures
        states.last().buffer() == states[0].buffer() + chunks.flatten_alt(),
        states.last().buffer().len() == states[0].buffer().len() + chunks.len() * m,
        states.last().recording() == states[0].recording(),
{
    lemma_appends_in_order(states, chunks);
    lemma_flatten_equal_lengths(chunks, m);
}

/// Each device chunk, normalised.
pub open spec fn normalized_chunks(chunks: Seq<Seq<i32>>, channels: nat, rate: nat) -> Seq<Seq<i32>> {
    chunks.map_values(|c: Seq<i32>| normalize_spec(c, channels, rate))
}

/// Chunks a device delivered, appended one after another through
/// `append_chunk`, leave the buffer as the old one followed by each chunk
/// downmixed then resampled, in arrival order.
pub proof fn lemma_chunk_appends(
    states: Seq<AudioRecorder>,
    chunks: Seq<Seq<i32>>,
    channels: nat,
    rate: nat,
)
    requires
        states.len() == chunks.len() + 1,
        forall|i: int|
            0 <= i < chunks.len() ==> append_post(
                states[i],
                #[trigger] states[i + 1],
                normalize_spec(chunks[i], channels, rate),
            ),
    ensures
        states.last().buffer() == states[0].buffer() + normalized_chunks(chunks, channels, rate).flatten_alt(),
{
    let n = normalized_chunks(chunks, channels, rate);
    assert forall|i: int| 0 <= i < n.len() implies append_post(states[i], #[trigger] states[i + 1], n[i]) by {
        assert(append_post(states[i], states[i + 1], normalize_spec(chunks[i], channels, rate)));
    }
    lemma_appends_in_order(states, n);
}

proof fn lemma_flatten_within(chunks: Seq<Seq<i32>>, lo: int, hi: int)
    requires
        forall|i: int| 0 <= i < chunks.len() ==> within(#[trigger] chunks[i], lo, hi),
    ensures
        within(chunks.flatten_alt(), lo, hi),
    decreases chunks.len(),
{
    if chunks.len() > 0 {
        let c0 = chunks.drop_last();
        assert forall|i: int| 0 <= i < c0.len() implies within(#[trigger] c0[i], lo, hi) by {
            assert(within(chunks[i], lo, hi));
        }
        lemma_flatten_within(c0, lo, hi);
        assert(within(chunks.last(), lo, hi));
        let f = chunks.flatten_alt();
        assert forall|i: int| 0 <= i < f.len() implies lo <= #[trigger] f[i] <= hi by {
            if i < c0.flatten_alt().len() {
                assert(f[i] == c0.flatten_alt()[i]);
            } else {
                assert(f[i] == chunks.last()[i - c0.flatten_alt().len()]);
            }
        }
    }
}

proof fn lemma_stereo_chunks_len(chunks: Seq<Seq<i32>>)
    requires
        forall|i: int| 0 <= i < chunks.len() ==> (#[trigger] chunks[i]).len() % 6 == 0,
    ensures
        normalized_chunks(chunks, 2, 48000).flatten_alt().len() * 6 == chunks.flatten_alt().len(),
    decreases chunks.len(),
{
    if chunks.len() > 0 {
        let c0 = chunks.drop_last();
        assert forall|i: int| 0 <= i < c0.len() implies (#[trigger] c0[i]).len() % 6 == 0 by {
            assert(chunks[i].len() % 6 == 0);
        }
        lemma_stereo_chunks_len(c0);
        assert(normalized_chunks(chunks, 2, 48000).drop_last() =~= normalized_chunks(c0, 2, 48000));
        assert(chunks.last().len() % 6 == 0);
        lemma_normalize_stereo_len(chunks.last());
    }
}

/// One session of 48 kHz stereo microphone chunks, each a whole number of
/// three-frame groups and each within full scale: after the start, the
/// buffer holds one sample for every six delivered (so one second, 96000
/// samples, gives 16000), every one of them within full scale.
pub proof fn lemma_stereo_session(states: Seq<AudioRecorder>, chunks: Seq<Seq<i32>>)
    requires
        states.len() == chunks.len() + 1,
        states[0].buffer().len() == 0,
        forall|i: int|
            0 <= i < chunks.len() ==> append_post(
                states[i],
                #[trigger] states[i + 1],
                normalize_spec(chunks[i], 2, 48000),
            ),
        forall|i: int| 0 <= i < chunks.len() ==> (#[trigger] chunks[i]).len() % 6 == 0,
        forall|i: int| 0 <= i < chunks.len() ==> within(#[trigger] chunks[i], -FULL_SCALE, FULL_SCALE as int),
    ensures
        states.last().buffer().len() * 6 == chunks.flatten_alt().len(),
        within(states.last().buffer(), -FULL_SCALE, FULL_SCALE as int),
{
    lemma_chunk_appends(states, chunks, 2, 48000);
    assert(states.last().buffer() =~= normalized_chunks(chunks, 2, 48000).flatten_alt());
    lemma_stereo_chunks_len(chunks);
    let n = normalized_chunks(chunks, 2, 48000);
    assert forall|i: int| 0 <= i < n.len() implies within(#[trigger] n[i], -FULL_SCALE, FULL_SCALE as int) by {
        assert(within(chunks[i], -FULL_SCALE, FULL_SCALE as int));
        lemma_normalize_within(chunks[i], 2, 48000, -FULL_SCALE, FULL_SCALE as int);
    }
    lemma_flatten_within(n, -FULL_SCALE, FULL_SCALE as int);
}

} // verus!
