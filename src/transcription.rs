//! What the capture core hands to a speech-to-text engine, and the engine
//! kinds that need no outside library.
use vstd::prelude::*;
use vstd::string::*;

verus! {

/// Length of the silence handed to an engine when nothing was recorded:
/// five seconds at the target rate.
pub const PLACEHOLDER_SAMPLES: usize = 80000;

/// The samples to transcribe: the buffer, or five seconds of silence when
/// the buffer is empty (an engine is never called with no samples).
pub open spec fn transcription_input_spec(buffer: Seq<i32>) -> Seq<i32> {
    if buffer.len() == 0 {
        Seq::new(PLACEHOLDER_SAMPLES as nat, |i: int| 0i32)
    } else {
        buffer
    }
}

/// The samples to hand to a speech-to-text engine for `buffer`.
pub fn transcription_input(buffer: Vec<i32>) -> (r: Vec<i32>)
    ensures
        r@ == transcription_input_spec(buffer@),
{
    if buffer.len() > 0 {
        return buffer;
    }
    let mut v: Vec<i32> = Vec::with_capacity(PLACEHOLDER_SAMPLES);
    let mut i: usize = 0;
    while i < PLACEHOLDER_SAMPLES
        invariant
            i <= PLACEHOLDER_SAMPLES,
            v@.len() == i,
            forall|k: int| 0 <= k < i ==> v@[k] == 0i32,
        decreases PLACEHOLDER_SAMPLES - i,
    {
        v.push(0);
        i = i + 1;
    }
    assert(v@ =~= transcription_input_spec(buffer@));
    v
}

/// The text reported when recording stopped with no model loaded.
pub fn no_model_transcript() -> (r: String)
    ensures
        r@ == "Kayıt durduruldu. Model yüklenmemiş, transkript yok."@,
{
    String::from_str("Kayıt durduruldu. Model yüklenmemiş, transkript yok.")
}

/// Segment texts joined into one transcript, each followed by a space.
pub open spec fn joined_segments(segments: Seq<String>) -> Seq<char>
    decreases segments.len(),
{
    if segments.len() == 0 {
        seq![]
    } else {
        joined_segments(segments.drop_last()) + segments.last()@ + seq![' ']
    }
}

/// Joins the segment texts an engine produced into one transcript.
pub fn join_segments(segments: &Vec<String>) -> (r: String)
    ensures
        r@ == joined_segments(segments@),
{
    let mut text = String::new();
    let mut i: usize = 0;
    while i < segments.len()
        invariant
            i <= segments@.len(),
            text@ == joined_segments(segments@.subrange(0, i as int)),
        decreases segments@.len() - i,
    {
        text.append(segments[i].as_str());
        text.append(" ");
        proof {
            reveal_strlit(" ");
            assert(segments@.subrange(0, i + 1).drop_last() =~= segments@.subrange(0, i as int));
        }
        i = i + 1;
    }
    assert(segments@.subrange(0, i as int) =~= segments@);
    text
}

/// The Parakeet engine, which does not decode audio yet: it keeps the path
/// of its model and answers with a fixed placeholder text.
pub struct ParakeetTranscriber {
    model_path: String,
}

impl ParakeetTranscriber {
    /// The path of the model this engine was opened on.
    pub closed spec fn model_path(&self) -> Seq<char> {
        self.model_path@
    }

    /// Opens the model at `model_path`; this never fails.
    pub fn new(model_path: &str) -> (r: Result<Self, String>)
        ensures
            r is Ok,
            r matches Ok(t) && t.model_path() == model_path@,
    {
        Ok(ParakeetTranscriber { model_path: String::from_str(model_path) })
    }

    /// The placeholder transcript naming the model.
    pub fn transcribe(&mut self, audio_data: &[i32]) -> (r: Result<String, String>)
        ensures
            r matches Ok(text) && text@ == "Parakeet transcription placeholder for model: "@
                + old(self).model_path(),
            final(self).model_path() == old(self).model_path(),
    {
        let mut text = String::from_str("Parakeet transcription placeholder for model: ");
        text.append(self.model_path.as_str());
        Ok(text)
    }
}

} // verus!
