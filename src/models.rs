//! The catalog of speech-to-text models and the rules on model ids.
use vstd::prelude::*;
use vstd::string::*;
use crate::text::{ends_with, has_prefix, has_suffix, same_text, starts_with};

verus! {

/// A downloadable speech-to-text model.
#[derive(Clone, Debug)]
pub struct ModelInfo {
    pub id: String,
    pub name: String,
    pub size: String,
    pub quality: String,
    pub url: String,
}

/// `(id, name, size, quality, url)` of a model.
pub open spec fn model_view(m: ModelInfo) -> (Seq<char>, Seq<char>, Seq<char>, Seq<char>, Seq<char>) {
    (m.id@, m.name@, m.size@, m.quality@, m.url@)
}

/// The catalog, in the order it is offered.
pub open spec fn catalog() -> Seq<(Seq<char>, Seq<char>, Seq<char>, Seq<char>, Seq<char>)> {
    seq![
        ("whisper-tiny"@, "Whisper Tiny"@, "75 MB"@, "Hızlı, düşük kalite"@,
            "https://huggingface.co/ggerganov/whisper.cpp/resolve/main/ggml-tiny.bin"@),
        ("whisper-base"@, "Whisper Base"@, "142 MB"@, "Dengeli"@,
            "https://huggingface.co/ggerganov/whisper.cpp/resolve/main/ggml-base.bin"@),
        ("whisper-small"@, "Whisper Small"@, "466 MB"@, "İyi kalite"@,
            "https://huggingface.co/ggerganov/whisper.cpp/resolve/main/ggml-small.bin"@),
        ("whisper-medium"@, "Whisper Medium"@, "1.5 GB"@, "Çok iyi kalite"@,
            "https://huggingface.co/ggerganov/whisper.cpp/resolve/main/ggml-medium.bin"@),
        ("whisper-large-v3"@, "Whisper Large V3"@, "3.1 GB"@, "En iyi kalite"@,
            "https://huggingface.co/ggerganov/whisper.cpp/resolve/main/ggml-large-v3.bin"@),
        ("parakeet-ctc-0.6b"@, "Parakeet CTC 0.6B (English)"@, "360 MB"@, "Hızlı, İngilizce"@,
            "https://github.com/k2-fsa/sherpa-onnx/releases/download/v1.9.23/sherpa-onnx-nemo-parakeet-ctc-0.6b-en-2024-03-04.tar.bz2"@),
        ("parakeet-tdt-0.6b"@, "Parakeet TDT 0.6B (Multilingual)"@, "380 MB"@, "Çok Dilli, İyi Kalite"@,
            "https://github.com/k2-fsa/sherpa-onnx/releases/download/v1.9.23/sherpa-onnx-nemo-parakeet-tdt-0.6b-v3-int8.tar.bz2"@),
    ]
}

fn model(id: &str, name: &str, size: &str, quality: &str, url: &str) -> (r: ModelInfo)
    ensures
        model_view(r) == (id@, name@, size@, quality@, url@),
{
    ModelInfo {
        id: String::from_str(id),
        name: String::from_str(name),
        size: String::from_str(size),
        quality: String::from_str(quality),
        url: String::from_str(url),
    }
}

/// The models that can be downloaded.
pub fn get_available_models() -> (r: Vec<ModelInfo>)
    ensures
        r@.map_values(|m: ModelInfo| model_view(m)) == catalog(),
{
    let mut v: Vec<ModelInfo> = Vec::new();
    v.push(model("whisper-tiny", "Whisper Tiny", "75 MB", "Hızlı, düşük kalite",
        "https://huggingface.co/ggerganov/whisper.cpp/resolve/main/ggml-tiny.bin"));
    v.push(model("whisper-base", "Whisper Base", "142 MB", "Dengeli",
        "https://huggingface.co/ggerganov/whisper.cpp/resolve/main/ggml-base.bin"));
    v.push(model("whisper-small", "Whisper Small", "466 MB", "İyi kalite",
        "https://huggingface.co/ggerganov/whisper.cpp/resolve/main/ggml-small.bin"));
    v.push(model("whisper-medium", "Whisper Medium", "1.5 GB", "Çok iyi kalite",
        "https://huggingface.co/ggerganov/whisper.cpp/resolve/main/ggml-medium.bin"));
    v.push(model("whisper-large-v3", "Whisper Large V3", "3.1 GB", "En iyi kalite",
        "https://huggingface.co/ggerganov/whisper.cpp/resolve/main/ggml-large-v3.bin"));
    v.push(model("parakeet-ctc-0.6b", "Parakeet CTC 0.6B (English)", "360 MB", "Hızlı, İngilizce",
        "https://github.com/k2-fsa/sherpa-onnx/releases/download/v1.9.23/sherpa-onnx-nemo-parakeet-ctc-0.6b-en-2024-03-04.tar.bz2"));
    v.push(model("parakeet-tdt-0.6b", "Parakeet TDT 0.6B (Multilingual)", "380 MB", "Çok Dilli, İyi Kalite",
        "https://github.com/k2-fsa/sherpa-onnx/releases/download/v1.9.23/sherpa-onnx-nemo-parakeet-tdt-0.6b-v3-int8.tar.bz2"));
    assert(v@.map_values(|m: ModelInfo| model_view(m)) =~= catalog());
    v
}

/// Ids of Whisper models start with `whisper-`.
pub open spec fn is_whisper_spec(id: Seq<char>) -> bool {
    has_prefix(id, "whisper-"@)
}

/// Ids of Parakeet models start with `parakeet-`.
pub open spec fn is_parakeet_spec(id: Seq<char>) -> bool {
    has_prefix(id, "parakeet-"@)
}

/// Whether `model_id` names a Whisper model.
pub fn is_whisper_model(model_id: &str) -> (r: bool)
    ensures
        r == is_whisper_spec(model_id@),
{
    starts_with(model_id, "whisper-")
}

/// Whether `model_id` names a Parakeet model.
pub fn is_parakeet_model(model_id: &str) -> (r: bool)
    ensures
        r == is_parakeet_spec(model_id@),
{
    starts_with(model_id, "parakeet-")
}

/// The entry of the models directory that holds a model: `ggml-<x>.bin`
/// for `whisper-<x>`, the id itself for any other model (Parakeet models
/// are directories named by their id).
pub open spec fn model_file_name_spec(id: Seq<char>) -> Seq<char> {
    if is_whisper_spec(id) {
        "ggml-"@ + id.subrange(8, id.len() as int) + ".bin"@
    } else {
        id
    }
}

/// The name, inside the models directory, of where `model_id` is stored.
pub fn model_file_name(model_id: &str) -> (r: String)
    ensures
        r@ == model_file_name_spec(model_id@),
{
    if is_whisper_model(model_id) {
        proof { reveal_strlit("whisper-"); }
        let rest = model_id.substring_char(8, model_id.unicode_len());
        let mut name = String::from_str("ggml-");
        name.append(rest);
        name.append(".bin");
        name
    } else {
        String::from_str(model_id)
    }
}

/// The index of the first model of `models` with id `model_id`, if any.
pub fn find_model(models: &Vec<ModelInfo>, model_id: &str) -> (r: Option<usize>)
    ensures
        match r {
            Some(i) => i < models@.len() && models@[i as int].id@ == model_id@
                && forall|j: int| 0 <= j < i ==> models@[j].id@ != model_id@,
            None => forall|j: int| 0 <= j < models@.len() ==> models@[j].id@ != model_id@,
        },
{
    let mut i: usize = 0;
    while i < models.len()
        invariant
            i <= models@.len(),
            forall|j: int| 0 <= j < i ==> models@[j].id@ != model_id@,
        decreases models@.len() - i,
    {
        if same_text(models[i].id.as_str(), model_id) {
            return Some(i);
        }
        i = i + 1;
    }
    None
}

/// Whether a model is shipped as a `.tar.bz2` archive to extract.
pub fn is_archive_url(url: &str) -> (r: bool)
    ensures
        r == has_suffix(url@, ".tar.bz2"@),
{
    ends_with(url, ".tar.bz2")
}

/// The directory an archived model unpacks to, which is renamed to the
/// model's id; empty for a model without such a directory.
pub open spec fn expected_folder_spec(id: Seq<char>) -> Seq<char> {
    if id == "parakeet-ctc-0.6b"@ {
        "sherpa-onnx-nemo-parakeet-ctc-0.6b-en-2024-03-04"@
    } else if id == "parakeet-tdt-0.6b"@ {
        "sherpa-onnx-nemo-parakeet-tdt-0.6b-v3-int8"@
    } else {
        ""@
    }
}

/// The directory an archived model unpacks to, or `""`.
pub fn expected_folder_name(model_id: &str) -> (r: &'static str)
    ensures
        r@ == expected_folder_spec(model_id@),
{
    if same_text(model_id, "parakeet-ctc-0.6b") {
        "sherpa-onnx-nemo-parakeet-ctc-0.6b-en-2024-03-04"
    } else if same_text(model_id, "parakeet-tdt-0.6b") {
        "sherpa-onnx-nemo-parakeet-tdt-0.6b-v3-int8"
    } else {
        ""
    }
}

/// The quality label of a model that is already on disk.
pub fn downloaded_quality(quality: &str) -> (r: String)
    ensures
        r@ == quality@ + " (İndirildi)"@,
{
    let mut s = String::from_str(quality);
    s.append(" (İndirildi)");
    s
}

} // verus!
