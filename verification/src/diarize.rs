//! Model catalogue and input checks of the speaker-diarization sidecar.
//!
//! Two engines exist. `community1` (pyannote segmentation plus a 3D-Speaker
//! embedding, as ONNX models) can be downloaded; `sortformer` has no
//! published ONNX build yet, so asking to download it is refused.
//! The diarizer reads 16 kHz mono WAV files, 16-bit integer or 32-bit float.

use vstd::prelude::*;
use std::path::{Path, PathBuf};
use crate::text::str_eq;

verus! {

/// A diarization engine.
#[derive(Debug, Clone, Copy, PartialEq, Eq, Structural)]
pub enum Engine {
    Community1,
    Sortformer,
}

/// The engine named on the command line: `sortformer` selects Sortformer,
/// any other name the default Community-1 engine.
pub open spec fn engine_named(name: Seq<char>) -> Engine {
    if name == "sortformer"@ {
        Engine::Sortformer
    } else {
        Engine::Community1
    }
}

/// The folder an engine's models live in.
pub open spec fn folder_of(engine: Engine) -> &'static str {
    match engine {
        Engine::Community1 => "community1",
        Engine::Sortformer => "sortformer",
    }
}

impl Engine {
    /// Parses an engine name; unknown names select Community-1.
    pub fn parse(s: &str) -> (r: Engine)
        ensures
            r == engine_named(s@),
    {
        if str_eq(s, "sortformer") {
            Engine::Sortformer
        } else {
            Engine::Community1
        }
    }

    /// Name of the engine's model folder.
    pub fn folder_name(self) -> (r: &'static str)
        ensures
            r == folder_of(self),
    {
        match self {
            Engine::Community1 => "community1",
            Engine::Sortformer => "sortformer",
        }
    }
}

/// An engine's folder name parses back to that engine.
pub proof fn law_engine_folder_round_trip(engine: Engine)
    ensures
        engine_named(folder_of(engine)@) == engine,
{
    reveal_strlit("community1");
    reveal_strlit("sortformer");
    assert("community1"@ != "sortformer"@) by {
        assert("community1"@[0] != "sortformer"@[0]);
    }
}

/// One model file: where it is downloaded from and its path inside the
/// engine's folder.
#[derive(Debug, Clone, Copy)]
pub struct ModelFile {
    pub url: &'static str,
    pub rel_path: &'static str,
}

pub open spec fn model_file_view(f: ModelFile) -> (Seq<char>, Seq<char>) {
    (f.url@, f.rel_path@)
}

/// The model files of an engine, as (url, path in the folder) pairs.
pub open spec fn model_files(engine: Engine) -> Seq<(Seq<char>, Seq<char>)> {
    match engine {
        Engine::Community1 => seq![
            (
                "https://github.com/k2-fsa/sherpa-onnx/releases/download/speaker-segmentation-models/sherpa-onnx-pyannote-segmentation-3-0.tar.bz2"@,
                "segmentation.onnx"@,
            ),
            (
                "https://github.com/k2-fsa/sherpa-onnx/releases/download/speaker-recongition-models/3dspeaker_speech_eres2net_base_sv_zh-cn_3dspeaker_16k.onnx"@,
                "embedding.onnx"@,
            ),
        ],
        Engine::Sortformer => seq![
            (
                "https://github.com/k2-fsa/sherpa-onnx/releases/download/sortformer-models/PLACEHOLDER"@,
                "sortformer.onnx"@,
            ),
        ],
    }
}

pub open spec fn files_view(v: Seq<ModelFile>) -> Seq<(Seq<char>, Seq<char>)> {
    v.map_values(|f: ModelFile| model_file_view(f))
}

/// Community-1: pyannote segmentation 3.0 and the 3D-Speaker embedding.
pub fn community1_files() -> (r: Vec<ModelFile>)
    ensures
        files_view(r@) == model_files(Engine::Community1),
{
    let mut v = Vec::new();
    v.push(ModelFile {
        url: "https://github.com/k2-fsa/sherpa-onnx/releases/download/speaker-segmentation-models/sherpa-onnx-pyannote-segmentation-3-0.tar.bz2",
        rel_path: "segmentation.onnx",
    });
    v.push(ModelFile {
        url: "https://github.com/k2-fsa/sherpa-onnx/releases/download/speaker-recongition-models/3dspeaker_speech_eres2net_base_sv_zh-cn_3dspeaker_16k.onnx",
        rel_path: "embedding.onnx",
    });
    assert(files_view(v@) =~= model_files(Engine::Community1));
    v
}

/// Sortformer: a placeholder until an ONNX release is published.
pub fn sortformer_files() -> (r: Vec<ModelFile>)
    ensures
        files_view(r@) == model_files(Engine::Sortformer),
{
    let mut v = Vec::new();
    v.push(ModelFile {
        url: "https://github.com/k2-fsa/sherpa-onnx/releases/download/sortformer-models/PLACEHOLDER",
        rel_path: "sortformer.onnx",
    });
    assert(files_view(v@) =~= model_files(Engine::Sortformer));
    v
}

/// The model files of an engine.
pub fn engine_files(engine: Engine) -> (r: Vec<ModelFile>)
    ensures
        files_view(r@) == model_files(engine),
{
    match engine {
        Engine::Community1 => community1_files(),
        Engine::Sortformer => sortformer_files(),
    }
}

/// `std::path::Path`, carried through opaquely.
#[verifier::external_type_specification]
#[verifier::external_body]
pub struct ExPath(Path);

/// `std::path::PathBuf`, carried through opaquely.
#[verifier::external_type_specification]
#[verifier::external_body]
pub struct ExPathBuf(PathBuf);

/// What `Path::join` returns for a directory and a relative path (path
/// joining is pure text manipulation, fixed for the platform the crate is
/// built for).
pub uninterp spec fn joined_path(dir: &Path, rel_path: Seq<char>) -> PathBuf;

/// `Path::join`: the directory with the relative path appended. The contract
/// only names the result; how the two are joined is not stated.
#[verifier::external_body]
fn join_path(dir: &Path, rel_path: &str) -> (r: PathBuf)
    ensures
        r == joined_path(dir, rel_path@),
{
    dir.join(rel_path)
}

/// Where each model file of an engine lives under the engine folder `dir`.
pub fn expected_paths(engine: Engine, dir: &Path) -> (r: Vec<PathBuf>)
    ensures
        r@.len() == model_files(engine).len(),
        forall|i: int|
            0 <= i < r@.len() ==> #[trigger] r@[i] == joined_path(dir, model_files(engine)[i].1),
{
    let files = engine_files(engine);
    let mut out: Vec<PathBuf> = Vec::new();
    let mut i: usize = 0;
    while i < files.len()
        invariant
            files_view(files@) == model_files(engine),
            0 <= i <= files@.len(),
            out@.len() == i,
            forall|j: int|
                0 <= j < i ==> #[trigger] out@[j] == joined_path(dir, model_files(engine)[j].1),
        decreases files.len() - i,
    {
        assert(model_files(engine)[i as int] == model_file_view(files@[i as int]));
        out.push(join_path(dir, files[i].rel_path));
        i += 1;
    }
    out
}

/// Name of the marker file written once an engine's download completed.
pub const DOWNLOAD_MARKER: &'static str = ".downloaded";

/// Where the download marker of the engine folder `dir` lives.
pub fn marker_path(dir: &Path) -> (r: PathBuf)
    ensures
        r == joined_path(dir, DOWNLOAD_MARKER@),
{
    join_path(dir, DOWNLOAD_MARKER)
}

/// Why a download cannot start.
#[derive(Debug, Clone, Copy, PartialEq, Eq, Structural)]
pub enum DownloadError {
    /// No ONNX build of the engine's models is published yet.
    NotPublished,
}

pub open spec fn plan_view(r: Result<Vec<ModelFile>, DownloadError>) -> Result<
    Seq<(Seq<char>, Seq<char>)>,
    DownloadError,
> {
    match r {
        Ok(v) => Ok(files_view(v@)),
        Err(e) => Err(e),
    }
}

/// The files a download of `engine` fetches, in order; Sortformer cannot be
/// downloaded yet.
pub fn download_plan(engine: Engine) -> (r: Result<Vec<ModelFile>, DownloadError>)
    ensures
        plan_view(r) == (match engine {
            Engine::Community1 => Ok(model_files(Engine::Community1)),
            Engine::Sortformer => Err(DownloadError::NotPublished),
        }),
{
    match engine {
        Engine::Sortformer => Err(DownloadError::NotPublished),
        Engine::Community1 => Ok(community1_files()),
    }
}

/// Sample rate the diarizer expects.
pub const DIARIZE_SAMPLE_RATE: u32 = 16_000;

/// How the samples of an accepted WAV file are stored.
#[derive(Debug, Clone, Copy, PartialEq, Eq, Structural)]
pub enum SampleEncoding {
    Int16,
    Float32,
}

/// Why a WAV file is refused.
#[derive(Debug, Clone, Copy, PartialEq, Eq, Structural)]
pub enum WavFormatError {
    /// The sample rate is not 16 kHz.
    SampleRate(u32),
    /// The file is not mono.
    Channels(u16),
    /// Neither 16-bit integer nor 32-bit float samples.
    SampleFormat { float: bool, bits: u16 },
}

/// What the diarizer makes of a WAV header: the rate is checked first, then
/// the channel count, then the sample format.
pub open spec fn wav_verdict(sample_rate: u32, channels: u16, is_float: bool, bits_per_sample: u16) -> Result<
    SampleEncoding,
    WavFormatError,
> {
    if sample_rate != DIARIZE_SAMPLE_RATE {
        Err(WavFormatError::SampleRate(sample_rate))
    } else if channels != 1 {
        Err(WavFormatError::Channels(channels))
    } else if !is_float && bits_per_sample == 16 {
        Ok(SampleEncoding::Int16)
    } else if is_float && bits_per_sample == 32 {
        Ok(SampleEncoding::Float32)
    } else {
        Err(WavFormatError::SampleFormat { float: is_float, bits: bits_per_sample })
    }
}

/// Checks a WAV header against what the diarizer reads: 16 kHz mono with
/// 16-bit integer or 32-bit float samples.
pub fn mono_16k_encoding(sample_rate: u32, channels: u16, is_float: bool, bits_per_sample: u16) -> (r:
    Result<SampleEncoding, WavFormatError>)
    ensures
        r == wav_verdict(sample_rate, channels, is_float, bits_per_sample),
{
    if sample_rate != DIARIZE_SAMPLE_RATE {
        return Err(WavFormatError::SampleRate(sample_rate));
    }
    if channels != 1 {
        return Err(WavFormatError::Channels(channels));
    }
    if !is_float && bits_per_sample == 16 {
        Ok(SampleEncoding::Int16)
    } else if is_float && bits_per_sample == 32 {
        Ok(SampleEncoding::Float32)
    } else {
        Err(WavFormatError::SampleFormat { float: is_float, bits: bits_per_sample })
    }
}

/// The header check accepts exactly 16 kHz mono audio with 16-bit integer or
/// 32-bit float samples, and names the sample encoding it found. A header at
/// any other rate is refused for its rate, whatever else it holds; then one
/// with more channels is refused for its channel count; then any other
/// sample format is refused for its format.
pub proof fn law_wav_check_accepts_only_16k_mono(
    sample_rate: u32,
    channels: u16,
    is_float: bool,
    bits_per_sample: u16,
)
    ensures
        wav_verdict(sample_rate, channels, is_float, bits_per_sample) is Ok <==> (sample_rate
            == 16000 && channels == 1 && ((!is_float && bits_per_sample == 16) || (is_float
            && bits_per_sample == 32))),
        wav_verdict(sample_rate, channels, is_float, bits_per_sample) matches Ok(e) ==> e == (
        if is_float {
            SampleEncoding::Float32
        } else {
            SampleEncoding::Int16
        }),
        sample_rate != 16000 ==> wav_verdict(sample_rate, channels, is_float, bits_per_sample)
            == Err::<SampleEncoding, WavFormatError>(WavFormatError::SampleRate(sample_rate)),
        sample_rate == 16000 && channels != 1 ==> wav_verdict(
            sample_rate,
            channels,
            is_float,
            bits_per_sample,
        ) == Err::<SampleEncoding, WavFormatError>(WavFormatError::Channels(channels)),
        sample_rate == 16000 && channels == 1 && wav_verdict(
            sample_rate,
            channels,
            is_float,
            bits_per_sample,
        ) is Err ==> wav_verdict(sample_rate, channels, is_float, bits_per_sample) == Err::<
            SampleEncoding,
            WavFormatError,
        >(WavFormatError::SampleFormat { float: is_float, bits: bits_per_sample }),
{
}

/// The Community-1 download fetches two files, each from its own address
/// into its own path: the pyannote segmentation model into
/// `segmentation.onnx` and the 3D-Speaker ERes2Net embedding model into
/// `embedding.onnx`.
pub proof fn law_community1_catalogue()
    ensures
        model_files(Engine::Community1).len() == 2,
        forall|i: int, j: int|
            0 <= i < j < model_files(Engine::Community1).len() ==> (#[trigger] model_files(
                Engine::Community1,
            )[i]).0 != (#[trigger] model_files(Engine::Community1)[j]).0
                && model_files(Engine::Community1)[i].1 != model_files(Engine::Community1)[j].1,
        forall|i: int|
            0 <= i < model_files(Engine::Community1).len() && (#[trigger] model_files(
                Engine::Community1,
            )[i]).1 == "embedding.onnx"@ ==> model_files(Engine::Community1)[i].0
                == "https://github.com/k2-fsa/sherpa-onnx/releases/download/speaker-recongition-models/3dspeaker_speech_eres2net_base_sv_zh-cn_3dspeaker_16k.onnx"@,
        forall|i: int|
            0 <= i < model_files(Engine::Community1).len() && (#[trigger] model_files(
                Engine::Community1,
            )[i]).1 == "segmentation.onnx"@ ==> model_files(Engine::Community1)[i].0
                == "https://github.com/k2-fsa/sherpa-onnx/releases/download/speaker-segmentation-models/sherpa-onnx-pyannote-segmentation-3-0.tar.bz2"@,
{
    reveal_strlit(
        "https://github.com/k2-fsa/sherpa-onnx/releases/download/speaker-segmentation-models/sherpa-onnx-pyannote-segmentation-3-0.tar.bz2",
    );
    reveal_strlit(
        "https://github.com/k2-fsa/sherpa-onnx/releases/download/speaker-recongition-models/3dspeaker_speech_eres2net_base_sv_zh-cn_3dspeaker_16k.onnx",
    );
    reveal_strlit("segmentation.onnx");
    reveal_strlit("embedding.onnx");
    let fs = model_files(Engine::Community1);
    assert(fs[0].0.len() != fs[1].0.len());
    assert(fs[0].1.len() != fs[1].1.len());
}

} // verus!
