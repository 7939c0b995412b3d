use humla::diarize::{
    community1_files, download_plan, expected_paths, mono_16k_encoding, sortformer_files,
    DownloadError, Engine, SampleEncoding, WavFormatError, DOWNLOAD_MARKER, marker_path,
};
use std::path::{Path, PathBuf};

#[test]
fn engine_names() {
    assert_eq!(Engine::parse("sortformer"), Engine::Sortformer);
    assert_eq!(Engine::parse("community1"), Engine::Community1);
    assert_eq!(Engine::parse("anything"), Engine::Community1);
    assert_eq!(Engine::parse(""), Engine::Community1);
    assert_eq!(Engine::Community1.folder_name(), "community1");
    assert_eq!(Engine::Sortformer.folder_name(), "sortformer");
}

#[test]
fn folder_name_parses_back() {
    for e in [Engine::Community1, Engine::Sortformer] {
        assert_eq!(Engine::parse(e.folder_name()), e);
    }
}

#[test]
fn model_file_lists() {
    let c = community1_files();
    assert_eq!(c.len(), 2);
    assert_eq!(c[0].rel_path, "segmentation.onnx");
    assert_eq!(c[1].rel_path, "embedding.onnx");
    assert!(c[0].url.ends_with("sherpa-onnx-pyannote-segmentation-3-0.tar.bz2"));
    let s = sortformer_files();
    assert_eq!(s.len(), 1);
    assert_eq!(s[0].rel_path, "sortformer.onnx");
}

#[test]
fn expected_paths_join_the_folder() {
    let dir = Path::new("models").join("diarize").join("community1");
    let paths = expected_paths(Engine::Community1, &dir);
    assert_eq!(paths, vec![dir.join("segmentation.onnx"), dir.join("embedding.onnx")]);
    assert_ne!(paths[0], PathBuf::from("segmentation.onnx"));
    let paths = expected_paths(Engine::Sortformer, &dir);
    assert_eq!(paths, vec![dir.join("sortformer.onnx")]);
}

#[test]
fn download_plans() {
    let plan = download_plan(Engine::Community1).unwrap();
    assert_eq!(plan.len(), 2);
    assert_eq!(plan[1].rel_path, "embedding.onnx");
    assert_eq!(download_plan(Engine::Sortformer).unwrap_err(), DownloadError::NotPublished);
    assert_eq!(DOWNLOAD_MARKER, ".downloaded");
}

#[test]
fn wav_format_checks() {
    assert_eq!(mono_16k_encoding(16_000, 1, false, 16), Ok(SampleEncoding::Int16));
    assert_eq!(mono_16k_encoding(16_000, 1, true, 32), Ok(SampleEncoding::Float32));
    assert_eq!(mono_16k_encoding(44_100, 1, false, 16), Err(WavFormatError::SampleRate(44_100)));
    assert_eq!(mono_16k_encoding(44_100, 2, false, 16), Err(WavFormatError::SampleRate(44_100)));
    assert_eq!(mono_16k_encoding(16_000, 2, false, 16), Err(WavFormatError::Channels(2)));
    assert_eq!(
        mono_16k_encoding(16_000, 1, false, 24),
        Err(WavFormatError::SampleFormat { float: false, bits: 24 })
    );
    assert_eq!(
        mono_16k_encoding(16_000, 1, true, 16),
        Err(WavFormatError::SampleFormat { float: true, bits: 16 })
    );
}

#[test]
fn marker_lives_in_engine_folder() {
    let dir = Path::new("models").join("community1");
    let m = marker_path(&dir);
    assert_eq!(m, dir.join(".downloaded"));
    assert_ne!(m, dir);
    assert_eq!(m.file_name().and_then(|n| n.to_str()), Some(DOWNLOAD_MARKER));
}
