use std::path::PathBuf;

use wortlaut::models::{catalog, first_installed, model_url, part_file_name, spec, statuses};
use wortlaut::Error;

#[test]
fn the_catalogue_is_smallest_first() {
    let c = catalog();
    let ids: Vec<&str> = c.iter().map(|m| m.id).collect();
    assert_eq!(ids, ["base", "small", "large-v3-turbo"]);
    assert!(c[0].approx_bytes < c[1].approx_bytes && c[1].approx_bytes < c[2].approx_bytes);
    assert_eq!(spec("small").map(|m| m.file), Some("ggml-small.bin"));
    assert_eq!(spec("large-v3-turbo").map(|m| m.approx_bytes), Some(1_624_555_275));
    assert!(spec("tiny").is_none());
}

#[test]
fn statuses_follow_the_installed_flags() {
    let s = statuses(&[false, true, false]);
    assert_eq!(s.len(), 3);
    assert_eq!((s[0].id.as_str(), s[0].installed), ("base", false));
    assert_eq!((s[1].id.as_str(), s[1].installed), ("small", true));
    assert!(!s[2].installed);
    assert!(statuses(&[]).iter().all(|m| !m.installed));
}

#[test]
fn the_smallest_installed_model_is_used() {
    assert_eq!(first_installed("/m", &[false, false, false]), None);
    assert_eq!(
        first_installed("/m", &[false, true, true]),
        Some(("small".to_string(), "/m/ggml-small.bin".to_string()))
    );
    assert_eq!(
        first_installed("/m/", &[false, false, true]),
        Some(("large-v3-turbo".to_string(), "/m/ggml-large-v3-turbo.bin".to_string()))
    );
}

#[test]
fn every_error_kind_has_its_own_code() {
    let errors = [
        Error::FfmpegMissing { searched: String::new() },
        Error::FfmpegFailed { context: String::new(), stderr: String::new() },
        Error::FileNotFound(PathBuf::from("/x")),
        Error::ModelMissing,
        Error::Transcription(String::new()),
        Error::UnknownDuration(PathBuf::from("/x")),
        Error::Io(std::io::Error::other("x")),
    ];
    let codes: Vec<&str> = errors.iter().map(|e| e.code()).collect();
    assert_eq!(
        codes,
        [
            "ffmpeg_missing",
            "ffmpeg_failed",
            "file_not_found",
            "model_missing",
            "transcription_failed",
            "unknown_duration",
            "io_error"
        ]
    );
}

#[test]
fn downloads_go_to_a_partial_file_first() {
    assert_eq!(
        model_url("ggml-base.bin"),
        "https://huggingface.co/ggerganov/whisper.cpp/resolve/main/ggml-base.bin"
    );
    assert_eq!(part_file_name("ggml-base.bin"), "ggml-base.bin.part");
}
