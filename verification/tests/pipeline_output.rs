use std::path::PathBuf;

use wortlaut::pipeline::output_path_for;

#[test]
fn output_lands_next_to_the_source_with_an_mp4_extension() {
    let out = output_path_for("/tmp/does-not-exist-xyz/clip.mov", "bold-center", &[]);
    assert_eq!(PathBuf::from(out), PathBuf::from("/tmp/does-not-exist-xyz/clip-subtext.mp4"));
}

#[test]
fn an_earlier_result_is_never_overwritten() {
    let taken = vec!["clip-subtext.mp4".to_string(), "clip-subtext-2.mp4".to_string()];
    let out = output_path_for("/videos/clip.mov", "bold-center", &taken);
    assert_eq!(out, "/videos/clip-subtext-3.mp4");
    let taken = vec!["other.mp4".to_string()];
    assert_eq!(output_path_for("/videos/clip.mov", "karaoke-line", &taken), "/videos/clip-subtext.mp4");
}

#[test]
fn a_thousand_earlier_results_still_leave_a_free_name() {
    let mut taken = vec!["clip-subtext.mp4".to_string()];
    for n in 2..1000 {
        taken.push(format!("clip-subtext-{n}.mp4"));
    }
    assert_eq!(output_path_for("/v/clip.mov", "x", &taken), "/v/clip-subtext-1000.mp4");
    taken.pop();
    assert_eq!(output_path_for("/v/clip.mov", "x", &taken), "/v/clip-subtext-999.mp4");
    let dupes = vec!["clip-subtext.mp4".to_string(), "clip-subtext.mp4".to_string()];
    assert_eq!(output_path_for("/v/clip.mov", "x", &dupes), "/v/clip-subtext-2.mp4");
}

#[test]
fn relative_and_odd_video_paths() {
    assert_eq!(output_path_for("clip.mov", "x", &[]), "clip-subtext.mp4");
    assert_eq!(output_path_for("dir/archive.tar.gz", "x", &[]), "dir/archive.tar-subtext.mp4");
    assert_eq!(output_path_for("/", "x", &[]), "./video-subtext.mp4");
    assert_eq!(output_path_for("/home/.hidden", "x", &[]), "/home/.hidden-subtext.mp4");
}

#[test]
fn file_stems_follow_the_documented_path_rules() {
    assert_eq!(output_path_for("v/clip.", "x", &[]), "v/clip-subtext.mp4");
    assert_eq!(output_path_for("/v/...", "x", &[]), "/v/..-subtext.mp4");
    assert_eq!(output_path_for("v/x/.", "x", &[]), "v/x-subtext.mp4");
    assert_eq!(output_path_for("a/..", "x", &[]), "a/video-subtext.mp4");
    assert_eq!(output_path_for("v//clip.mov/", "x", &[]), "v/clip-subtext.mp4");
}
