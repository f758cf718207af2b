use wortlaut::ffmpeg::{
    binary_candidates, ffmpeg_failed, ffmpeg_missing, first_found, probe_video_info,
    progress_timecode, read_probe_output, render_setup, split_timecode, tail, timecode_in_range,
};
use wortlaut::pipeline::style_for_frame;
use wortlaut::{Error, StylePreset, VideoInfo};

// The float step a caller adds to the library's split: seconds read as `f64`.
fn parse_timecode_ms(tc: &str) -> Option<u64> {
    let (whole, seconds) = split_timecode(tc)?;
    let s: f64 = seconds.parse().ok()?;
    Some((whole as f64 * 1000.0 + s * 1000.0).round() as u64)
}

// The float step a caller adds to the probe readings.
fn parse_probe_output(text: &str) -> Option<VideoInfo> {
    let r = read_probe_output(text);
    let ds: Vec<u64> = r
        .durations
        .iter()
        .map(|d| (d.parse::<f64>().unwrap_or(0.0) * 1000.0).round() as u64)
        .collect();
    let rot = r.rotation.as_deref().map(|v| v.parse::<f64>().unwrap_or(0.0).round() as i64).unwrap_or(0);
    probe_video_info(r.width, r.height, &ds, rot)
}

fn split(tc: &str) -> Option<(u64, String)> {
    split_timecode(tc)
}

#[test]
fn timecodes_from_ffmpeg_progress_parse_to_milliseconds() {
    assert_eq!(parse_timecode_ms("00:00:00.000000"), Some(0));
    assert_eq!(parse_timecode_ms("00:00:12.500000"), Some(12_500));
    assert_eq!(parse_timecode_ms("01:02:03.250000"), Some(3_723_250));
    assert_eq!(parse_timecode_ms("N/A"), None);
}

#[test]
fn timecode_fields_are_split_off() {
    // Fields are trimmed, a plus sign is accepted, extra fields are ignored.
    assert_eq!(split(" 00 : 01 : 02.5 "), Some((60, "02.5".to_string())));
    assert_eq!(split("+1:00:00:99"), Some((3600, "00".to_string())));
    assert_eq!(split("01:02:03.250000"), Some((3720, "03.250000".to_string())));
    assert_eq!(split("00:01:-0.25"), Some((60, "-0.25".to_string())));
    // The seconds text is handed on as it stands, for the float to read.
    assert_eq!(split("00:00:12.0005"), Some((0, "12.0005".to_string())));
    // Missing or unreadable fields.
    assert_eq!(split("00:00"), None);
    assert_eq!(split("-00:00:01.0"), None);
    assert_eq!(split("00:00:x"), None);
    assert_eq!(split("00:00:."), None);
}

#[test]
fn huge_hours_are_out_of_range() {
    assert!(timecode_in_range("01:02:03.25"));
    assert!(timecode_in_range("N/A"));
    assert!(!timecode_in_range("18446744073709551615:00:00"));
    // Unreadable seconds never reach the multiplication.
    assert!(timecode_in_range("18446744073709551615:00:x"));
}

#[test]
fn progress_lines_give_their_out_time() {
    assert_eq!(progress_timecode("out_time=00:00:01.500000").as_deref(), Some("00:00:01.500000"));
    assert_eq!(progress_timecode("out_time= 00:00:02.0 ").as_deref(), Some("00:00:02.0"));
    assert_eq!(progress_timecode("out_time_ms=1500000"), None);
    assert_eq!(progress_timecode("frame=12"), None);
    assert_eq!(progress_timecode("out_time"), None);
}

#[test]
fn tail_keeps_the_last_six_lines() {
    assert_eq!(tail(""), "");
    assert_eq!(tail("  one line \n"), "one line");
    assert_eq!(tail("1\n2\n3\n4\n5\n6\n7\n8\n"), "3\n4\n5\n6\n7\n8");
    assert_eq!(tail("a\r\nb\r\nc"), "a\nb\nc");
    assert_eq!(tail("a\n\nb"), "a\n\nb");
}

#[test]
fn ffmpeg_errors_carry_their_details() {
    match ffmpeg_failed("probe", "x\n1\n2\n3\n4\n5\n6\n") {
        Error::FfmpegFailed { context, stderr } => {
            assert_eq!(context, "probe");
            assert_eq!(stderr, "1\n2\n3\n4\n5\n6");
        }
        other => panic!("unexpected {other:?}"),
    }
    let cands = binary_candidates(None, "ffmpeg");
    match ffmpeg_missing(&cands) {
        Error::FfmpegMissing { searched } => assert_eq!(
            searched,
            "/opt/homebrew/bin/ffmpeg, /usr/local/bin/ffmpeg, /opt/local/bin/ffmpeg, /usr/bin/ffmpeg, PATH"
        ),
        other => panic!("unexpected {other:?}"),
    }
}

#[test]
fn the_override_directory_is_searched_first() {
    assert_eq!(
        binary_candidates(Some("/custom/"), "ffprobe"),
        vec![
            "/custom/ffprobe",
            "/opt/homebrew/bin/ffprobe",
            "/usr/local/bin/ffprobe",
            "/opt/local/bin/ffprobe",
            "/usr/bin/ffprobe"
        ]
    );
    assert_eq!(binary_candidates(Some("tools"), "ffmpeg")[0], "tools/ffmpeg");
    assert_eq!(binary_candidates(Some(""), "ffmpeg")[0], "ffmpeg");
}

#[test]
fn probe_output_gives_size_and_duration() {
    let text = "width=720\nheight=1280\nduration=3.000000\n";
    assert_eq!(
        parse_probe_output(text),
        Some(VideoInfo { width: 720, height: 1280, duration_ms: 3000 })
    );
}

#[test]
fn a_quarter_turn_swaps_width_and_height() {
    let text = "width=1920\nheight=1080\nrotation=-90\nduration=12.3456\n";
    assert_eq!(
        parse_probe_output(text),
        Some(VideoInfo { width: 1080, height: 1920, duration_ms: 12_346 })
    );
    let text = "width=1920\r\nheight=1080\r\nTAG:rotate=270\r\n";
    assert_eq!(
        parse_probe_output(text),
        Some(VideoInfo { width: 1080, height: 1920, duration_ms: 0 })
    );
    let text = "width=1920\nheight=1080\nrotate=180\n";
    assert_eq!(
        parse_probe_output(text),
        Some(VideoInfo { width: 1920, height: 1080, duration_ms: 0 })
    );
}

#[test]
fn probe_output_without_a_frame_size_is_refused() {
    assert_eq!(parse_probe_output(""), None);
    assert_eq!(parse_probe_output("duration=3.0\nwidth=720\n"), None);
    assert_eq!(parse_probe_output("width=abc\nheight=1280\n"), None);
}

#[test]
fn only_the_first_non_zero_duration_counts() {
    let text = "width=2\nheight=2\nduration=N/A\nduration=1.5\nduration=9\n";
    assert_eq!(
        parse_probe_output(text),
        Some(VideoInfo { width: 2, height: 2, duration_ms: 1500 })
    );
    let text = " width = 2 \nnoise\nheight=2\n";
    assert_eq!(parse_probe_output(text), Some(VideoInfo { width: 2, height: 2, duration_ms: 0 }));
}

#[test]
fn rendering_runs_next_to_the_subtitle_file() {
    let (dir, filter) = render_setup("/tmp/work/subs.ass");
    assert_eq!((dir.as_str(), filter.as_str()), ("/tmp/work", "ass=subs.ass"));
    let (dir, filter) = render_setup("captions.ass");
    assert_eq!((dir.as_str(), filter.as_str()), ("", "ass=captions.ass"));
    let (dir, filter) = render_setup("/");
    assert_eq!((dir.as_str(), filter.as_str()), (".", "ass=subs.ass"));
}

#[test]
fn seconds_are_accepted_as_float_parsing_accepts_them() {
    for ok in ["1e1", "1.5E-1", "25e-3", ".5e+1", "inf", "-Infinity", "NaN", "1e400", "7", "+3."] {
        let tc = format!("00:00:{ok}");
        assert_eq!(split(&tc), Some((0, ok.to_string())), "{tc}");
        assert!(ok.parse::<f64>().is_ok());
    }
    for bad in ["e5", "1e", "1e+", "infinit", "1.2.3", ""] {
        let tc = format!("00:00:{bad}");
        assert_eq!(split(&tc), None, "{tc}");
        assert!(bad.parse::<f64>().is_err());
    }
}

#[test]
fn probe_values_in_float_notation() {
    let text = "width=1920\nheight=1080\nrotation=9e1\nduration=INF\n";
    assert_eq!(
        parse_probe_output(text),
        Some(VideoInfo { width: 1080, height: 1920, duration_ms: u64::MAX })
    );
    let text = "width=1920\nheight=1080\nrotation=-2.5e1\nduration=1.0006\n";
    assert_eq!(
        parse_probe_output(text),
        Some(VideoInfo { width: 1920, height: 1080, duration_ms: 1001 })
    );
}

#[test]
fn probe_readings_keep_the_value_texts() {
    let r = read_probe_output("width=720\nheight=1280\nduration= 4.0005 \nrotate=90\nrotation=-90.5\nduration=2\n");
    assert_eq!((r.width, r.height), (720, 1280));
    assert_eq!(r.durations, vec!["4.0005".to_string(), "2".to_string()]);
    assert_eq!(r.rotation.as_deref(), Some("-90.5"));
    // The float step then gives what the f64 product rounds to.
    assert_eq!(parse_probe_output("width=1\nheight=1\nduration=4.0005\n").unwrap().duration_ms, 4000);
    let r = read_probe_output("noise\nwidth=x\n");
    assert_eq!((r.width, r.height, r.durations.len(), r.rotation), (0, 0, 0, None));
}

#[test]
fn video_info_from_integer_readings() {
    assert_eq!(probe_video_info(0, 5, &[1], 0), None);
    assert_eq!(probe_video_info(5, 0, &[1], 0), None);
    assert_eq!(probe_video_info(4, 3, &[0, 0, 7, 9], 0), Some(VideoInfo { width: 4, height: 3, duration_ms: 7 }));
    assert_eq!(probe_video_info(4, 3, &[], 0), Some(VideoInfo { width: 4, height: 3, duration_ms: 0 }));
    assert_eq!(probe_video_info(4, 3, &[1], 90), Some(VideoInfo { width: 3, height: 4, duration_ms: 1 }));
    assert_eq!(probe_video_info(4, 3, &[1], -270), Some(VideoInfo { width: 3, height: 4, duration_ms: 1 }));
    assert_eq!(probe_video_info(4, 3, &[1], 180), Some(VideoInfo { width: 4, height: 3, duration_ms: 1 }));
    assert_eq!(probe_video_info(4, 3, &[1], i64::MIN), Some(VideoInfo { width: 4, height: 3, duration_ms: 1 }));
}

#[test]
fn the_first_existing_candidate_is_used() {
    assert_eq!(first_found(&[]), None);
    assert_eq!(first_found(&[false, false]), None);
    assert_eq!(first_found(&[false, true, true]), Some(1));
    assert_eq!(first_found(&[true, true]), Some(0));
}

#[test]
fn the_script_resolution_follows_the_frame() {
    let style = StylePreset::BoldCenter.style();
    let info = VideoInfo { width: 3840, height: 2160, duration_ms: 5 };
    let s = style_for_frame(style.clone(), &info);
    assert_eq!((s.play_res_x, s.play_res_y), (3840, 2160));
    assert_eq!(s.id, style.id);
    assert_eq!(s.font_size_pct_x100, style.font_size_pct_x100);
}
