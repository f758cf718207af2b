use wortlaut::asr::{check_wav_shape, clamp_overlaps, normalize_language, segment_word};
use wortlaut::{Error, Word};

#[test]
fn overlapping_segments_are_trimmed_to_the_next_start() {
    let words = clamp_overlaps(vec![
        Word::new("eins", 0, 600),
        Word::new("zwei", 400, 400),
        Word::new("drei", 900, 1200),
    ]);
    assert_eq!(words[0].end_ms, 400, "first word must not run into the second");
    assert_eq!(words[1].end_ms, 480, "zero length words get a minimum duration");
    assert_eq!(words[2].end_ms, 1200);
}

#[test]
fn clamping_keeps_tidy_words_unchanged() {
    let input = vec![Word::new("a", 0, 100), Word::new("b", 100, 250), Word::new("c", 300, 301)];
    let out = clamp_overlaps(input.clone());
    assert_eq!(out, input);
}

#[test]
fn a_word_closer_than_the_minimum_may_still_reach_past_its_neighbour() {
    // Zero length at 0 and the next word at 50: the minimum length wins.
    let out = clamp_overlaps(vec![Word::new("x", 0, 0), Word::new("y", 50, 90)]);
    assert_eq!(out[0].end_ms, 80);
    assert_eq!(out[1].end_ms, 90);
}

#[test]
fn language_choice_defaults_to_auto() {
    assert_eq!(normalize_language(""), "auto");
    assert_eq!(normalize_language("   "), "auto");
    assert_eq!(normalize_language(" de "), "de");
    assert_eq!(normalize_language("auto"), "auto");
    assert_eq!(normalize_language("en"), "en");
}

#[test]
fn only_sixteen_kilohertz_mono_is_accepted() {
    assert!(check_wav_shape(1, 16_000).is_ok());
    match check_wav_shape(2, 44_100) {
        Err(Error::Transcription(m)) => {
            assert_eq!(m, "expected 16 kHz mono audio, got 44100 Hz with 2 channel(s)")
        }
        other => panic!("unexpected {other:?}"),
    }
    match check_wav_shape(1, 8_000) {
        Err(Error::Transcription(m)) => {
            assert_eq!(m, "expected 16 kHz mono audio, got 8000 Hz with 1 channel(s)")
        }
        other => panic!("unexpected {other:?}"),
    }
}

#[test]
fn a_segment_uses_its_token_span_when_one_is_sane() {
    // Segment 1.00s..3.00s, tokens 1.20s..1.50s and an empty token.
    let w = segment_word("  Hallo ", 100, 300, &[(120, 150), (160, 160)]).unwrap();
    assert_eq!(w.text, "Hallo");
    assert_eq!((w.start_ms, w.end_ms), (1200, 1500));
}

#[test]
fn a_segment_falls_back_to_its_own_span() {
    let w = segment_word("Welt", 100, 300, &[(150, 150)]).unwrap();
    assert_eq!((w.start_ms, w.end_ms), (1000, 3000));
    let w = segment_word("Welt", 100, 300, &[]).unwrap();
    assert_eq!((w.start_ms, w.end_ms), (1000, 3000));
    // Negative times count as zero; an end before the start is moved up.
    let w = segment_word("x", -5, -1, &[]).unwrap();
    assert_eq!((w.start_ms, w.end_ms), (0, 0));
    let w = segment_word("x", 50, 20, &[]).unwrap();
    assert_eq!((w.start_ms, w.end_ms), (500, 500));
}

#[test]
fn a_blank_segment_is_no_word() {
    assert!(segment_word("   ", 0, 10, &[]).is_none());
    assert!(segment_word("", 0, 10, &[(1, 5)]).is_none());
}
