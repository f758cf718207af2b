use wortlaut::word::{plausible_duration_ms, settle_durations, settle_durations_checked, MIN_WORD_MS};
use wortlaut::Word;

fn w(text: &str, s: u64, e: u64) -> Word {
    Word { text: text.to_string(), start_ms: s, end_ms: e }
}

#[test]
fn a_word_that_swallowed_a_pause_gets_trimmed() {
    // "Kleiner," reported as 2.14s: real speech plus 1.5s of silence.
    let out = settle_durations(&[w("Kleiner,", 960, 3100)]);
    let dur = out[0].end_ms - out[0].start_ms;
    assert!(dur < 800, "expected a plausible duration, got {dur}ms");
    assert_eq!(out[0].start_ms, 960, "the start must not move");
}

#[test]
fn normal_timings_are_left_alone() {
    let ws = [w("Aber", 6000, 6380), w("warte", 6380, 6850)];
    let out = settle_durations(&ws);
    assert_eq!(out[0].end_ms, 6380);
    assert_eq!(out[1].end_ms, 6850);
}

#[test]
fn trimming_reveals_the_gap_that_was_hidden_in_the_word() {
    let ws = [w("Nein.", 8000, 10000), w("Ich", 10000, 10570)];
    let out = settle_durations(&ws);
    let gap = out[1].start_ms - out[0].end_ms;
    assert!(gap > 800, "the pause must become visible again, got {gap}ms");
}

#[test]
fn a_long_word_is_allowed_to_take_longer() {
    // Long words legitimately take longer than short ones.
    assert!(plausible_duration_ms("Geschwindigkeit") > plausible_duration_ms("ich"));
}

#[test]
fn a_zero_length_dtw_word_becomes_readable() {
    // DTW marks a start; a single token word arrives with no span at all.
    let out = settle_durations(&[w("Komm", 5040, 5040)]);
    let dur = out[0].end_ms - out[0].start_ms;
    assert!(dur >= MIN_WORD_MS, "expected a readable duration, got {dur}ms");
}

#[test]
fn a_word_never_eats_into_the_next_one() {
    // Two words 200ms apart: the first must stop before the second starts,
    // even though its text alone suggests a longer span.
    let out = settle_durations(&[w("Wahnsinn", 1000, 1000), w("ja", 1200, 1400)]);
    assert!(
        out[0].end_ms <= out[1].start_ms,
        "{} ran into {}",
        out[0].end_ms,
        out[1].start_ms
    );
}

#[test]
fn a_pause_after_a_word_survives_as_a_gap() {
    // "noch." at 7.88s, next word at 10.18s: a 2.3s pause must stay a pause.
    let out = settle_durations(&[w("noch.", 7880, 10000), w("Nein.", 10180, 10380)]);
    let gap = out[1].start_ms - out[0].end_ms;
    assert!(gap > 1500, "pause collapsed to {gap}ms");
}

#[test]
fn plausible_duration_counts_only_alphanumerics() {
    // 75 ms per letter or digit, floor 180, ceiling 1500.
    assert_eq!(plausible_duration_ms("ich"), 225);
    assert_eq!(plausible_duration_ms("Geschwindigkeit"), 1125);
    assert_eq!(plausible_duration_ms("a"), 180);
    assert_eq!(plausible_duration_ms(""), 180);
    assert_eq!(plausible_duration_ms("..."), 180);
    assert_eq!(plausible_duration_ms("Kleiner,"), 525);
    assert_eq!(plausible_duration_ms("läuft"), 375);
    assert_eq!(plausible_duration_ms("Donaudampfschifffahrtsgesellschaft"), 1500);
}

#[test]
fn settle_keeps_texts_and_starts() {
    let ws = [w("eins", 0, 300), w("zwei", 500, 500), w("drei", 900, 5000)];
    let out = settle_durations(&ws);
    assert_eq!(out.len(), 3);
    for (a, b) in ws.iter().zip(out.iter()) {
        assert_eq!(a.text, b.text);
        assert_eq!(a.start_ms, b.start_ms);
        assert!(b.end_ms > b.start_ms);
    }
    // "eins": reported 300 is in proportion and above the minimum.
    assert_eq!(out[0].end_ms, 300);
    // "zwei": zero length, stretched to its plausible 300 but only up to the next start.
    assert_eq!(out[1].end_ms, 800);
    // "drei": 4100 ms is far beyond twice its plausible 300, so it is cut to 300.
    assert_eq!(out[2].end_ms, 1200);
}

#[test]
fn settle_is_idempotent() {
    let ws = [
        w("Kleiner,", 960, 3100),
        w("Komm", 5040, 5040),
        w("Wahnsinn", 6000, 6000),
        w("ja", 6200, 6400),
        w("Nein.", 8000, 10000),
    ];
    let once = settle_durations(&ws);
    let twice = settle_durations(&once);
    assert_eq!(once, twice);
}

#[test]
fn settle_gives_a_word_starting_with_its_neighbour_one_millisecond() {
    // The next word starts at the same instant, so there is no room at all.
    let out = settle_durations(&[w("a", 100, 400), w("b", 100, 400)]);
    assert_eq!(out[0].end_ms, 101);
    assert_eq!(out[1].end_ms, 400);
}

#[test]
fn word_new_clamps_the_end_to_the_start() {
    let a = Word::new("vor", 500, 200);
    assert_eq!(a.text, "vor");
    assert_eq!((a.start_ms, a.end_ms), (500, 500));
    let b = Word::new("nach", 200, 500);
    assert_eq!((b.start_ms, b.end_ms), (200, 500));
    assert_eq!(b.duration_ms(), 300);
    let c = Word { text: String::new(), start_ms: 9, end_ms: 3 };
    assert_eq!(c.duration_ms(), 0);
}

#[test]
fn empty_input_settles_to_nothing() {
    assert!(settle_durations(&[]).is_empty());
}

#[test]
fn the_checked_form_agrees_and_refuses_only_an_overflowing_end() {
    let ws = [w("Nein.", 8000, 10000), w("Ich", 10000, 10570)];
    assert_eq!(settle_durations_checked(&ws), Some(settle_durations(&ws)));
    assert_eq!(settle_durations_checked(&[]), Some(vec![]));
    let late = u64::MAX - 100;
    assert_eq!(settle_durations_checked(&[w("spät", late, late)]), None);
    let fine = u64::MAX - 3000;
    let out = settle_durations_checked(&[w("spät", fine, fine)]).unwrap();
    assert_eq!(out[0].end_ms, fine + 300);
}
