//! The decisions around speech recognition: which language to ask for, which
//! audio shape is accepted, how a recognised segment becomes a [`Word`], and
//! how overlapping words are tidied up.
//!
//! The recogniser itself runs outside this library; it hands back the raw
//! segment texts and times, and these functions turn them into word timings.

use crate::error::Error;
use crate::text::{chars_of, decimal, push_decimal, string_of, trim, trim_chars};
use crate::word::Word;
use vstd::prelude::*;

verus! {

/// The language to hand to the recogniser: the trimmed code, or `auto`
/// (let the recogniser decide) when nothing was chosen.
pub open spec fn language_choice(language: Seq<char>) -> Seq<char> {
    if trim(language).len() == 0 {
        "auto"@
    } else {
        trim(language)
    }
}

/// An empty choice means "let the recogniser decide".
pub fn normalize_language(language: &str) -> (r: String)
    ensures
        r@ == language_choice(language@),
{
    let chars = chars_of(language);
    let t = trim_chars(chars.as_slice());
    if t.len() == 0 {
        String::from_str("auto")
    } else {
        string_of(t.as_slice())
    }
}

/// The sample rate the recogniser expects.
pub const SAMPLE_RATE_HZ: u32 = 16_000;

/// The message that rejects audio of another shape.
pub open spec fn wav_shape_message(channels: u16, sample_rate: u32) -> Seq<char> {
    "expected 16 kHz mono audio, got "@ + decimal(sample_rate as nat) + " Hz with "@ + decimal(
        channels as nat,
    ) + " channel(s)"@
}

/// Only 16 kHz mono audio is accepted; anything else is refused rather than
/// resampled silently wrong.
pub fn check_wav_shape(channels: u16, sample_rate: u32) -> (r: Result<(), Error>)
    ensures
        (channels == 1 && sample_rate == SAMPLE_RATE_HZ) <==> r is Ok,
        r matches Err(e) ==> e matches Error::Transcription(m) && m@ == wav_shape_message(
            channels,
            sample_rate,
        ),
{
    if channels != 1 || sample_rate != SAMPLE_RATE_HZ {
        let mut m = String::from_str("expected 16 kHz mono audio, got ");
        push_decimal(&mut m, sample_rate as u128);
        m.append(" Hz with ");
        push_decimal(&mut m, channels as u128);
        m.append(" channel(s)");
        Err(Error::Transcription(m))
    } else {
        Ok(())
    }
}

/// A recogniser time in hundredths of a second, as milliseconds; negative
/// times count as zero.
pub open spec fn centis_to_ms(t: i64) -> int {
    if t > 0 {
        t * 10
    } else {
        0
    }
}

/// Largest recogniser time whose millisecond value fits in a `u64`.
pub const MAX_CENTIS: i64 = 1_844_674_407_370_955_161;

/// Whether every time of a segment converts to milliseconds without overflow.
pub open spec fn times_fit(seg_t0: i64, seg_t1: i64, tokens: Seq<(i64, i64)>) -> bool {
    &&& seg_t0 <= MAX_CENTIS
    &&& seg_t1 <= MAX_CENTIS
    &&& forall|j: int| 0 <= j < tokens.len() ==> #[trigger] tokens[j].0 <= MAX_CENTIS
        && tokens[j].1 <= MAX_CENTIS
}

/// A token counts when it has a positive length.
pub open spec fn token_counts(t: (i64, i64)) -> bool {
    centis_to_ms(t.1) > centis_to_ms(t.0)
}

/// Earliest start among the counting tokens (`u64::MAX` when none counts).
pub open spec fn tokens_lo(tokens: Seq<(i64, i64)>) -> int
    decreases tokens.len(),
{
    if tokens.len() == 0 {
        u64::MAX as int
    } else {
        let rest = tokens_lo(tokens.drop_last());
        let t = tokens.last();
        if token_counts(t) && centis_to_ms(t.0) < rest {
            centis_to_ms(t.0)
        } else {
            rest
        }
    }
}

/// Latest end among the counting tokens (zero when none counts).
pub open spec fn tokens_hi(tokens: Seq<(i64, i64)>) -> int
    decreases tokens.len(),
{
    if tokens.len() == 0 {
        0
    } else {
        let rest = tokens_hi(tokens.drop_last());
        let t = tokens.last();
        if token_counts(t) && centis_to_ms(t.1) > rest {
            centis_to_ms(t.1)
        } else {
            rest
        }
    }
}

/// The span a segment's word is given: the tighter token span when some
/// token has a positive length, otherwise the coarse segment span.
pub open spec fn segment_span(seg_t0: i64, seg_t1: i64, tokens: Seq<(i64, i64)>) -> (int, int) {
    let lo = tokens_lo(tokens);
    let hi = tokens_hi(tokens);
    if lo != u64::MAX && hi > lo {
        (lo, hi)
    } else {
        (centis_to_ms(seg_t0), centis_to_ms(seg_t1))
    }
}

/// The word one recogniser segment becomes: its trimmed text over
/// [`segment_span`], with the end moved up to the start if it lies before it;
/// no word for a segment whose text is blank.
pub fn segment_word(text: &str, seg_t0: i64, seg_t1: i64, tokens: &[(i64, i64)]) -> (r: Option<Word>)
    requires
        times_fit(seg_t0, seg_t1, tokens@),
    ensures
        trim(text@).len() == 0 <==> r is None,
        r matches Some(w) ==> {
            let span = segment_span(seg_t0, seg_t1, tokens@);
            &&& w.text@ == trim(text@)
            &&& w.start_ms == span.0
            &&& w.end_ms == if span.1 >= span.0 { span.1 } else { span.0 }
        },
{
    let chars = chars_of(text);
    let t = trim_chars(chars.as_slice());
    if t.len() == 0 {
        return None;
    }
    let s0: u64 = if seg_t0 > 0 { seg_t0 as u64 * 10 } else { 0 };
    let s1: u64 = if seg_t1 > 0 { seg_t1 as u64 * 10 } else { 0 };
    let mut lo: u64 = u64::MAX;
    let mut hi: u64 = 0;
    let mut j: usize = 0;
    while j < tokens.len()
        invariant
            j <= tokens.len(),
            times_fit(seg_t0, seg_t1, tokens@),
            lo == tokens_lo(tokens@.take(j as int)),
            hi == tokens_hi(tokens@.take(j as int)),
        decreases tokens.len() - j,
    {
        let (a0, b0) = tokens[j];
        assert(tokens@[j as int].0 <= MAX_CENTIS && tokens@[j as int].1 <= MAX_CENTIS);
        let a: u64 = if a0 > 0 { a0 as u64 * 10 } else { 0 };
        let b: u64 = if b0 > 0 { b0 as u64 * 10 } else { 0 };
        if b > a {
            if a < lo {
                lo = a;
            }
            if b > hi {
                hi = b;
            }
        }
        proof {
            assert(tokens@.take(j + 1).drop_last() =~= tokens@.take(j as int));
            assert(tokens@.take(j + 1).last() == tokens@[j as int]);
        }
        j = j + 1;
    }
    proof {
        assert(tokens@.take(tokens.len() as int) =~= tokens@);
    }
    let (t0, t1) = if lo != u64::MAX && hi > lo {
        (lo, hi)
    } else {
        (s0, s1)
    };
    let text_str = string_of(t.as_slice());
    Some(Word { text: text_str, start_ms: t0, end_ms: if t1 >= t0 { t1 } else { t0 } })
}

/// Length a word with no time of its own is given.
pub const MIN_SEGMENT_MS: u64 = 80;

/// The end the word at `i` gets: cut back to the next word's start when it
/// runs into it, and stretched to `MIN_SEGMENT_MS` when that leaves it with
/// no length.
pub open spec fn clamped_end(words: Seq<Word>, i: int) -> int {
    let w = words[i];
    let e = if i + 1 < words.len() && w.end_ms > words[i + 1].start_ms {
        words[i + 1].start_ms as int
    } else {
        w.end_ms as int
    };
    if e <= w.start_ms {
        w.start_ms + MIN_SEGMENT_MS
    } else {
        e
    }
}

/// Every clamped end fits in a `u64`.
pub open spec fn clamp_fits(words: Seq<Word>) -> bool {
    forall|i: int| 0 <= i < words.len() ==> #[trigger] clamped_end(words, i) <= u64::MAX
}

/// The words with clamped ends: same texts and starts.
pub open spec fn clamped_words(words: Seq<Word>) -> Seq<Word> {
    Seq::new(
        words.len(),
        |i: int| Word { text: words[i].text, start_ms: words[i].start_ms, end_ms: clamped_end(words, i) as u64 },
    )
}

/// The recogniser occasionally emits a segment that ends after the next one
/// starts, or a zero length one. Both make the karaoke timing jitter, so they
/// are tidied here.
pub fn clamp_overlaps(words: Vec<Word>) -> (r: Vec<Word>)
    requires
        clamp_fits(words@),
    ensures
        r@ == clamped_words(words@),
{
    let ghost orig = words@;
    let mut words = words;
    let n = words.len();
    let mut i: usize = 0;
    while i < n
        invariant
            n == words.len(),
            n == orig.len(),
            i <= n,
            clamp_fits(orig),
            forall|j: int| 0 <= j < i ==> #[trigger] words@[j] == clamped_words(orig)[j],
            forall|j: int| i <= j < n ==> #[trigger] words@[j] == orig[j],
        decreases n - i,
    {
        let mut w = Word { text: words[i].text.clone(), start_ms: words[i].start_ms, end_ms: words[i].end_ms };
        if i + 1 < n {
            let next_start = words[i + 1].start_ms;
            if w.end_ms > next_start {
                w.end_ms = next_start;
            }
        }
        if w.end_ms <= w.start_ms {
            assert(clamped_end(orig, i as int) <= u64::MAX);
            w.end_ms = w.start_ms + MIN_SEGMENT_MS;
        }
        words.set(i, w);
        i = i + 1;
    }
    assert(words@ =~= clamped_words(orig));
    words
}

// ---------------------------------------------------------------------------
// Laws
// ---------------------------------------------------------------------------

/// After clamping, every word has a positive length and keeps its start,
/// and it ends no later than the next word starts whenever the next word
/// starts at least `MIN_SEGMENT_MS` after it.
pub proof fn law_clamp_no_overlap(words: Seq<Word>, i: int)
    requires
        0 <= i < words.len(),
    ensures
        clamped_words(words)[i].start_ms == words[i].start_ms,
        clamped_end(words, i) > words[i].start_ms,
        i + 1 < words.len() && words[i].start_ms + MIN_SEGMENT_MS <= words[i + 1].start_ms
            ==> clamped_end(words, i) <= words[i + 1].start_ms,
{
}

/// Clamping changes nothing in words that already neither overlap nor lack
/// a length.
pub proof fn law_clamp_keeps_tidy_words(words: Seq<Word>)
    requires
        forall|i: int| 0 <= i < words.len() ==> #[trigger] words[i].end_ms > words[i].start_ms,
        forall|i: int| 0 <= i < words.len() - 1 ==> #[trigger] words[i].end_ms <= words[i + 1].start_ms,
    ensures
        clamped_words(words) == words,
{
    assert(clamped_words(words) =~= words);
}

/// Every end of a word, the last one included, is its own end cut back to
/// the next word's start; when that leaves the word no length, it ends
/// exactly `MIN_SEGMENT_MS` after its start.
pub proof fn law_clamp_end(words: Seq<Word>, i: int)
    requires
        0 <= i < words.len(),
    ensures
        i + 1 == words.len() ==> clamped_end(words, i) == if words[i].end_ms > words[i].start_ms {
            words[i].end_ms as int
        } else {
            words[i].start_ms + MIN_SEGMENT_MS
        },
        i + 1 < words.len() ==> {
            let cut = if words[i].end_ms <= words[i + 1].start_ms {
                words[i].end_ms as int
            } else {
                words[i + 1].start_ms as int
            };
            clamped_end(words, i) == if cut > words[i].start_ms {
                cut
            } else {
                words[i].start_ms + MIN_SEGMENT_MS
            }
        },
{
}

/// `tokens_lo` is the smallest start and `tokens_hi` the largest end among
/// the tokens with a positive length, each taken from one of them; with no
/// such token they are `u64::MAX` and zero.
proof fn lemma_token_bounds(tokens: Seq<(i64, i64)>)
    ensures
        forall|j: int|
            0 <= j < tokens.len() && #[trigger] token_counts(tokens[j]) ==> tokens_lo(tokens)
                <= centis_to_ms(tokens[j].0) && centis_to_ms(tokens[j].1) <= tokens_hi(tokens),
        tokens_lo(tokens) == u64::MAX || exists|j: int|
            0 <= j < tokens.len() && #[trigger] token_counts(tokens[j]) && tokens_lo(tokens)
                == centis_to_ms(tokens[j].0),
        tokens_hi(tokens) == 0 || exists|j: int|
            0 <= j < tokens.len() && #[trigger] token_counts(tokens[j]) && tokens_hi(tokens)
                == centis_to_ms(tokens[j].1),
        (forall|j: int| 0 <= j < tokens.len() ==> !#[trigger] token_counts(tokens[j])) ==> tokens_lo(
            tokens,
        ) == u64::MAX && tokens_hi(tokens) == 0,
    decreases tokens.len(),
{
    if tokens.len() > 0 {
        let init = tokens.drop_last();
        lemma_token_bounds(init);
        assert forall|j: int| 0 <= j < init.len() implies #[trigger] init[j] == tokens[j] by {}
        let n = tokens.len() - 1;
        assert(tokens.last() == tokens[n]);
        if tokens_lo(init) != u64::MAX && tokens_lo(tokens) == tokens_lo(init) {
            let j = choose|j: int|
                0 <= j < init.len() && #[trigger] token_counts(init[j]) && tokens_lo(init)
                    == centis_to_ms(init[j].0);
            assert(token_counts(tokens[j]));
        }
        if tokens_hi(init) != 0 && tokens_hi(tokens) == tokens_hi(init) {
            let j = choose|j: int|
                0 <= j < init.len() && #[trigger] token_counts(init[j]) && tokens_hi(init)
                    == centis_to_ms(init[j].1);
            assert(token_counts(tokens[j]));
        }
        if forall|j: int| 0 <= j < tokens.len() ==> !#[trigger] token_counts(tokens[j]) {
            assert forall|j: int| 0 <= j < init.len() implies !#[trigger] token_counts(init[j]) by {
                assert(!token_counts(tokens[j]));
            }
            assert(!token_counts(tokens[n]));
        }
        assert forall|j: int|
            0 <= j < tokens.len() && #[trigger] token_counts(tokens[j]) implies tokens_lo(tokens)
                <= centis_to_ms(tokens[j].0) && centis_to_ms(tokens[j].1) <= tokens_hi(tokens) by {
            if j < n {
                assert(token_counts(init[j]));
            }
        }
    }
}

/// When some token has a positive length, the word runs from the earliest
/// start to the latest end of such tokens, each the time of one of them;
/// when none has, the word takes the segment's own times.
pub proof fn law_segment_span_covers_tokens(seg_t0: i64, seg_t1: i64, tokens: Seq<(i64, i64)>)
    requires
        times_fit(seg_t0, seg_t1, tokens),
    ensures
        (exists|j: int| 0 <= j < tokens.len() && #[trigger] token_counts(tokens[j])) ==> {
            let span = segment_span(seg_t0, seg_t1, tokens);
            &&& forall|j: int|
                0 <= j < tokens.len() && #[trigger] token_counts(tokens[j]) ==> span.0 <= centis_to_ms(
                    tokens[j].0,
                ) && centis_to_ms(tokens[j].1) <= span.1
            &&& exists|j: int|
                0 <= j < tokens.len() && #[trigger] token_counts(tokens[j]) && span.0 == centis_to_ms(
                    tokens[j].0,
                )
            &&& exists|j: int|
                0 <= j < tokens.len() && #[trigger] token_counts(tokens[j]) && span.1 == centis_to_ms(
                    tokens[j].1,
                )
        },
        (forall|j: int| 0 <= j < tokens.len() ==> !#[trigger] token_counts(tokens[j])) ==> segment_span(
            seg_t0,
            seg_t1,
            tokens,
        ) == (centis_to_ms(seg_t0), centis_to_ms(seg_t1)),
{
    lemma_token_bounds(tokens);
    if exists|j: int| 0 <= j < tokens.len() && #[trigger] token_counts(tokens[j]) {
        let j = choose|j: int| 0 <= j < tokens.len() && #[trigger] token_counts(tokens[j]);
        assert(tokens[j].0 <= MAX_CENTIS && tokens[j].1 <= MAX_CENTIS);
        assert(tokens_lo(tokens) <= centis_to_ms(tokens[j].0));
        assert(centis_to_ms(tokens[j].0) < u64::MAX);
        assert(tokens_hi(tokens) >= centis_to_ms(tokens[j].1));
    }
}

} // verus!
