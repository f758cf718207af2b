//! Word level transcription results and the timing rules that make them
//! readable on screen.

use vstd::prelude::*;

verus! {

/// A single spoken word with its position in the audio.
///
/// Timestamps are milliseconds from the start of the media. `end_ms` is
/// exclusive; [`Word::new`] clamps it to be at least `start_ms`.
#[derive(Debug, Clone, PartialEq, Eq)]
pub struct Word {
    pub text: String,
    pub start_ms: u64,
    pub end_ms: u64,
}

/// Anything that can turn a 16 kHz mono WAV file into word level timings.
pub trait Transcriber: Send + Sync {
    fn transcribe_words(&self, wav_path: &std::path::Path) -> Result<Vec<Word>, crate::error::Error>;
}

/// Shortest a single word may stay on screen. Below this it reads as a flicker.
pub const MIN_WORD_MS: u64 = 180;

/// `a - b`, or zero when `b` is larger.
pub open spec fn sat_sub(a: int, b: int) -> int {
    if a >= b {
        a - b
    } else {
        0
    }
}

impl Word {
    /// A word spoken from `start_ms` to `end_ms`; an end before the start is
    /// moved up to the start.
    pub fn new(text: &str, start_ms: u64, end_ms: u64) -> (w: Word)
        ensures
            w.text@ == text@,
            w.start_ms == start_ms,
            w.end_ms == if end_ms >= start_ms { end_ms } else { start_ms },
    {
        Word { text: String::from_str(text), start_ms, end_ms: if end_ms >= start_ms { end_ms } else { start_ms } }
    }

    /// How long the word lasts; zero when the end lies before the start.
    pub fn duration_ms(&self) -> (d: u64)
        ensures
            d == sat_sub(self.end_ms as int, self.start_ms as int),
    {
        self.end_ms.saturating_sub(self.start_ms)
    }
}

/// Whether `char::is_alphanumeric` holds of `c` (Unicode `Alphabetic` or
/// `Numeric`).
pub uninterp spec fn char_is_alphanumeric(c: char) -> bool;

/// `char::is_alphanumeric`. Its contract only names the result: the Unicode
/// tables behind it are not restated here.
#[verifier::external_body]
fn is_alphanumeric(c: char) -> (r: bool)
    ensures
        r == char_is_alphanumeric(c),
{
    c.is_alphanumeric()
}

/// How many characters of `s` are alphanumeric.
pub open spec fn alnum_count(s: Seq<char>) -> nat
    decreases s.len(),
{
    if s.len() == 0 {
        0
    } else {
        alnum_count(s.drop_last()) + if char_is_alphanumeric(s.last()) {
            1nat
        } else {
            0nat
        }
    }
}

/// `x` limited to the range `lo..=hi`.
pub open spec fn clamp(x: int, lo: int, hi: int) -> int {
    if x < lo {
        lo
    } else if x > hi {
        hi
    } else {
        x
    }
}

/// 75 ms per alphanumeric character (at least one), kept within 180..=1500 ms.
pub open spec fn plausible_ms(count: nat) -> int {
    clamp(if count == 0 { 75 } else { (count * 75) as int }, 180, 1500)
}

/// The plausible spoken duration of a word with `count` alphanumeric
/// characters.
pub fn plausible_duration_for_count(count: usize) -> (d: u64)
    ensures
        d == plausible_ms(count as nat),
{
    // Beyond 20 characters the ceiling applies anyway.
    let c: u64 = if count == 0 {
        1
    } else if count > 20 {
        21
    } else {
        count as u64
    };
    let raw = c * 75;
    if raw < 180 {
        180
    } else if raw > 1500 {
        1500
    } else {
        raw
    }
}

/// Roughly how long a word of this text takes to say, in milliseconds.
/// Speech runs at about 12 to 15 characters per second, so ~75ms per
/// character, with a floor for very short words and a ceiling because no
/// single ordinary word takes longer than about a second and a half.
pub fn plausible_duration_ms(text: &str) -> (d: u64)
    ensures
        d == plausible_ms(alnum_count(text@)),
{
    let chars = crate::text::chars_of(text);
    let mut count: usize = 0;
    let mut i: usize = 0;
    while i < chars.len()
        invariant
            i <= chars.len(),
            count <= i,
            count == alnum_count(chars@.take(i as int)),
        decreases chars.len() - i,
    {
        let a = is_alphanumeric(chars[i]);
        proof {
            assert(chars@.take(i + 1).drop_last() =~= chars@.take(i as int));
        }
        if a {
            count = count + 1;
        }
        i = i + 1;
    }
    proof {
        assert(chars@.take(i as int) =~= text@);
    }
    plausible_duration_for_count(count)
}

/// The length the settled word at `i` is given: the reported length when it
/// is in proportion to the text, otherwise the plausible one, never reaching
/// into the next word's start and never zero.
pub open spec fn settled_len(words: Seq<Word>, i: int) -> int {
    let w = words[i];
    let p = plausible_ms(alnum_count(w.text@));
    let room = if i + 1 < words.len() {
        sat_sub(words[i + 1].start_ms as int, w.start_ms as int)
    } else {
        u64::MAX as int
    };
    let reported = sat_sub(w.end_ms as int, w.start_ms as int);
    let wanted = if reported > 0 && reported <= p * 2 {
        if reported >= MIN_WORD_MS {
            reported
        } else {
            MIN_WORD_MS as int
        }
    } else {
        p
    };
    let len = if wanted <= room {
        wanted
    } else {
        room
    };
    if len >= 1 {
        len
    } else {
        1
    }
}

/// The settled end of the word at `i`.
pub open spec fn settled_end(words: Seq<Word>, i: int) -> int {
    words[i].start_ms + settled_len(words, i)
}

/// Every settled end fits in a `u64`.
pub open spec fn settle_fits(words: Seq<Word>) -> bool {
    forall|i: int| 0 <= i < words.len() ==> #[trigger] settled_end(words, i) <= u64::MAX
}

/// The words with settled durations: same texts and starts, new ends.
pub open spec fn settled_words(words: Seq<Word>) -> Seq<Word> {
    Seq::new(
        words.len(),
        |i: int| Word { text: words[i].text, start_ms: words[i].start_ms, end_ms: settled_end(words, i) as u64 },
    )
}

/// The settled length of the word at `i`, as `settled_len` states it.
fn settled_len_at(words: &[Word], i: usize) -> (len: u64)
    requires
        i < words.len(),
    ensures
        len == settled_len(words@, i as int),
{
    let n = words.len();
    let w = &words[i];
    let plausible = plausible_duration_ms(w.text.as_str());
    let room = if i + 1 < n {
        words[i + 1].start_ms.saturating_sub(w.start_ms)
    } else {
        u64::MAX
    };
    let reported = w.end_ms.saturating_sub(w.start_ms);
    let wanted = if reported > 0 && reported <= plausible * 2 {
        if reported >= MIN_WORD_MS {
            reported
        } else {
            MIN_WORD_MS
        }
    } else {
        plausible
    };
    let len = if wanted <= room {
        wanted
    } else {
        room
    };
    if len >= 1 {
        len
    } else {
        1
    }
}

/// DTW reports where a word *starts*, not how long it lasts, so a word can
/// arrive with a zero length span. This gives every word a duration that is
/// long enough to read but never runs into the next word, which is what keeps
/// a pause on screen as a pause.
///
/// A word that claims far more time than it could possibly take is cut back,
/// so the silence it swallowed becomes a real gap again. A word with no
/// measurable length is stretched to a readable one, but only into time that
/// is actually free before the next word begins.
pub fn settle_durations(words: &[Word]) -> (out: Vec<Word>)
    requires
        settle_fits(words@),
    ensures
        out@ == settled_words(words@),
{
    let n = words.len();
    let mut out: Vec<Word> = Vec::new();
    let mut i: usize = 0;
    while i < n
        invariant
            n == words.len(),
            i <= n,
            settle_fits(words@),
            out@ == settled_words(words@).take(i as int),
        decreases n - i,
    {
        let len = settled_len_at(words, i);
        assert(settled_end(words@, i as int) <= u64::MAX);
        let w = &words[i];
        let settled = Word { text: w.text.clone(), start_ms: w.start_ms, end_ms: w.start_ms + len };
        out.push(settled);
        i = i + 1;
        assert(out@ =~= settled_words(words@).take(i as int));
    }
    assert(settled_words(words@).take(n as int) =~= settled_words(words@));
    out
}

/// `settle_durations` for any words: `None` exactly when some settled end
/// would not fit in a `u64` (which takes a word starting less than 3000 ms
/// before `u64::MAX`), otherwise the settled words.
pub fn settle_durations_checked(words: &[Word]) -> (out: Option<Vec<Word>>)
    ensures
        out is None <==> !settle_fits(words@),
        out matches Some(v) ==> v@ == settled_words(words@),
{
    let n = words.len();
    let mut out: Vec<Word> = Vec::new();
    let mut i: usize = 0;
    while i < n
        invariant
            n == words.len(),
            i <= n,
            forall|j: int| 0 <= j < i ==> #[trigger] settled_end(words@, j) <= u64::MAX,
            out@ == settled_words(words@).take(i as int),
        decreases n - i,
    {
        let len = settled_len_at(words, i);
        let w = &words[i];
        let end = match w.start_ms.checked_add(len) {
            Some(e) => e,
            None => {
                assert(settled_end(words@, i as int) > u64::MAX);
                return None;
            },
        };
        let settled = Word { text: w.text.clone(), start_ms: w.start_ms, end_ms: end };
        out.push(settled);
        i = i + 1;
        assert(out@ =~= settled_words(words@).take(i as int));
    }
    assert(settled_words(words@).take(n as int) =~= settled_words(words@));
    Some(out)
}

// ---------------------------------------------------------------------------
// Laws
// ---------------------------------------------------------------------------

/// A word with more alphanumeric characters never gets a shorter plausible
/// duration, and every plausible duration lies within 180..=1500 ms.
pub proof fn law_plausible_monotone(a: nat, b: nat)
    requires
        a <= b,
    ensures
        plausible_ms(a) <= plausible_ms(b),
        180 <= plausible_ms(a) <= 1500,
{
}

/// Settling keeps every word's text and start, and gives it a length of at
/// least one millisecond and at most twice its plausible duration.
pub proof fn law_settle_keeps_starts(words: Seq<Word>, i: int)
    requires
        0 <= i < words.len(),
    ensures
        settled_words(words)[i].text == words[i].text,
        settled_words(words)[i].start_ms == words[i].start_ms,
        1 <= settled_len(words, i) <= 2 * plausible_ms(alnum_count(words[i].text@)),
{
}

/// A settled word never runs into the next word, as long as the next word
/// starts after it.
pub proof fn law_settle_no_overlap(words: Seq<Word>, i: int)
    requires
        0 <= i,
        i + 1 < words.len(),
        words[i].start_ms < words[i + 1].start_ms,
    ensures
        settled_end(words, i) <= words[i + 1].start_ms,
{
}

/// A settled word stays on screen at least `MIN_WORD_MS`, or until the next
/// word starts if that comes sooner.
pub proof fn law_settle_readable(words: Seq<Word>, i: int)
    requires
        0 <= i < words.len(),
    ensures
        i + 1 < words.len() ==> settled_len(words, i) >= clamp(
            sat_sub(words[i + 1].start_ms as int, words[i].start_ms as int),
            1,
            MIN_WORD_MS as int,
        ),
        i + 1 == words.len() ==> settled_len(words, i) >= MIN_WORD_MS,
{
}

/// A word whose reported length is in proportion to its text (at least
/// `MIN_WORD_MS`, at most twice the plausible duration) and that ends before
/// the next word starts keeps its end.
pub proof fn law_settle_keeps_normal_timings(words: Seq<Word>, i: int)
    requires
        0 <= i < words.len(),
        words[i].end_ms >= words[i].start_ms + MIN_WORD_MS,
        words[i].end_ms - words[i].start_ms <= 2 * plausible_ms(alnum_count(words[i].text@)),
        i + 1 < words.len() ==> words[i].end_ms <= words[i + 1].start_ms,
    ensures
        settled_end(words, i) == words[i].end_ms,
{
}

/// A word that claims more than twice its plausible duration is cut back to
/// at most the plausible duration, so the silence it swallowed shows again.
pub proof fn law_settle_trims_swallowed_pauses(words: Seq<Word>, i: int)
    requires
        0 <= i < words.len(),
        words[i].end_ms > words[i].start_ms + 2 * plausible_ms(alnum_count(words[i].text@)),
    ensures
        settled_len(words, i) <= plausible_ms(alnum_count(words[i].text@)),
{
}

/// Settling is idempotent: settling already settled words changes nothing.
pub proof fn law_settle_idempotent(words: Seq<Word>)
    requires
        settle_fits(words),
    ensures
        settle_fits(settled_words(words)),
        settled_words(settled_words(words)) == settled_words(words),
{
    let s = settled_words(words);
    assert forall|i: int| 0 <= i < s.len() implies settled_len(s, i) == settled_len(words, i) by {
        assert(s[i].text == words[i].text);
        if i + 1 < s.len() {
            assert(s[i + 1].start_ms == words[i + 1].start_ms);
        }
    }
    assert forall|i: int| 0 <= i < s.len() implies #[trigger] settled_end(s, i) <= u64::MAX by {
        assert(settled_len(s, i) == settled_len(words, i));
        assert(settled_end(words, i) <= u64::MAX);
    }
    assert(settled_words(s) =~= s);
}

/// The room a word has before the next word starts; unlimited for the last.
pub open spec fn room_before_next(words: Seq<Word>, i: int) -> int {
    if i + 1 < words.len() {
        sat_sub(words[i + 1].start_ms as int, words[i].start_ms as int)
    } else {
        u64::MAX as int
    }
}

/// How long a settled word lasts, by what was reported for it:
/// - a reported length in proportion to the text (positive, at most twice
///   the plausible duration) is kept, raised to `MIN_WORD_MS` when shorter;
/// - any other length is replaced by the plausible duration;
/// in both cases capped by the room before the next word and at least 1 ms.
pub proof fn law_settle_length(words: Seq<Word>, i: int)
    requires
        0 <= i < words.len(),
    ensures
        ({
            let w = words[i];
            let p = plausible_ms(alnum_count(w.text@));
            let room = room_before_next(words, i);
            &&& w.start_ms < w.end_ms < w.start_ms + MIN_WORD_MS && w.end_ms - w.start_ms <= 2 * p
                ==> settled_len(words, i) == clamp(room, 1, MIN_WORD_MS as int)
            &&& w.start_ms + MIN_WORD_MS <= w.end_ms && w.end_ms - w.start_ms <= 2 * p
                ==> settled_len(words, i) == clamp(room, 1, w.end_ms - w.start_ms)
            &&& (w.end_ms <= w.start_ms || w.end_ms - w.start_ms > 2 * p)
                ==> settled_len(words, i) == clamp(room, 1, p)
        }),
{
    law_plausible_monotone(alnum_count(words[i].text@), alnum_count(words[i].text@));
}

/// Counting alphanumeric characters adds up over concatenation, so every
/// alphanumeric character counts wherever it stands.
pub proof fn law_alnum_count_additive(a: Seq<char>, b: Seq<char>)
    ensures
        alnum_count(a + b) == alnum_count(a) + alnum_count(b),
    decreases b.len(),
{
    if b.len() == 0 {
        assert(a + b =~= a);
    } else {
        law_alnum_count_additive(a, b.drop_last());
        assert((a + b).drop_last() =~= a + b.drop_last());
        assert((a + b).last() == b.last());
    }
}

/// A single character counts exactly when it is alphanumeric.
pub proof fn law_alnum_count_single(c: char)
    ensures
        alnum_count(seq![c]) == if char_is_alphanumeric(c) {
            1nat
        } else {
            0nat
        },
{
    let s = seq![c];
    assert(s.drop_last() =~= Seq::<char>::empty());
    assert(alnum_count(s.drop_last()) == 0);
    assert(s.last() == c);
}

} // verus!
