//! What the library decides around the system ffmpeg binary: where to look
//! for it, how its progress and probe output read, and how its failures are
//! reported. Starting the process itself is the caller's part.

use crate::error::Error;
use crate::pipeline::{file_name_of, parent_of, path_file_name, path_parent};
use crate::number::{float_text, is_float_text, parse_unsigned, unsigned_up_to};
use crate::text::{
    chars_eq, chars_of, join_path, join_sep, join_strings, lemma_views_push, lines, lines_of,
    path_join, split_at, split_chars, string_of, trim, trim_chars, views,
};
use vstd::prelude::*;

verus! {

/// What we need to know about the source video before generating subtitles.
#[derive(Debug, Clone, Copy, PartialEq, Eq, Structural)]
pub struct VideoInfo {
    pub width: u32,
    pub height: u32,
    pub duration_ms: u64,
}

// ---------------------------------------------------------------------------
// Locating the binaries
// ---------------------------------------------------------------------------

/// Where a Homebrew, MacPorts or hand installed ffmpeg usually lives, in the
/// order they are searched.
pub open spec fn search_dirs() -> Seq<Seq<char>> {
    seq!["/opt/homebrew/bin"@, "/usr/local/bin"@, "/opt/local/bin"@, "/usr/bin"@]
}

/// The paths searched for the binary `name`, in order: the override
/// directory first when one is set, then [`search_dirs`].
pub open spec fn candidate_paths(override_dir: Option<Seq<char>>, name: Seq<char>) -> Seq<Seq<char>> {
    let fixed = search_dirs().map_values(|d: Seq<char>| path_join(d, name));
    match override_dir {
        Some(d) => seq![path_join(d, name)] + fixed,
        None => fixed,
    }
}

/// The paths to check for the binary `name`, in the order they are tried.
pub fn binary_candidates(override_dir: Option<&str>, name: &str) -> (r: Vec<String>)
    ensures
        views(r@) == candidate_paths(
            match override_dir {
                Some(d) => Some(d@),
                None => None,
            },
            name@,
        ),
{
    let mut r: Vec<String> = Vec::new();
    if let Some(d) = override_dir {
        let p = join_path(d, name);
        proof {
            lemma_views_push(r@, p);
        }
        r.push(p);
    }
    let dirs = ["/opt/homebrew/bin", "/usr/local/bin", "/opt/local/bin", "/usr/bin"];
    let ghost start = views(r@);
    let mut i: usize = 0;
    while i < 4
        invariant
            i <= 4,
            dirs@ == seq!["/opt/homebrew/bin", "/usr/local/bin", "/opt/local/bin", "/usr/bin"],
            views(r@) == start + search_dirs().take(i as int).map_values(
                |d: Seq<char>| path_join(d, name@),
            ),
        decreases 4 - i,
    {
        let p = join_path(dirs[i], name);
        proof {
            lemma_views_push(r@, p);
        }
        r.push(p);
        i = i + 1;
        proof {
            assert(search_dirs().take(i as int) =~= search_dirs().take(i - 1).push(dirs@[i - 1]@));
            assert(views(r@) =~= start + search_dirs().take(i as int).map_values(
                |d: Seq<char>| path_join(d, name@),
            ));
        }
    }
    proof {
        assert(search_dirs().take(4) =~= search_dirs());
        let want = candidate_paths(
            match override_dir {
                Some(d) => Some(d@),
                None => None,
            },
            name@,
        );
        assert(views(r@) =~= want);
    }
    r
}

/// Index of the first candidate that was found at or after `i`.
pub open spec fn first_found_from(found: Seq<bool>, i: int) -> Option<int>
    decreases found.len() - i,
{
    if i >= found.len() {
        None
    } else if found[i] {
        Some(i)
    } else {
        first_found_from(found, i + 1)
    }
}

/// Which candidate to use, given whether each one exists as a file: the first
/// that does, in the order [`binary_candidates`] lists them.
pub fn first_found(found: &[bool]) -> (r: Option<usize>)
    ensures
        r is None <==> first_found_from(found@, 0) is None,
        r matches Some(i) ==> first_found_from(found@, 0) == Some(i as int),
{
    let mut i: usize = 0;
    while i < found.len()
        invariant
            i <= found.len(),
            first_found_from(found@, 0) == first_found_from(found@, i as int),
        decreases found.len() - i,
    {
        if found[i] {
            return Some(i);
        }
        i = i + 1;
    }
    None
}

/// A binary in the override directory wins over every usual install place,
/// and one found nowhere else is still used from there.
pub proof fn law_override_wins(d: Seq<char>, name: Seq<char>, found: Seq<bool>)
    requires
        found.len() == candidate_paths(Some(d), name).len(),
        found[0],
    ensures
        first_found_from(found, 0) == Some(0int),
        candidate_paths(Some(d), name)[0] == path_join(d, name),
{
}

/// The first candidate found is used: none before it exists, and it does.
pub proof fn law_first_found_is_first(found: Seq<bool>, i: int)
    requires
        first_found_from(found, 0) == Some(i),
    ensures
        0 <= i < found.len(),
        found[i],
        forall|j: int| 0 <= j < i ==> !found[j],
{
    lemma_first_found_from(found, 0, i);
}

proof fn lemma_first_found_from(found: Seq<bool>, k: int, i: int)
    requires
        0 <= k,
        first_found_from(found, k) == Some(i),
    ensures
        k <= i < found.len(),
        found[i],
        forall|j: int| k <= j < i ==> !found[j],
    decreases found.len() - k,
{
    if k < found.len() && !found[k] {
        lemma_first_found_from(found, k + 1, i);
    }
}

/// The list of places shown when no binary was found: every candidate path,
/// then `PATH` for the last resort lookup.
pub open spec fn searched_text(candidates: Seq<Seq<char>>) -> Seq<char> {
    join_sep(candidates.push("PATH"@), ", "@)
}

/// The error for a binary that is in none of the `candidates` nor on `PATH`.
pub fn ffmpeg_missing(candidates: &[String]) -> (e: Error)
    ensures
        e matches Error::FfmpegMissing { searched } && searched@ == searched_text(views(candidates@)),
{
    let mut all: Vec<String> = Vec::new();
    let mut i: usize = 0;
    while i < candidates.len()
        invariant
            i <= candidates.len(),
            views(all@) == views(candidates@).take(i as int),
        decreases candidates.len() - i,
    {
        let c = candidates[i].clone();
        proof {
            lemma_views_push(all@, c);
        }
        all.push(c);
        i = i + 1;
        assert(views(all@) =~= views(candidates@).take(i as int));
    }
    let path_word = String::from_str("PATH");
    proof {
        lemma_views_push(all@, path_word);
        assert(views(candidates@).take(candidates.len() as int) =~= views(candidates@));
    }
    all.push(path_word);
    assert(views(all@) =~= views(candidates@).push("PATH"@));
    Error::FfmpegMissing { searched: join_strings(all.as_slice(), ", ") }
}

// ---------------------------------------------------------------------------
// Error messages
// ---------------------------------------------------------------------------

/// The last `n` of `ls`, in order.
pub open spec fn last_n(ls: Seq<Seq<char>>, n: nat) -> Seq<Seq<char>> {
    if ls.len() > n {
        ls.skip(ls.len() - n)
    } else {
        ls
    }
}

/// The last six lines of the trimmed text, joined with `\n`.
pub open spec fn tail_of(s: Seq<char>) -> Seq<char> {
    join_sep(last_n(lines(trim(s)), 6), seq!['\n'])
}

/// Keep error messages short enough to show in a dialog.
pub fn tail(s: &str) -> (r: String)
    ensures
        r@ == tail_of(s@),
{
    let v = chars_of(s);
    let t = trim_chars(v.as_slice());
    let ls = lines_of(t.as_slice());
    let first: usize = if ls.len() > 6 {
        ls.len() - 6
    } else {
        0
    };
    let mut kept: Vec<String> = Vec::new();
    let mut i = first;
    while i < ls.len()
        invariant
            first <= i <= ls.len(),
            ls@.len() == lines(trim(s@)).len(),
            forall|j: int| 0 <= j < ls@.len() ==> #[trigger] ls@[j]@ == lines(trim(s@))[j],
            views(kept@) == lines(trim(s@)).subrange(first as int, i as int),
        decreases ls.len() - i,
    {
        let line = string_of(ls[i].as_slice());
        proof {
            lemma_views_push(kept@, line);
        }
        kept.push(line);
        i = i + 1;
        assert(views(kept@) =~= lines(trim(s@)).subrange(first as int, i as int));
    }
    assert(last_n(lines(trim(s@)), 6) =~= lines(trim(s@)).subrange(first as int, ls.len() as int));
    proof {
        reveal_strlit("\n");
        assert("\n"@ =~= seq!['\n']);
    }
    join_strings(kept.as_slice(), "\n")
}

/// The error for an ffmpeg run that exited non zero, with the tail of what
/// it printed.
pub fn ffmpeg_failed(context: &str, stderr: &str) -> (e: Error)
    ensures
        e matches Error::FfmpegFailed { context: c, stderr: s } && c@ == context@ && s@ == tail_of(
            stderr@,
        ),
{
    Error::FfmpegFailed { context: String::from_str(context), stderr: tail(stderr) }
}

// ---------------------------------------------------------------------------
// Rendering
// ---------------------------------------------------------------------------

/// The directory ffmpeg renders in: the subtitle file's parent, or `.`.
pub open spec fn render_dir(ass_file: Seq<char>) -> Seq<char> {
    match path_parent(ass_file) {
        Some(d) => d,
        None => "."@,
    }
}

/// The `-vf` argument that burns the subtitles in: `ass=` and the subtitle
/// file's name (`subs.ass` when it has none).
pub open spec fn render_filter(ass_file: Seq<char>) -> Seq<char> {
    "ass="@ + match path_file_name(ass_file) {
        Some(n) => n,
        None => "subs.ass"@,
    }
}

/// Where to run ffmpeg and which filter argument to give it. The ass filter
/// argument is parsed by ffmpeg's filter grammar, where a colon separates
/// options and a backslash escapes; rather than escape an arbitrary path,
/// ffmpeg runs in the subtitle file's directory and names the file alone.
pub fn render_setup(ass_file: &str) -> (r: (String, String))
    ensures
        r.0@ == render_dir(ass_file@),
        r.1@ == render_filter(ass_file@),
{
    let dir = match parent_of(ass_file) {
        Some(d) => d,
        None => String::from_str("."),
    };
    let name = match file_name_of(ass_file) {
        Some(n) => n,
        None => String::from_str("subs.ass"),
    };
    let mut filter = String::from_str("ass=");
    filter.append(name.as_str());
    (dir, filter)
}

// ---------------------------------------------------------------------------
// Progress timecodes
// ---------------------------------------------------------------------------

/// Hours, minutes and the seconds text of `HH:MM:SS.micros`: the first
/// three `:` separated fields, each trimmed, hours and minutes as `u64`.
pub open spec fn timecode_fields(tc: Seq<char>) -> Option<(nat, nat, Seq<char>)> {
    let parts = split_at(tc, ':');
    if parts.len() < 3 {
        None
    } else {
        match (
            unsigned_up_to(trim(parts[0]), u64::MAX as nat),
            unsigned_up_to(trim(parts[1]), u64::MAX as nat),
        ) {
            (Some(h), Some(m)) => Some((h, m, trim(parts[2]))),
            _ => None,
        }
    }
}

/// The whole seconds that the hours and minutes of `tc` make, and its
/// seconds text; `None` when a field is missing or unreadable, the seconds
/// being read as `f64` parsing reads them.
pub open spec fn timecode_seconds(tc: Seq<char>) -> Option<(nat, Seq<char>)> {
    match timecode_fields(tc) {
        Some((h, m, s)) => if float_text(s) is Some {
            Some(((h * 3600 + m * 60) as nat, s))
        } else {
            None
        },
        None => None,
    }
}

/// Whether the whole seconds of a readable timecode fit in a `u64`.
pub open spec fn timecode_fits(tc: Seq<char>) -> bool {
    match timecode_seconds(tc) {
        Some((w, _)) => w <= u64::MAX,
        None => true,
    }
}

struct TimecodeParts {
    hours: u64,
    minutes: u64,
    seconds: Vec<char>,
}

fn timecode_parts(tc: &str) -> (r: Option<TimecodeParts>)
    ensures
        r is None ==> timecode_fields(tc@) is None,
        r matches Some(p) ==> timecode_fields(tc@) == Some(
            (p.hours as nat, p.minutes as nat, p.seconds@),
        ),
{
    let v = chars_of(tc);
    let parts = split_chars(v.as_slice(), ':');
    if parts.len() < 3 {
        return None;
    }
    let h = match parse_unsigned(trim_chars(parts[0].as_slice()).as_slice(), u64::MAX) {
        Some(h) => h,
        None => return None,
    };
    let m = match parse_unsigned(trim_chars(parts[1].as_slice()).as_slice(), u64::MAX) {
        Some(m) => m,
        None => return None,
    };
    Some(TimecodeParts { hours: h, minutes: m, seconds: trim_chars(parts[2].as_slice()) })
}

/// Whether [`split_timecode`] can take `tc`: false only for a readable
/// timecode whose whole seconds overflow a `u64`.
pub fn timecode_in_range(tc: &str) -> (b: bool)
    ensures
        b == timecode_fits(tc@),
{
    match timecode_parts(tc) {
        None => true,
        Some(p) => {
            if !is_float_text(p.seconds.as_slice()) {
                return true;
            }
            let h = p.hours as u128;
            let m = p.minutes as u128;
            h * 3600 + m * 60 <= u64::MAX as u128
        },
    }
}

/// `HH:MM:SS.micros` as printed by ffmpeg's `-progress`, split into the whole
/// seconds of its hours and minutes and the text of its seconds. The caller
/// reads the seconds as an `f64` and forms the position in milliseconds as
/// `(whole as f64 * 1000.0 + seconds * 1000.0).round()`.
pub fn split_timecode(tc: &str) -> (r: Option<(u64, String)>)
    requires
        timecode_fits(tc@),
    ensures
        r is None <==> timecode_seconds(tc@) is None,
        r matches Some((w, s)) ==> timecode_seconds(tc@) == Some((w as nat, s@)),
{
    let p = match timecode_parts(tc) {
        Some(p) => p,
        None => return None,
    };
    if !is_float_text(p.seconds.as_slice()) {
        return None;
    }
    let h = p.hours as u128;
    let m = p.minutes as u128;
    let w = (h * 3600 + m * 60) as u64;
    Some((w, string_of(p.seconds.as_slice())))
}

/// The text after `out_time=` on a progress line, trimmed.
pub open spec fn progress_timecode_of(line: Seq<char>) -> Option<Seq<char>> {
    let prefix = "out_time="@;
    if line.len() >= prefix.len() && line.take(prefix.len() as int) == prefix {
        Some(trim(line.skip(prefix.len() as int)))
    } else {
        None
    }
}

/// The position field of one line of ffmpeg's `-progress` output. Only
/// `out_time` is unambiguous: `out_time_ms` is microseconds in most builds
/// despite the name.
pub fn progress_timecode(line: &str) -> (r: Option<String>)
    ensures
        r is None <==> progress_timecode_of(line@) is None,
        r matches Some(t) ==> progress_timecode_of(line@) == Some(t@),
{
    let v = chars_of(line);
    let prefix = chars_of("out_time=");
    if v.len() < prefix.len() {
        return None;
    }
    let head = crate::text::copy_range(v.as_slice(), 0, prefix.len());
    if !chars_eq(head.as_slice(), prefix.as_slice()) {
        return None;
    }
    let rest = crate::text::copy_range(v.as_slice(), prefix.len(), v.len());
    let t = trim_chars(rest.as_slice());
    proof {
        assert(v@.take(prefix@.len() as int) =~= head@);
        assert(v@.skip(prefix@.len() as int) =~= rest@);
    }
    Some(string_of(t.as_slice()))
}

// ---------------------------------------------------------------------------
// Probe output
// ---------------------------------------------------------------------------

/// What ffprobe's `key=value` output says, before any value is read as a
/// float: the frame size, the text of every `duration` line in order, and the
/// text of the last rotation line.
pub struct ProbeReadings {
    pub width: u32,
    pub height: u32,
    pub durations: Vec<String>,
    pub rotation: Option<String>,
}

/// [`ProbeReadings`] with its texts as character sequences.
pub struct ProbeText {
    pub width: u32,
    pub height: u32,
    pub durations: Seq<Seq<char>>,
    pub rotation: Option<Seq<char>>,
}

impl View for ProbeReadings {
    type V = ProbeText;

    open spec fn view(&self) -> ProbeText {
        ProbeText {
            width: self.width,
            height: self.height,
            durations: views(self.durations@),
            rotation: match self.rotation {
                Some(r) => Some(r@),
                None => None,
            },
        }
    }
}

pub open spec fn or_zero_nat(o: Option<nat>) -> int {
    match o {
        Some(x) => x as int,
        None => 0,
    }
}

/// One `key=value` line of ffprobe output applied to what was read so far.
/// An unparsable frame size counts as zero; every duration is kept; both
/// spellings of the rotation are read, the last one counting.
pub open spec fn probe_step(st: ProbeText, line: Seq<char>) -> ProbeText {
    let k = crate::text::first_index_of(line, '=');
    if k >= line.len() {
        st
    } else {
        let key = trim(line.take(k));
        let value = trim(line.skip(k + 1));
        if key == "width"@ {
            ProbeText { width: or_zero_nat(unsigned_up_to(value, u32::MAX as nat)) as u32, ..st }
        } else if key == "height"@ {
            ProbeText { height: or_zero_nat(unsigned_up_to(value, u32::MAX as nat)) as u32, ..st }
        } else if key == "duration"@ {
            ProbeText { durations: st.durations.push(value), ..st }
        } else if key == "rotation"@ || key == "TAG:rotate"@ || key == "rotate"@ {
            ProbeText { rotation: Some(value), ..st }
        } else {
            st
        }
    }
}

/// Nothing read yet.
pub open spec fn probe_start() -> ProbeText {
    ProbeText { width: 0, height: 0, durations: seq![], rotation: None }
}

/// What the first `n` lines say.
pub open spec fn probe_fold(ls: Seq<Seq<char>>, n: nat) -> ProbeText
    decreases n,
{
    if n == 0 {
        probe_start()
    } else {
        probe_step(probe_fold(ls, (n - 1) as nat), ls[n - 1])
    }
}

/// What all lines of `text` say.
pub open spec fn probe_text(text: Seq<char>) -> ProbeText {
    let ls = lines(text);
    probe_fold(ls, ls.len())
}

/// A quarter turn: ffmpeg rotates on decode, so width and height swap.
pub open spec fn quarter_turn(rotation: int) -> bool {
    rotation % 180 == 90
}

/// The first duration that is not zero, or zero when there is none: later
/// `duration` lines only count while none has given a length.
pub open spec fn first_nonzero(ds: Seq<u64>) -> u64
    decreases ds.len(),
{
    if ds.len() == 0 {
        0
    } else if ds[0] != 0 {
        ds[0]
    } else {
        first_nonzero(ds.drop_first())
    }
}

/// Frame size (after rotation) and duration, or nothing when no frame size
/// was read.
pub open spec fn video_info(width: u32, height: u32, duration_ms: u64, rotation: int) -> Option<VideoInfo> {
    if width == 0 || height == 0 {
        None
    } else if quarter_turn(rotation) {
        Some(VideoInfo { width: height, height: width, duration_ms })
    } else {
        Some(VideoInfo { width, height, duration_ms })
    }
}

fn key_is(key: &[char], word: &str) -> (b: bool)
    ensures
        b == (key@ == word@),
{
    let w = chars_of(word);
    chars_eq(key, w.as_slice())
}

fn probe_line(st: &mut ProbeReadings, line: &[char])
    ensures
        final(st)@ == probe_step(old(st)@, line@),
{
    let n = line.len();
    let mut k: usize = 0;
    while k < n && line[k] != '='
        invariant
            k <= n,
            n == line.len(),
            forall|j: int| 0 <= j < k ==> line@[j] != '=',
        decreases n - k,
    {
        k = k + 1;
    }
    proof {
        crate::text::lemma_first_index_of(line@, '=', k as int);
    }
    if k == n {
        return;
    }
    let key = trim_chars(crate::text::copy_range(line, 0, k).as_slice());
    let value = trim_chars(crate::text::copy_range(line, k + 1, n).as_slice());
    proof {
        assert(line@.take(k as int) =~= line@.subrange(0, k as int));
        assert(line@.skip(k + 1) =~= line@.subrange(k + 1, n as int));
    }
    if key_is(key.as_slice(), "width") {
        st.width = match parse_unsigned(value.as_slice(), u32::MAX as u64) {
            Some(w) => w as u32,
            None => 0,
        };
    } else if key_is(key.as_slice(), "height") {
        st.height = match parse_unsigned(value.as_slice(), u32::MAX as u64) {
            Some(h) => h as u32,
            None => 0,
        };
    } else if key_is(key.as_slice(), "duration") {
        let d = string_of(value.as_slice());
        proof {
            lemma_views_push(st.durations@, d);
        }
        st.durations.push(d);
    } else if key_is(key.as_slice(), "rotation") || key_is(key.as_slice(), "TAG:rotate") || key_is(
        key.as_slice(),
        "rotate",
    ) {
        st.rotation = Some(string_of(value.as_slice()));
    }
}

proof fn lemma_quarter_turn_magnitude(x: int)
    ensures
        quarter_turn(x) <==> (if x < 0 {
            -x
        } else {
            x
        }) % 180 == 90,
{
    if x < 0 {
        let a = -x;
        let q = a / 180;
        let r = a % 180;
        assert(a == q * 180 + r);
        if r == 0 {
            assert(x == (-q) * 180);
            assert(x % 180 == 0);
        } else {
            assert(x == (-q - 1) * 180 + (180 - r));
            assert(x % 180 == 180 - r);
        }
    }
}

/// Reads ffprobe's `key=value` output into the frame size and the texts of
/// its duration and rotation values.
pub fn read_probe_output(text: &str) -> (r: ProbeReadings)
    ensures
        r@ == probe_text(text@),
{
    let v = chars_of(text);
    let ls = lines_of(v.as_slice());
    let mut st = ProbeReadings { width: 0, height: 0, durations: Vec::new(), rotation: None };
    proof {
        assert(st@.durations =~= probe_start().durations);
    }
    let mut i: usize = 0;
    while i < ls.len()
        invariant
            i <= ls.len(),
            v@ == text@,
            ls@.len() == lines(v@).len(),
            forall|j: int| 0 <= j < ls@.len() ==> #[trigger] ls@[j]@ == lines(v@)[j],
            st@ == probe_fold(lines(v@), i as nat),
        decreases ls.len() - i,
    {
        probe_line(&mut st, ls[i].as_slice());
        i = i + 1;
    }
    st
}

/// The video's frame size after rotation and its duration, from the probed
/// frame size, the durations in milliseconds in the order ffprobe printed
/// them, and the rotation in whole degrees; `None` when no frame size was
/// read. Reading the duration and rotation texts as floats and rounding them
/// is the caller's part.
pub fn probe_video_info(width: u32, height: u32, durations_ms: &[u64], rotation: i64) -> (r: Option<VideoInfo>)
    ensures
        r == video_info(width, height, first_nonzero(durations_ms@), rotation as int),
{
    let mut duration_ms: u64 = 0;
    let mut i: usize = 0;
    assert(durations_ms@.skip(0) =~= durations_ms@);
    while i < durations_ms.len() && duration_ms == 0
        invariant
            i <= durations_ms.len(),
            first_nonzero(durations_ms@) == if duration_ms != 0 {
                duration_ms
            } else {
                first_nonzero(durations_ms@.skip(i as int))
            },
        decreases durations_ms.len() - i,
    {
        proof {
            assert(durations_ms@.skip(i as int).drop_first() =~= durations_ms@.skip(i + 1));
        }
        duration_ms = durations_ms[i];
        i = i + 1;
    }
    proof {
        if duration_ms == 0 {
            assert(durations_ms@.skip(i as int) =~= seq![]);
        }
    }
    if width == 0 || height == 0 {
        return None;
    }
    let mag: u64 = if rotation < 0 {
        (-(rotation as i128)) as u64
    } else {
        rotation as u64
    };
    proof {
        lemma_quarter_turn_magnitude(rotation as int);
    }
    if mag % 180 == 90 {
        Some(VideoInfo { width: height, height: width, duration_ms })
    } else {
        Some(VideoInfo { width, height, duration_ms })
    }
}

} // verus!
