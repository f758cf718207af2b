//! The parts of the captioning job that are decisions rather than work: the
//! stages a job reports, the style it renders with for the probed frame, and
//! where its result is written.

use crate::text::{chars_eq, chars_of, join_path, path_join, push_decimal, split_at, views};
use crate::ffmpeg::VideoInfo;
use crate::style::SubtitleStyle;
use vstd::prelude::*;

verus! {

/// The stages of one job, in the order they run.
#[derive(Debug, Clone, Copy, PartialEq, Eq, Structural)]
pub enum Stage {
    Probing,
    ExtractingAudio,
    Transcribing,
    BuildingSubtitles,
    Rendering,
    Done,
}

/// The style a job renders with: `style` with its script resolution set to
/// the real frame, so libass does not rescale and the font size stays true
/// across 1080p and 4K.
pub fn style_for_frame(style: SubtitleStyle, info: &VideoInfo) -> (r: SubtitleStyle)
    ensures
        r == (SubtitleStyle { play_res_x: info.width, play_res_y: info.height, ..style }),
{
    SubtitleStyle { play_res_x: info.width, play_res_y: info.height, ..style }
}

/// The parent directory `Path::parent` gives for `p`.
pub uninterp spec fn path_parent(p: Seq<char>) -> Option<Seq<char>>;

/// The components of a Unix path that name something: the pieces between
/// `/` separators, without empty pieces and `.`.
pub open spec fn path_pieces(p: Seq<char>) -> Seq<Seq<char>> {
    split_at(p, '/').filter(|x: Seq<char>| x.len() > 0 && x != "."@)
}

/// The final component of `p`, as `Path::file_name` documents it: none when
/// the path has no component or ends in `..`.
pub open spec fn path_file_name(p: Seq<char>) -> Option<Seq<char>> {
    let pieces = path_pieces(p);
    if pieces.len() == 0 || pieces.last() == ".."@ {
        None
    } else {
        Some(pieces.last())
    }
}

/// Where the last `.` of `s` stands, or -1 when there is none.
pub open spec fn last_dot(s: Seq<char>) -> int
    decreases s.len(),
{
    if s.len() == 0 {
        -1
    } else if s.last() == '.' {
        s.len() - 1
    } else {
        last_dot(s.drop_last())
    }
}

/// The stem of a file name: the part before its last `.`, or the whole name
/// when it has no `.` or only a leading one.
pub open spec fn name_stem(name: Seq<char>) -> Seq<char> {
    let k = last_dot(name);
    if k <= 0 {
        name
    } else {
        name.take(k)
    }
}

/// The file stem of `p`, as `Path::file_stem` documents it.
pub open spec fn path_file_stem(p: Seq<char>) -> Option<Seq<char>> {
    match path_file_name(p) {
        Some(name) => Some(name_stem(name)),
        None => None,
    }
}

/// `Path::file_name` on a UTF-8 Unix path: the final component, or `None`
/// when there is none or it is `..` (std's documentation of the method).
#[verifier::external_body]
pub(crate) fn file_name_of(p: &str) -> (r: Option<String>)
    ensures
        r is None <==> path_file_name(p@) is None,
        r matches Some(s) ==> path_file_name(p@) == Some(s@),
{
    std::path::Path::new(p).file_name().map(|s| s.to_string_lossy().to_string())
}

/// `Path::parent` on a UTF-8 path. Only names the result: how std slices the
/// original text (keeping doubled separators, dropping trailing ones and `.`
/// components, handling the root) is not restated.
#[verifier::external_body]
pub(crate) fn parent_of(p: &str) -> (r: Option<String>)
    ensures
        r is None <==> path_parent(p@) is None,
        r matches Some(d) ==> path_parent(p@) == Some(d@),
{
    std::path::Path::new(p).parent().map(|d| d.to_string_lossy().to_string())
}

/// `Path::file_stem` on a UTF-8 Unix path: `None` without a file name, else
/// the name before its last `.`, or the whole name when it has no `.` or only
/// a leading one (std's documentation of the method).
#[verifier::external_body]
fn file_stem_of(p: &str) -> (r: Option<String>)
    ensures
        r is None <==> path_file_stem(p@) is None,
        r matches Some(s) ==> path_file_stem(p@) == Some(s@),
{
    std::path::Path::new(p).file_stem().map(|s| s.to_string_lossy().to_string())
}

/// `stem-subtext.mp4` for the first try, `stem-subtext-k.mp4` after that.
pub open spec fn output_name(stem: Seq<char>, k: nat) -> Seq<char> {
    if k <= 1 {
        stem + "-subtext.mp4"@
    } else {
        stem + "-subtext-"@ + crate::text::decimal(k) + ".mp4"@
    }
}

/// The first of the names for tries `k, k + 1, ...` that is not taken. Past
/// `taken.len()` tries no check is needed: `taken` cannot hold that many
/// distinct names (see `law_output_never_overwrites`).
pub open spec fn first_free_name(stem: Seq<char>, taken: Seq<Seq<char>>, k: nat) -> Seq<char>
    decreases taken.len() + 1 - k,
{
    if k > taken.len() || !taken.contains(output_name(stem, k)) {
        output_name(stem, k)
    } else {
        first_free_name(stem, taken, k + 1)
    }
}

/// The file name chosen among `taken` names already present.
pub open spec fn chosen_name(stem: Seq<char>, taken: Seq<Seq<char>>) -> Seq<char> {
    first_free_name(stem, taken, 1)
}

fn output_name_exec(stem: &str, k: u128) -> (r: String)
    requires
        1 <= k,
    ensures
        r@ == output_name(stem@, k as nat),
{
    let mut r = String::from_str(stem);
    if k <= 1 {
        r.append("-subtext.mp4");
    } else {
        r.append("-subtext-");
        push_decimal(&mut r, k);
        r.append(".mp4");
    }
    r
}

fn is_taken(name: &String, taken: &[String]) -> (b: bool)
    ensures
        b == views(taken@).contains(name@),
{
    let n = chars_of(name.as_str());
    let mut i: usize = 0;
    while i < taken.len()
        invariant
            i <= taken.len(),
            n@ == name@,
            forall|j: int| 0 <= j < i ==> taken@[j]@ != name@,
        decreases taken.len() - i,
    {
        let t = chars_of(taken[i].as_str());
        if chars_eq(t.as_slice(), n.as_slice()) {
            assert(views(taken@)[i as int] == name@);
            return true;
        }
        i = i + 1;
    }
    proof {
        if views(taken@).contains(name@) {
            let j = choose|j: int| 0 <= j < views(taken@).len() && views(taken@)[j] == name@;
            assert(taken@[j]@ == name@);
        }
    }
    false
}

/// The output path in `dir` for a video whose file stem is `stem`:
/// `stem-subtext.mp4`, or with a numeric suffix when that name is among the
/// `taken` file names, so an earlier result is never overwritten.
pub fn output_path_in(dir: &str, stem: &str, taken: &[String]) -> (r: String)
    ensures
        r@ == path_join(dir@, chosen_name(stem@, views(taken@))),
        !views(taken@).contains(chosen_name(stem@, views(taken@))),
{
    proof {
        law_output_never_overwrites(stem@, views(taken@));
    }
    let n: u128 = taken.len() as u128;
    let mut k: u128 = 1;
    while k <= n
        invariant
            1 <= k <= n + 1,
            n == taken@.len(),
            n <= usize::MAX,
            chosen_name(stem@, views(taken@)) == first_free_name(stem@, views(taken@), k as nat),
        decreases n + 1 - k,
    {
        let name = output_name_exec(stem, k);
        if !is_taken(&name, taken) {
            return join_path(dir, name.as_str());
        }
        k = k + 1;
    }
    let last = output_name_exec(stem, k);
    join_path(dir, last.as_str())
}

/// The directory a video's result is written to: its parent, or `.`.
pub open spec fn output_dir(video: Seq<char>) -> Seq<char> {
    match path_parent(video) {
        Some(d) => d,
        None => "."@,
    }
}

/// The stem the result is named after: the video's file stem, or `video`.
pub open spec fn output_stem(video: Seq<char>) -> Seq<char> {
    match path_file_stem(video) {
        Some(s) => s,
        None => "video"@,
    }
}

/// `clip.mov` becomes `clip-subtext.mp4`, next to the source video. A numeric
/// suffix is appended rather than overwriting an earlier run: `taken` holds
/// the names of the files already present in that directory.
pub fn output_path_for(video: &str, _style_id: &str, taken: &[String]) -> (r: String)
    ensures
        r@ == path_join(output_dir(video@), chosen_name(output_stem(video@), views(taken@))),
        !views(taken@).contains(chosen_name(output_stem(video@), views(taken@))),
{
    let dir = match parent_of(video) {
        Some(d) => d,
        None => String::from_str("."),
    };
    let stem = match file_stem_of(video) {
        Some(s) => s,
        None => String::from_str("video"),
    };
    output_path_in(dir.as_str(), stem.as_str(), taken)
}

/// A result never replaces a file that is already there: whatever names are
/// taken, the chosen one is not among them.
pub proof fn law_output_never_overwrites(stem: Seq<char>, taken: Seq<Seq<char>>)
    ensures
        !taken.contains(chosen_name(stem, taken)),
{
    let n = taken.len();
    if taken.contains(chosen_name(stem, taken)) {
        lemma_taken_from(stem, taken, 1);
        let names = Seq::new(n + 1, |i: int| output_name(stem, (i + 1) as nat));
        assert(names.no_duplicates()) by {
            assert forall|i: int, j: int| 0 <= i < names.len() && 0 <= j < names.len() && i != j
                implies names[i] != names[j] by {
                if names[i] == names[j] {
                    lemma_output_name_injective(stem, (i + 1) as nat, (j + 1) as nat);
                }
            }
        }
        names.unique_seq_to_set();
        taken.lemma_cardinality_of_set();
        assert(names.to_set().subset_of(taken.to_set())) by {
            assert forall|x: Seq<char>| names.to_set().contains(x) implies taken.to_set().contains(x) by {
                let i = choose|i: int| 0 <= i < names.len() && names[i] == x;
                assert(taken.contains(output_name(stem, (i + 1) as nat)));
            }
        }
        broadcast use vstd::seq_lib::seq_to_set_is_finite;
        vstd::set_lib::lemma_len_subset(names.to_set(), taken.to_set());
    }
}

/// When the name chosen from try `from` on is taken, so is every name from
/// `from` up to try `taken.len() + 1`.
proof fn lemma_taken_from(stem: Seq<char>, taken: Seq<Seq<char>>, from: nat)
    requires
        1 <= from <= taken.len() + 1,
        taken.contains(first_free_name(stem, taken, from)),
    ensures
        forall|j: nat| from <= j <= taken.len() + 1 ==> taken.contains(#[trigger] output_name(stem, j)),
    decreases taken.len() + 1 - from,
{
    if from <= taken.len() {
        lemma_taken_from(stem, taken, from + 1);
    }
}

/// Different tries give different names.
proof fn lemma_output_name_injective(stem: Seq<char>, a: nat, b: nat)
    requires
        1 <= a,
        1 <= b,
        output_name(stem, a) == output_name(stem, b),
    ensures
        a == b,
{
    reveal_strlit("-subtext.mp4");
    reveal_strlit("-subtext-");
    reveal_strlit(".mp4");
    let p: int = stem.len() as int + 9;
    let q: int = stem.len() as int + 8;
    assert("-subtext.mp4"@.len() == 12 && "-subtext.mp4"@[8] == '.');
    assert("-subtext-"@.len() == 9 && "-subtext-"@[8] == '-');
    if a > 1 {
        let da = crate::text::decimal(a);
        assert(output_name(stem, a) =~= stem + ("-subtext-"@ + da + ".mp4"@));
        assert(output_name(stem, a)[q] == '-');
    } else {
        assert(output_name(stem, a)[q] == '.');
    }
    if b > 1 {
        let db = crate::text::decimal(b);
        assert(output_name(stem, b) =~= stem + ("-subtext-"@ + db + ".mp4"@));
        assert(output_name(stem, b)[q] == '-');
    } else {
        assert(output_name(stem, b)[q] == '.');
    }
    if a > 1 && b > 1 {
        let da = crate::text::decimal(a);
        let db = crate::text::decimal(b);
        assert(da.len() == db.len());
        assert(da =~= output_name(stem, a).subrange(p, p + da.len() as int));
        assert(db =~= output_name(stem, b).subrange(p, p + db.len() as int));
        crate::text::lemma_decimal_injective(a, b);
    }
}

/// With nothing taken, the result is the plain `stem-subtext.mp4`.
pub proof fn law_output_plain_when_free(stem: Seq<char>, taken: Seq<Seq<char>>)
    requires
        !taken.contains(output_name(stem, 1)),
    ensures
        chosen_name(stem, taken) == output_name(stem, 1),
{
}

} // verus!
