//! Character level helpers shared by the parsers and formatters: whitespace
//! trimming, line splitting, joining, and conversions between `&str`,
//! `String` and `Vec<char>`.

use vstd::prelude::*;

verus! {

/// Unicode `White_Space`, the set `char::is_whitespace` tests for.
pub open spec fn is_ws(c: char) -> bool {
    let u = c as u32;
    ||| 0x09 <= u <= 0x0d
    ||| u == 0x20
    ||| u == 0x85
    ||| u == 0xa0
    ||| u == 0x1680
    ||| 0x2000 <= u <= 0x200a
    ||| u == 0x2028
    ||| u == 0x2029
    ||| u == 0x202f
    ||| u == 0x205f
    ||| u == 0x3000
}

pub fn is_ws_char(c: char) -> (b: bool)
    ensures
        b == is_ws(c),
{
    let u = c as u32;
    (0x09 <= u && u <= 0x0d) || u == 0x20 || u == 0x85 || u == 0xa0 || u == 0x1680 || (0x2000
        <= u && u <= 0x200a) || u == 0x2028 || u == 0x2029 || u == 0x202f || u == 0x205f || u
        == 0x3000
}

/// `s` without its leading whitespace.
pub open spec fn trim_front(s: Seq<char>) -> Seq<char>
    decreases s.len(),
{
    if s.len() > 0 && is_ws(s[0]) {
        trim_front(s.drop_first())
    } else {
        s
    }
}

/// `s` without its trailing whitespace.
pub open spec fn trim_back(s: Seq<char>) -> Seq<char>
    decreases s.len(),
{
    if s.len() > 0 && is_ws(s.last()) {
        trim_back(s.drop_last())
    } else {
        s
    }
}

/// `s` without leading and trailing whitespace, as `str::trim` gives it.
pub open spec fn trim(s: Seq<char>) -> Seq<char> {
    trim_back(trim_front(s))
}

proof fn lemma_trim_front_skip(s: Seq<char>, i: int)
    requires
        0 <= i <= s.len(),
        forall|j: int| 0 <= j < i ==> is_ws(#[trigger] s[j]),
    ensures
        trim_front(s) == trim_front(s.skip(i)),
    decreases i,
{
    if i > 0 {
        assert(s.skip(1) =~= s.drop_first());
        lemma_trim_front_skip(s.drop_first(), i - 1);
        assert(s.drop_first().skip(i - 1) =~= s.skip(i));
    } else {
        assert(s.skip(0) =~= s);
    }
}

proof fn lemma_trim_back_take(s: Seq<char>, i: int)
    requires
        0 <= i <= s.len(),
        forall|j: int| i <= j < s.len() ==> is_ws(#[trigger] s[j]),
    ensures
        trim_back(s) == trim_back(s.take(i)),
    decreases s.len() - i,
{
    if i < s.len() {
        lemma_trim_back_take(s.drop_last(), i);
        assert(s.drop_last().take(i) =~= s.take(i));
    } else {
        assert(s.take(i) =~= s);
    }
}

/// The characters of `s`, in order.
pub fn chars_of(s: &str) -> (v: Vec<char>)
    ensures
        v@ == s@,
{
    let mut v: Vec<char> = Vec::new();
    for c in it: s.chars()
        invariant
            v@ == it.seq().take(it.index() as int),
    {
        v.push(c);
    }
    v
}

/// Appends one character to a string (`String::push`).
#[verifier::external_body]
pub(crate) fn push_char(s: &mut String, c: char)
    ensures
        final(s)@ == old(s)@.push(c),
{
    s.push(c);
}

/// Appends every character of `v` to `s`.
pub fn push_chars(s: &mut String, v: &[char])
    ensures
        final(s)@ == old(s)@ + v@,
{
    let ghost start = s@;
    let mut i: usize = 0;
    while i < v.len()
        invariant
            i <= v.len(),
            s@ == start + v@.take(i as int),
        decreases v.len() - i,
    {
        push_char(s, v[i]);
        i = i + 1;
        assert(v@.take(i as int) =~= v@.take((i - 1) as int).push(v@[i - 1]));
    }
    assert(v@.take(v.len() as int) =~= v@);
}

/// A string holding exactly the characters of `v`.
pub fn string_of(v: &[char]) -> (s: String)
    ensures
        s@ == v@,
{
    let mut s = String::new();
    push_chars(&mut s, v);
    assert(Seq::<char>::empty() + v@ =~= v@);
    s
}

/// A copy of `v[from..to]`.
pub fn copy_range(v: &[char], from: usize, to: usize) -> (r: Vec<char>)
    requires
        from <= to <= v.len(),
    ensures
        r@ == v@.subrange(from as int, to as int),
{
    let mut r: Vec<char> = Vec::new();
    let mut i = from;
    while i < to
        invariant
            from <= i <= to <= v.len(),
            r@ == v@.subrange(from as int, i as int),
        decreases to - i,
    {
        r.push(v[i]);
        i = i + 1;
        assert(r@ =~= v@.subrange(from as int, i as int));
    }
    r
}

/// Bounds of the trimmed part of `v`.
pub fn trim_bounds(v: &[char]) -> (r: (usize, usize))
    ensures
        r.0 <= r.1 <= v.len(),
        v@.subrange(r.0 as int, r.1 as int) == trim(v@),
{
    let mut i: usize = 0;
    while i < v.len() && is_ws_char(v[i])
        invariant
            i <= v.len(),
            forall|j: int| 0 <= j < i ==> is_ws(#[trigger] v@[j]),
        decreases v.len() - i,
    {
        i = i + 1;
    }
    let mut k: usize = v.len();
    while k > i && is_ws_char(v[k - 1])
        invariant
            i <= k <= v.len(),
            forall|j: int| k <= j < v.len() ==> is_ws(#[trigger] v@[j]),
        decreases k,
    {
        k = k - 1;
    }
    proof {
        lemma_trim_front_skip(v@, i as int);
        let t = v@.skip(i as int);
        if i < v.len() {
            assert(t[0] == v@[i as int]);
        } else {
            assert(t.len() == 0);
        }
        assert(trim_front(t) == t);
        lemma_trim_back_take(t, k - i);
        let u = t.take(k - i);
        assert(u =~= v@.subrange(i as int, k as int));
        if k > i {
            assert(u.last() == v@[k - 1]);
        }
        assert(trim_back(u) == u);
    }
    (i, k)
}

/// `v` with leading and trailing whitespace removed.
pub fn trim_chars(v: &[char]) -> (r: Vec<char>)
    ensures
        r@ == trim(v@),
{
    let (a, b) = trim_bounds(v);
    copy_range(v, a, b)
}

/// Whether two character sequences are equal.
pub fn chars_eq(a: &[char], b: &[char]) -> (r: bool)
    ensures
        r == (a@ == b@),
{
    if a.len() != b.len() {
        return false;
    }
    let mut i: usize = 0;
    while i < a.len()
        invariant
            a.len() == b.len(),
            i <= a.len(),
            forall|j: int| 0 <= j < i ==> a@[j] == b@[j],
        decreases a.len() - i,
    {
        if a[i] != b[i] {
            return false;
        }
        i = i + 1;
    }
    assert(a@ =~= b@);
    true
}

/// Whether `a` and `b` hold the same text.
pub fn str_eq(a: &str, b: &str) -> (r: bool)
    ensures
        r == (a@ == b@),
{
    let va = chars_of(a);
    let vb = chars_of(b);
    chars_eq(va.as_slice(), vb.as_slice())
}


/// Index of the first `c` in `s`, or `s.len()` when there is none.
pub open spec fn first_index_of(s: Seq<char>, c: char) -> int
    decreases s.len(),
{
    if s.len() == 0 {
        0
    } else if s[0] == c {
        0
    } else {
        1 + first_index_of(s.drop_first(), c)
    }
}

pub proof fn lemma_first_index_of(s: Seq<char>, c: char, i: int)
    requires
        0 <= i <= s.len(),
        forall|j: int| 0 <= j < i ==> #[trigger] s[j] != c,
        i == s.len() || s[i] == c,
    ensures
        first_index_of(s, c) == i,
    decreases i,
{
    if i > 0 {
        lemma_first_index_of(s.drop_first(), c, i - 1);
    }
}

pub proof fn lemma_first_index_of_bounds(s: Seq<char>, c: char)
    ensures
        0 <= first_index_of(s, c) <= s.len(),
    decreases s.len(),
{
    if s.len() > 0 && s[0] != c {
        lemma_first_index_of_bounds(s.drop_first(), c);
    }
}

/// `s` without one trailing carriage return.
pub open spec fn strip_cr(s: Seq<char>) -> Seq<char> {
    if s.len() > 0 && s.last() == '\r' {
        s.drop_last()
    } else {
        s
    }
}

/// The lines of `s`, as `str::lines` yields them: split at `\n`, a `\r`
/// right before the `\n` dropped, and no empty line after a final `\n`.
pub open spec fn lines(s: Seq<char>) -> Seq<Seq<char>>
    decreases s.len(),
{
    if s.len() == 0 {
        seq![]
    } else {
        let k = first_index_of(s, '\n');
        proof {
            lemma_first_index_of_bounds(s, '\n');
        }
        if k >= s.len() {
            seq![s]
        } else {
            seq![strip_cr(s.take(k))] + lines(s.skip(k + 1))
        }
    }
}

/// The pieces of `ls` with `sep` between consecutive ones.
pub open spec fn join_sep(ls: Seq<Seq<char>>, sep: Seq<char>) -> Seq<char>
    decreases ls.len(),
{
    if ls.len() == 0 {
        seq![]
    } else if ls.len() == 1 {
        ls[0]
    } else {
        join_sep(ls.drop_last(), sep) + sep + ls.last()
    }
}

/// The views of a sequence of strings.
pub open spec fn views(ls: Seq<String>) -> Seq<Seq<char>> {
    ls.map_values(|s: String| s@)
}

/// The lines of `v`, each as its own vector of characters.
pub fn lines_of(v: &[char]) -> (r: Vec<Vec<char>>)
    ensures
        r@.len() == lines(v@).len(),
        forall|i: int| 0 <= i < r@.len() ==> #[trigger] r@[i]@ == lines(v@)[i],
{
    let n = v.len();
    let mut out: Vec<Vec<char>> = Vec::new();
    let ghost mut done: Seq<Seq<char>> = seq![];
    let mut start: usize = 0;
    assert(v@.skip(0) =~= v@);
    while start < n
        invariant
            n == v.len(),
            start <= n,
            out@.len() == done.len(),
            forall|i: int| 0 <= i < out@.len() ==> #[trigger] out@[i]@ == done[i],
            lines(v@) == done + lines(v@.skip(start as int)),
        decreases n - start,
    {
        let ghost s = v@.skip(start as int);
        let mut k = start;
        while k < n && v[k] != '\n'
            invariant
                start <= k <= n,
                n == v.len(),
                forall|j: int| start <= j < k ==> v@[j] != '\n',
            decreases n - k,
        {
            k = k + 1;
        }
        proof {
            assert forall|j: int| 0 <= j < k - start implies #[trigger] s[j] != '\n' by {
                assert(s[j] == v@[start + j]);
            }
            lemma_first_index_of(s, '\n', k - start);
        }
        if k == n {
            let piece = copy_range(v, start, n);
            proof {
                assert(piece@ =~= s);
                assert(lines(s) == seq![s]);
                done = done.push(piece@);
            }
            out.push(piece);
            start = n;
        } else {
            let mut piece = copy_range(v, start, k);
            if piece.len() > 0 && piece[piece.len() - 1] == '\r' {
                piece.pop();
            }
            proof {
                assert(s.take(k - start) =~= v@.subrange(start as int, k as int));
                assert(s.skip(k - start + 1) =~= v@.skip(k + 1));
                done = done.push(piece@);
            }
            out.push(piece);
            start = k + 1;
        }
        proof {
            assert(forall|i: int| 0 <= i < out@.len() ==> #[trigger] out@[i]@ == done[i]);
        }
    }
    proof {
        assert(v@.skip(n as int).len() == 0);
        assert(done + seq![] =~= done);
    }
    out
}

pub proof fn lemma_views_push(ls: Seq<String>, s: String)
    ensures
        views(ls.push(s)) == views(ls).push(s@),
{
    assert forall|i: int| 0 <= i < ls.len() + 1 implies #[trigger] views(ls.push(s))[i] == views(ls).push(s@)[i] by {
        if i < ls.len() {
            assert(ls.push(s)[i] == ls[i]);
        }
    }
    assert(views(ls.push(s)) =~= views(ls).push(s@));
}

/// The strings `ls` with `sep` between consecutive ones.
pub fn join_strings(ls: &[String], sep: &str) -> (s: String)
    ensures
        s@ == join_sep(views(ls@), sep@),
{
    let ghost vs = views(ls@);
    let mut s = String::new();
    let mut i: usize = 0;
    while i < ls.len()
        invariant
            i <= ls.len(),
            vs == views(ls@),
            s@ == join_sep(vs.take(i as int), sep@),
        decreases ls.len() - i,
    {
        if i > 0 {
            s.append(sep);
        }
        s.append(ls[i].as_str());
        i = i + 1;
        proof {
            let t = vs.take(i as int);
            assert(t.drop_last() =~= vs.take(i - 1));
            assert(t.last() == ls@[i - 1]@);
            if i == 1 {
                assert(s@ =~= join_sep(t, sep@));
            }
        }
    }
    assert(vs.take(ls.len() as int) =~= vs);
    s
}

/// The trimmed text of `s`, or nothing when it is blank.
pub fn trimmed_nonempty(s: &str) -> (r: Option<String>)
    ensures
        trim(s@).len() == 0 <==> r is None,
        r matches Some(t) ==> t@ == trim(s@),
{
    let v = chars_of(s);
    let t = trim_chars(v.as_slice());
    if t.len() == 0 {
        None
    } else {
        Some(string_of(t.as_slice()))
    }
}

/// `dir` with `name` appended as `PathBuf::push` does it on Unix: an
/// absolute `name` replaces `dir`; otherwise a `/` is put between them
/// unless `dir` is empty or already ends in one.
pub open spec fn path_join(dir: Seq<char>, name: Seq<char>) -> Seq<char> {
    if name.len() > 0 && name[0] == '/' {
        name
    } else if dir.len() == 0 || dir.last() == '/' {
        dir + name
    } else {
        dir + seq!['/'] + name
    }
}

/// [`path_join`] on strings.
pub fn join_path(dir: &str, name: &str) -> (r: String)
    ensures
        r@ == path_join(dir@, name@),
{
    let n = chars_of(name);
    if n.len() > 0 && n[0] == '/' {
        return string_of(n.as_slice());
    }
    let d = chars_of(dir);
    let mut r = string_of(d.as_slice());
    if d.len() > 0 && d[d.len() - 1] != '/' {
        push_char(&mut r, '/');
    }
    push_chars(&mut r, n.as_slice());
    r
}

/// The ASCII digit for `d` (0..=9).
pub open spec fn digit_char(d: int) -> char {
    (d + 48) as char
}

/// The ASCII digit for `d`.
pub fn digit_to_char(d: u64) -> (c: char)
    requires
        d < 10,
    ensures
        c == digit_char(d as int),
{
    match d {
        0 => '0',
        1 => '1',
        2 => '2',
        3 => '3',
        4 => '4',
        5 => '5',
        6 => '6',
        7 => '7',
        8 => '8',
        _ => '9',
    }
}

/// `n` written in decimal, without leading zeros.
pub open spec fn decimal(n: nat) -> Seq<char>
    decreases n,
{
    if n < 10 {
        seq![digit_char(n as int)]
    } else {
        decimal(n / 10).push(digit_char((n % 10) as int))
    }
}

/// `10` to the power `k`.
pub open spec fn pow10(k: nat) -> nat
    decreases k,
{
    if k == 0 {
        1
    } else {
        10 * pow10((k - 1) as nat)
    }
}

pub proof fn lemma_decimal_len(n: nat, k: nat)
    requires
        1 <= k,
        n < pow10(k),
    ensures
        1 <= decimal(n).len() <= k,
    decreases n,
{
    if n >= 10 {
        assert(k >= 2) by {
            if k == 1 {
                assert(pow10(1) == 10) by {
                    reveal_with_fuel(pow10, 2);
                }
            }
        }
        lemma_decimal_len(n / 10, (k - 1) as nat);
    }
}

pub proof fn lemma_decimal_len_u128(n: nat)
    requires
        n <= u128::MAX,
    ensures
        1 <= decimal(n).len() <= 39,
{
    assert(pow10(39) == 1000000000000000000000000000000000000000) by {
        reveal_with_fuel(pow10, 40);
    }
    lemma_decimal_len(n, 39);
}

/// Different numbers are written differently.
pub proof fn lemma_decimal_injective(a: nat, b: nat)
    requires
        decimal(a) == decimal(b),
    ensures
        a == b,
    decreases a,
{
    if a >= 10 {
        assert(decimal(a / 10).len() >= 1);
    }
    if b >= 10 {
        assert(decimal(b / 10).len() >= 1);
    }
    if a >= 10 && b >= 10 {
        assert(decimal(a / 10) =~= decimal(a).drop_last());
        assert(decimal(b / 10) =~= decimal(b).drop_last());
        assert(digit_char((a % 10) as int) == decimal(a).last());
        assert(digit_char((b % 10) as int) == decimal(b).last());
        assert(((a % 10 + 48) as char) as u32 == a % 10 + 48);
        assert(((b % 10 + 48) as char) as u32 == b % 10 + 48);
        lemma_decimal_injective(a / 10, b / 10);
        assert(a % 10 == b % 10);
        assert(a / 10 == b / 10);
    } else if a < 10 && b < 10 {
        assert(((a + 48) as char) as u32 == a + 48);
        assert(((b + 48) as char) as u32 == b + 48);
        assert(digit_char(a as int) == decimal(a)[0]);
        assert(digit_char(b as int) == decimal(b)[0]);
    } else if a < 10 {
        assert(decimal(a).len() == 1);
        assert(decimal(b) == decimal(b / 10).push(digit_char((b % 10) as int)));
    } else {
        assert(decimal(b).len() == 1);
        assert(decimal(a) == decimal(a / 10).push(digit_char((a % 10) as int)));
    }
}

/// Appends `n` in decimal to `s`.
pub fn push_decimal(s: &mut String, n: u128)
    ensures
        final(s)@ == old(s)@ + decimal(n as nat),
{
    // Digits are produced least significant first, then emitted in order.
    let mut digits: Vec<char> = Vec::new();
    let mut m = n;
    let ghost mut rest: Seq<char> = seq![];
    proof {
        lemma_decimal_len_u128(n as nat);
        assert(decimal(n as nat) + rest =~= decimal(n as nat));
    }
    while m >= 10
        invariant
            m <= n,
            decimal(n as nat) == decimal(m as nat) + rest,
            decimal(n as nat).len() <= 39,
            digits@.len() == rest.len(),
            forall|j: int| 0 <= j < rest.len() ==> #[trigger] rest[j] == digits@[rest.len() - 1 - j],
        decreases m,
    {
        let c = digit_to_char((m % 10) as u64);
        digits.push(c);
        proof {
            lemma_decimal_len_u128((m / 10) as nat);
            assert(decimal(m as nat) == decimal((m / 10) as nat).push(c));
            assert(decimal(n as nat) =~= decimal((m / 10) as nat) + (seq![c] + rest));
            rest = seq![c] + rest;
        }
        m = m / 10;
    }
    let c = digit_to_char(m as u64);
    digits.push(c);
    proof {
        assert(decimal(m as nat) =~= seq![c]);
        rest = seq![c] + rest;
        assert(decimal(n as nat) =~= rest);
    }
    let ghost start = s@;
    let mut k = digits.len();
    while k > 0
        invariant
            k <= digits@.len(),
            digits@.len() == rest.len(),
            forall|j: int| 0 <= j < rest.len() ==> #[trigger] rest[j] == digits@[rest.len() - 1 - j],
            s@ == start + rest.take(rest.len() - k),
        decreases k,
    {
        k = k - 1;
        push_char(s, digits[k]);
        assert(rest.take(rest.len() - k) =~= rest.take(rest.len() - k - 1).push(rest[rest.len() - k - 1]));
    }
    assert(rest.take(rest.len() as int) =~= rest);
    assert(decimal(n as nat) =~= rest);
}

/// The pieces of `s` between occurrences of `c`, as `str::split` yields them.
pub open spec fn split_at(s: Seq<char>, c: char) -> Seq<Seq<char>>
    decreases s.len(),
{
    let k = first_index_of(s, c);
    proof {
        lemma_first_index_of_bounds(s, c);
    }
    if k >= s.len() {
        seq![s]
    } else {
        seq![s.take(k)] + split_at(s.skip(k + 1), c)
    }
}

/// The pieces of `v` between occurrences of `c`.
pub fn split_chars(v: &[char], c: char) -> (r: Vec<Vec<char>>)
    ensures
        r@.len() == split_at(v@, c).len(),
        forall|i: int| 0 <= i < r@.len() ==> #[trigger] r@[i]@ == split_at(v@, c)[i],
{
    let n = v.len();
    let mut out: Vec<Vec<char>> = Vec::new();
    let ghost mut done: Seq<Seq<char>> = seq![];
    let mut start: usize = 0;
    assert(v@.skip(0) =~= v@);
    loop
        invariant_except_break
            start <= n,
            split_at(v@, c) == done + split_at(v@.skip(start as int), c),
        invariant
            n == v.len(),
            out@.len() == done.len(),
            forall|i: int| 0 <= i < out@.len() ==> #[trigger] out@[i]@ == done[i],
        ensures
            split_at(v@, c) == done,
        decreases n - start,
    {
        let ghost s = v@.skip(start as int);
        let mut k = start;
        while k < n && v[k] != c
            invariant
                start <= k <= n,
                n == v.len(),
                forall|j: int| start <= j < k ==> v@[j] != c,
            decreases n - k,
        {
            k = k + 1;
        }
        proof {
            assert forall|j: int| 0 <= j < k - start implies #[trigger] s[j] != c by {
                assert(s[j] == v@[start + j]);
            }
            lemma_first_index_of(s, c, k - start);
        }
        let piece = copy_range(v, start, k);
        let ghost before = done;
        proof {
            assert(s.take(k - start) =~= v@.subrange(start as int, k as int));
            done = done.push(piece@);
        }
        out.push(piece);
        if k == n {
            proof {
                assert(piece@ =~= s);
                assert(split_at(s, c) == seq![s]);
                assert(done =~= before + seq![s]);
            }
            break;
        }
        proof {
            assert(s.skip(k - start + 1) =~= v@.skip(k + 1));
        }
        start = k + 1;
        proof {
            assert(forall|i: int| 0 <= i < out@.len() ==> #[trigger] out@[i]@ == done[i]);
        }
    }
    out
}

} // verus!
