//! Reading numbers out of ffmpeg and ffprobe output: unsigned integers as
//! integer parsing reads them, and which texts float parsing accepts.

use crate::text::{chars_of, copy_range, first_index_of, lemma_first_index_of};
use vstd::prelude::*;

verus! {

pub open spec fn is_digit(c: char) -> bool {
    48 <= (c as u32) <= 57
}

pub open spec fn digit_value(c: char) -> nat {
    ((c as u32) - 48) as nat
}

pub open spec fn all_digits(s: Seq<char>) -> bool {
    forall|i: int| 0 <= i < s.len() ==> is_digit(#[trigger] s[i])
}

/// The number the ASCII digits `s` spell, most significant first.
pub open spec fn digits_value(s: Seq<char>) -> nat
    decreases s.len(),
{
    if s.len() == 0 {
        0
    } else {
        digits_value(s.drop_last()) * 10 + digit_value(s.last())
    }
}

/// What integer parsing reads: an optional `+`, then one or more ASCII
/// digits and nothing else.
pub open spec fn unsigned_value(s: Seq<char>) -> Option<nat> {
    let d = if s.len() > 0 && s[0] == '+' {
        s.drop_first()
    } else {
        s
    };
    if d.len() > 0 && all_digits(d) {
        Some(digits_value(d))
    } else {
        None
    }
}

/// [`unsigned_value`] when it is at most `max`, as parsing into an integer
/// type with that maximum gives it.
pub open spec fn unsigned_up_to(s: Seq<char>, max: nat) -> Option<nat> {
    match unsigned_value(s) {
        Some(v) => if v <= max {
            Some(v)
        } else {
            None
        },
        None => None,
    }
}

fn is_digit_char(c: char) -> (b: bool)
    ensures
        b == is_digit(c),
{
    let u = c as u32;
    48 <= u && u <= 57
}

fn digit_of(c: char) -> (d: u64)
    requires
        is_digit(c),
    ensures
        d == digit_value(c),
        d < 10,
{
    ((c as u32) - 48) as u64
}

/// Whether `v[from..to]` is all ASCII digits.
fn digits_in(v: &[char], from: usize, to: usize) -> (b: bool)
    requires
        from <= to <= v.len(),
    ensures
        b == all_digits(v@.subrange(from as int, to as int)),
{
    let mut i = from;
    while i < to
        invariant
            from <= i <= to <= v.len(),
            forall|j: int| from <= j < i ==> is_digit(#[trigger] v@[j]),
        decreases to - i,
    {
        if !is_digit_char(v[i]) {
            assert(v@.subrange(from as int, to as int)[i - from] == v@[i as int]);
            return false;
        }
        i = i + 1;
    }
    assert forall|j: int| 0 <= j < to - from implies is_digit(
        #[trigger] v@.subrange(from as int, to as int)[j],
    ) by {
        assert(v@.subrange(from as int, to as int)[j] == v@[from + j]);
    }
    true
}

pub open spec fn min_int(a: int, b: int) -> int {
    if a <= b {
        a
    } else {
        b
    }
}

/// The value of the digits `v[from..to]`, or `cap` when it is larger.
fn capped_digits(v: &[char], from: usize, to: usize, cap: u128) -> (r: u128)
    requires
        from <= to <= v.len(),
        all_digits(v@.subrange(from as int, to as int)),
        cap <= 0x10_0000_0000_0000_0000_0000_0000,
    ensures
        r == min_int(digits_value(v@.subrange(from as int, to as int)) as int, cap as int),
{
    let mut acc: u128 = 0;
    let mut i = from;
    assert(v@.subrange(from as int, from as int).len() == 0);
    while i < to
        invariant
            from <= i <= to <= v.len(),
            all_digits(v@.subrange(from as int, to as int)),
            cap <= 0x10_0000_0000_0000_0000_0000_0000,
            acc == min_int(digits_value(v@.subrange(from as int, i as int)) as int, cap as int),
        decreases to - i,
    {
        assert(v@.subrange(from as int, to as int)[i - from] == v@[i as int]);
        let d = digit_of(v[i]);
        let next = acc * 10 + d as u128;
        proof {
            let p = v@.subrange(from as int, i as int);
            let q = v@.subrange(from as int, i + 1);
            assert(q.drop_last() =~= p);
            assert(digits_value(q) == digits_value(p) * 10 + d);
        }
        acc = if next > cap {
            cap
        } else {
            next
        };
        i = i + 1;
    }
    acc
}

/// Parses `v` as an unsigned integer no larger than `max`.
pub fn parse_unsigned(v: &[char], max: u64) -> (r: Option<u64>)
    ensures
        r matches Some(x) ==> unsigned_up_to(v@, max as nat) == Some(x as nat),
        r is None ==> unsigned_up_to(v@, max as nat) is None,
{
    let from: usize = if v.len() > 0 && v[0] == '+' {
        1
    } else {
        0
    };
    proof {
        let d = if v@.len() > 0 && v@[0] == '+' {
            v@.drop_first()
        } else {
            v@
        };
        assert(d =~= v@.subrange(from as int, v.len() as int));
    }
    if from == v.len() || !digits_in(v, from, v.len()) {
        return None;
    }
    let x = capped_digits(v, from, v.len(), max as u128 + 1);
    if x > max as u128 {
        None
    } else {
        Some(x as u64)
    }
}

/// `c` equals the lower case letter or symbol `w` when ASCII case is ignored.
pub open spec fn same_ignoring_case(c: char, w: char) -> bool {
    c == w || (65 <= (c as u32) <= 90 && (c as u32) + 32 == (w as u32))
}

/// `s` spells the lower case `word` when ASCII case is ignored.
pub open spec fn spells(s: Seq<char>, word: Seq<char>) -> bool {
    s.len() == word.len() && forall|i: int| 0 <= i < s.len() ==> same_ignoring_case(
        #[trigger] s[i],
        word[i],
    )
}

/// Index of the first `e` or `E` in `s`, or `s.len()` when there is none.
pub open spec fn first_exp_mark(s: Seq<char>) -> int
    decreases s.len(),
{
    if s.len() == 0 {
        0
    } else if s[0] == 'e' || s[0] == 'E' {
        0
    } else {
        1 + first_exp_mark(s.drop_first())
    }
}

proof fn lemma_first_exp_mark(s: Seq<char>, i: int)
    requires
        0 <= i <= s.len(),
        forall|j: int| 0 <= j < i ==> #[trigger] s[j] != 'e' && s[j] != 'E',
        i == s.len() || s[i] == 'e' || s[i] == 'E',
    ensures
        first_exp_mark(s) == i,
    decreases i,
{
    if i > 0 {
        lemma_first_exp_mark(s.drop_first(), i - 1);
    }
}

/// What a float's text stands for.
pub enum FloatText {
    /// `±0.D × 10^point`: the digits `D`, with the decimal point after the
    /// first `point` of them (before them when `point` is negative, after
    /// trailing zeros when it is beyond their count).
    Finite { neg: bool, digits: Seq<char>, point: int },
    Infinite { neg: bool },
    NotANumber,
}

/// The whole and fraction digits of a mantissa: digits, an optional `.`
/// with digits, and at least one digit in all.
pub open spec fn mantissa_parts(m: Seq<char>) -> Option<(Seq<char>, Seq<char>)> {
    let p = first_index_of(m, '.');
    let whole = m.take(p);
    let frac = if p < m.len() {
        m.skip(p + 1)
    } else {
        seq![]
    };
    if all_digits(whole) && all_digits(frac) && whole.len() + frac.len() > 0 {
        Some((whole, frac))
    } else {
        None
    }
}

/// An exponent: an optional sign and one or more digits.
pub open spec fn exponent_value(e: Seq<char>) -> Option<int> {
    let neg = e.len() > 0 && e[0] == '-';
    let d = if e.len() > 0 && (e[0] == '+' || e[0] == '-') {
        e.drop_first()
    } else {
        e
    };
    if d.len() > 0 && all_digits(d) {
        Some(
            if neg {
                -(digits_value(d) as int)
            } else {
                digits_value(d) as int
            },
        )
    } else {
        None
    }
}

/// How `f64` parsing reads `s`: an optional sign, then `inf`, `infinity` or
/// `nan` in any case, or a mantissa with an optional exponent after `e` or
/// `E`.
pub open spec fn float_text(s: Seq<char>) -> Option<FloatText> {
    let neg = s.len() > 0 && s[0] == '-';
    let body = if s.len() > 0 && (s[0] == '+' || s[0] == '-') {
        s.drop_first()
    } else {
        s
    };
    if spells(body, "inf"@) || spells(body, "infinity"@) {
        Some(FloatText::Infinite { neg })
    } else if spells(body, "nan"@) {
        Some(FloatText::NotANumber)
    } else {
        let k = first_exp_mark(body);
        let exp = if k < body.len() {
            exponent_value(body.skip(k + 1))
        } else {
            Some(0)
        };
        match (mantissa_parts(body.take(k)), exp) {
            (Some((whole, frac)), Some(e)) => Some(
                FloatText::Finite { neg, digits: whole + frac, point: whole.len() + e },
            ),
            _ => None,
        }
    }
}

// ---------------------------------------------------------------------------
// Reading a float's text
// ---------------------------------------------------------------------------

fn same_ignoring_case_char(c: char, w: char) -> (b: bool)
    ensures
        b == same_ignoring_case(c, w),
{
    let cu = c as u32;
    c == w || (65 <= cu && cu <= 90 && cu + 32 == w as u32)
}

fn spells_word(s: &[char], word: &str) -> (b: bool)
    ensures
        b == spells(s@, word@),
{
    let w = chars_of(word);
    if s.len() != w.len() {
        return false;
    }
    let mut i: usize = 0;
    while i < s.len()
        invariant
            i <= s.len(),
            s.len() == w.len(),
            w@ == word@,
            forall|j: int| 0 <= j < i ==> same_ignoring_case(#[trigger] s@[j], w@[j]),
        decreases s.len() - i,
    {
        if !same_ignoring_case_char(s[i], w[i]) {
            return false;
        }
        i = i + 1;
    }
    true
}

/// Whether `m` is a mantissa: digits, an optional `.` with digits, and at
/// least one digit in all.
fn mantissa_ok(m: &[char]) -> (b: bool)
    ensures
        b == mantissa_parts(m@) is Some,
{
    let k = m.len();
    let mut p: usize = 0;
    while p < k && m[p] != '.'
        invariant
            p <= k,
            k == m.len(),
            forall|j: int| 0 <= j < p ==> m@[j] != '.',
        decreases k - p,
    {
        p = p + 1;
    }
    let fs = if p < k {
        p + 1
    } else {
        k
    };
    proof {
        lemma_first_index_of(m@, '.', p as int);
        assert(m@.take(p as int) =~= m@.subrange(0, p as int));
        if p < k {
            assert(m@.skip(p + 1) =~= m@.subrange(fs as int, k as int));
        } else {
            assert(m@.subrange(fs as int, k as int) =~= seq![]);
        }
    }
    digits_in(m, 0, p) && digits_in(m, fs, k) && p + (k - fs) > 0
}

/// Whether `e` is an exponent: an optional sign and one or more digits.
fn exponent_ok(e: &[char]) -> (b: bool)
    ensures
        b == exponent_value(e@) is Some,
{
    let n = e.len();
    let ds: usize = if n > 0 && (e[0] == '+' || e[0] == '-') {
        1
    } else {
        0
    };
    proof {
        let d = if e@.len() > 0 && (e@[0] == '+' || e@[0] == '-') {
            e@.drop_first()
        } else {
            e@
        };
        assert(d =~= e@.subrange(ds as int, n as int));
    }
    ds < n && digits_in(e, ds, n)
}

/// Whether `f64` parsing accepts `v` (see [`float_text`]). What the float's
/// value then is, and how it rounds, is left to whoever holds the float.
pub fn is_float_text(v: &[char]) -> (b: bool)
    ensures
        b == float_text(v@) is Some,
{
    let n = v.len();
    let bs: usize = if n > 0 && (v[0] == '+' || v[0] == '-') {
        1
    } else {
        0
    };
    let body = copy_range(v, bs, n);
    proof {
        let b = if v@.len() > 0 && (v@[0] == '+' || v@[0] == '-') {
            v@.drop_first()
        } else {
            v@
        };
        assert(b =~= body@);
    }
    if spells_word(body.as_slice(), "inf") || spells_word(body.as_slice(), "infinity")
        || spells_word(body.as_slice(), "nan") {
        return true;
    }
    let bl = body.len();
    let mut k: usize = 0;
    while k < bl && body[k] != 'e' && body[k] != 'E'
        invariant
            k <= bl,
            bl == body.len(),
            forall|j: int| 0 <= j < k ==> #[trigger] body@[j] != 'e' && body@[j] != 'E',
        decreases bl - k,
    {
        k = k + 1;
    }
    proof {
        lemma_first_exp_mark(body@, k as int);
    }
    let mantissa = copy_range(body.as_slice(), 0, k);
    assert(mantissa@ =~= body@.take(k as int));
    if !mantissa_ok(mantissa.as_slice()) {
        return false;
    }
    if k < bl {
        let ex = copy_range(body.as_slice(), k + 1, bl);
        assert(ex@ =~= body@.skip(k + 1));
        exponent_ok(ex.as_slice())
    } else {
        true
    }
}

} // verus!
