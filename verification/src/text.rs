//! The string primitives the voice layer is built from.
//!
//! Two units of length appear in this crate and they are kept apart: a
//! **code point** bound counts Unicode scalar values, a **UTF-16** bound counts
//! the code units a JavaScript client measures with `.length`.

use vstd::prelude::*;
use crate::chars::{chars_of, string_from_chars};

verus! {

/// Whitespace as JavaScript's `\s` and `String.prototype.trim` see it: the
/// ECMAScript `WhiteSpace` and `LineTerminator` sets. U+FEFF is in it and
/// U+0085 is not, which is where it differs from `char::is_whitespace`.
pub open spec fn is_js_space(c: char) -> bool {
    let u = c as u32;
    u == 0x09 || u == 0x0a || u == 0x0b || u == 0x0c || u == 0x0d || u == 0x20 || u == 0xa0
        || u == 0x1680 || (0x2000 <= u && u <= 0x200a) || u == 0x2028 || u == 0x2029 || u
        == 0x202f || u == 0x205f || u == 0x3000 || u == 0xfeff
}

/// Whether `c` is whitespace to JavaScript's `\s` and `trim`.
pub fn is_js_whitespace(c: char) -> (r: bool)
    ensures
        r == is_js_space(c),
{
    let u = c as u32;
    u == 0x09 || u == 0x0a || u == 0x0b || u == 0x0c || u == 0x0d || u == 0x20 || u == 0xa0
        || u == 0x1680 || (0x2000 <= u && u <= 0x200a) || u == 0x2028 || u == 0x2029 || u
        == 0x202f || u == 0x205f || u == 0x3000 || u == 0xfeff
}

/// `s` without its leading whitespace.
pub open spec fn trim_start_seq(s: Seq<char>) -> Seq<char>
    decreases s.len(),
{
    if s.len() > 0 && is_js_space(s[0]) {
        trim_start_seq(s.drop_first())
    } else {
        s
    }
}

/// `s` without its trailing whitespace.
pub open spec fn trim_end_seq(s: Seq<char>) -> Seq<char>
    decreases s.len(),
{
    if s.len() > 0 && is_js_space(s.last()) {
        trim_end_seq(s.drop_last())
    } else {
        s
    }
}

/// `String.prototype.trim()` on a character sequence.
pub open spec fn trim_seq(s: Seq<char>) -> Seq<char> {
    trim_end_seq(trim_start_seq(s))
}

proof fn lemma_trim_start_skip(s: Seq<char>, a: int)
    requires
        0 <= a <= s.len(),
        forall|i: int| 0 <= i < a ==> is_js_space(#[trigger] s[i]),
    ensures
        trim_start_seq(s) == trim_start_seq(s.subrange(a, s.len() as int)),
    decreases a,
{
    if a == 0 {
        assert(s.subrange(0, s.len() as int) =~= s);
    } else {
        assert(is_js_space(s[0]));
        let t = s.drop_first();
        assert forall|i: int| 0 <= i < a - 1 implies is_js_space(#[trigger] t[i]) by {
            assert(t[i] == s[i + 1]);
        }
        lemma_trim_start_skip(t, a - 1);
        assert(t.subrange(a - 1, t.len() as int) =~= s.subrange(a, s.len() as int));
    }
}

proof fn lemma_trim_end_skip(s: Seq<char>, b: int)
    requires
        0 <= b <= s.len(),
        forall|i: int| b <= i < s.len() ==> is_js_space(#[trigger] s[i]),
    ensures
        trim_end_seq(s) == trim_end_seq(s.subrange(0, b)),
    decreases s.len() - b,
{
    if b == s.len() {
        assert(s.subrange(0, b) =~= s);
    } else {
        assert(is_js_space(s.last()));
        let t = s.drop_last();
        assert forall|i: int| b <= i < t.len() implies is_js_space(#[trigger] t[i]) by {
            assert(t[i] == s[i]);
        }
        lemma_trim_end_skip(t, b);
        assert(t.subrange(0, b) =~= s.subrange(0, b));
    }
}

/// The bounds `[a, b)` of the trimmed part of `s`.
pub proof fn lemma_trim_bounds(s: Seq<char>, a: int, b: int)
    requires
        0 <= a <= b <= s.len(),
        forall|i: int| 0 <= i < a ==> is_js_space(#[trigger] s[i]),
        forall|i: int| b <= i < s.len() ==> is_js_space(#[trigger] s[i]),
        a < b ==> !is_js_space(s[a]) && !is_js_space(s[b - 1]),
        a == b ==> b == s.len(),
    ensures
        trim_seq(s) == s.subrange(a, b),
{
    lemma_trim_start_skip(s, a);
    let t = s.subrange(a, s.len() as int);
    if a < s.len() {
        assert(!is_js_space(t[0]));
    }
    assert(trim_start_seq(t) == t);
    assert forall|i: int| b - a <= i < t.len() implies is_js_space(#[trigger] t[i]) by {
        assert(t[i] == s[i + a]);
    }
    lemma_trim_end_skip(t, b - a);
    let u = t.subrange(0, b - a);
    assert(u =~= s.subrange(a, b));
    if a < b {
        assert(u.last() == s[b - 1]);
    }
    assert(trim_end_seq(u) == u);
}

proof fn lemma_trim_start_shape(s: Seq<char>)
    ensures
        trim_start_seq(s).len() == 0 || !is_js_space(trim_start_seq(s)[0]),
    decreases s.len(),
{
    if s.len() > 0 && is_js_space(s[0]) {
        lemma_trim_start_shape(s.drop_first());
    }
}

proof fn lemma_trim_end_shape(s: Seq<char>)
    ensures
        trim_end_seq(s).len() <= s.len(),
        trim_end_seq(s) == s.take(trim_end_seq(s).len() as int),
        trim_end_seq(s).len() == 0 || !is_js_space(trim_end_seq(s).last()),
    decreases s.len(),
{
    if s.len() > 0 && is_js_space(s.last()) {
        lemma_trim_end_shape(s.drop_last());
        let t = trim_end_seq(s.drop_last());
        assert(s.drop_last().take(t.len() as int) =~= s.take(t.len() as int));
    } else {
        assert(s.take(s.len() as int) =~= s);
    }
}

/// Trimming twice is trimming once.
pub proof fn lemma_trim_idempotent(s: Seq<char>)
    ensures
        trim_seq(trim_seq(s)) == trim_seq(s),
{
    let a = trim_start_seq(s);
    let e = trim_seq(s);
    lemma_trim_start_shape(s);
    lemma_trim_end_shape(a);
    if e.len() > 0 {
        assert(e[0] == a[0]);
        lemma_trim_bounds(e, 0, e.len() as int);
        assert(e.subrange(0, e.len() as int) =~= e);
    } else {
        assert(trim_start_seq(e) == e);
        assert(trim_end_seq(e) == e);
    }
}

/// The bounds of the trimmed part of `chars`.
pub fn trim_bounds(chars: &[char]) -> (r: (usize, usize))
    ensures
        r.0 <= r.1 <= chars@.len(),
        trim_seq(chars@) == chars@.subrange(r.0 as int, r.1 as int),
{
    let n = chars.len();
    let mut a: usize = 0;
    while a < n && is_js_whitespace(chars[a])
        invariant
            a <= n,
            n == chars@.len(),
            forall|i: int| 0 <= i < a ==> is_js_space(#[trigger] chars@[i]),
        decreases n - a,
    {
        a = a + 1;
    }
    let mut b: usize = n;
    while b > a && is_js_whitespace(chars[b - 1])
        invariant
            a <= b <= n,
            n == chars@.len(),
            forall|i: int| b <= i < n ==> is_js_space(#[trigger] chars@[i]),
        decreases b,
    {
        b = b - 1;
    }
    proof {
        lemma_trim_bounds(chars@, a as int, b as int);
    }
    (a, b)
}

/// `String.prototype.trim()`.
///
/// Trims exactly what [`clean`] collapses, so the two agree about what
/// whitespace is.
pub fn trim(value: &str) -> (r: &str)
    ensures
        r@ == trim_seq(value@),
{
    let chars = chars_of(value);
    let (a, b) = trim_bounds(&chars);
    value.substring_char(a, b)
}

/// [`trim`] into an owned string.
pub fn trimmed(value: &str) -> (r: String)
    ensures
        r@ == trim_seq(value@),
{
    let chars = chars_of(value);
    let (a, b) = trim_bounds(&chars);
    let mut out: Vec<char> = Vec::new();
    let mut i = a;
    while i < b
        invariant
            a <= i <= b <= chars@.len(),
            out@ == chars@.subrange(a as int, i as int),
        decreases b - i,
    {
        out.push(chars[i]);
        i = i + 1;
        assert(out@ =~= chars@.subrange(a as int, i as int));
    }
    string_from_chars(&out)
}

/// The state of the whitespace-collapsing pass after reading `s`: what has
/// been emitted, and whether a run of whitespace is open.
pub open spec fn clean_fold(s: Seq<char>) -> (Seq<char>, bool)
    decreases s.len(),
{
    if s.len() == 0 {
        (Seq::empty(), false)
    } else {
        let (out, in_run) = clean_fold(s.drop_last());
        let c = s.last();
        if is_js_space(c) {
            (out, true)
        } else if in_run && out.len() > 0 {
            (out.push(' ').push(c), false)
        } else {
            (out.push(c), false)
        }
    }
}

/// `String(value).replace(/\s+/g, ' ').trim()`: every run of whitespace
/// becomes one space, and none survives at either end.
pub open spec fn clean_seq(s: Seq<char>) -> Seq<char> {
    clean_fold(s).0
}

/// Collapse every run of whitespace to one space and trim the ends.
pub fn clean(value: &str) -> (r: String)
    ensures
        r@ == clean_seq(value@),
{
    let chars = chars_of(value);
    let mut out: Vec<char> = Vec::new();
    let mut in_run = false;
    let mut i: usize = 0;
    while i < chars.len()
        invariant
            i <= chars@.len(),
            (out@, in_run) == clean_fold(chars@.take(i as int)),
        decreases chars.len() - i,
    {
        let c = chars[i];
        assert(chars@.take(i + 1).drop_last() =~= chars@.take(i as int));
        assert(chars@.take(i + 1).last() == c);
        if is_js_whitespace(c) {
            in_run = true;
        } else {
            if in_run && out.len() > 0 {
                out.push(' ');
            }
            in_run = false;
            out.push(c);
        }
        i = i + 1;
    }
    assert(chars@.take(chars@.len() as int) =~= chars@);
    string_from_chars(&out)
}

/// Nothing `clean` emits starts or ends with whitespace, and every
/// whitespace character it emits is a single space between two others.
pub proof fn lemma_clean_shape(s: Seq<char>)
    ensures
        clean_seq(s).len() > 0 ==> !is_js_space(clean_seq(s)[0]) && !is_js_space(
            clean_seq(s).last(),
        ),
        forall|i: int|
            0 <= i < clean_seq(s).len() && is_js_space(#[trigger] clean_seq(s)[i]) ==> clean_seq(
                s,
            )[i] == ' ' && 0 < i < clean_seq(s).len() - 1 && !is_js_space(clean_seq(s)[i - 1])
                && !is_js_space(clean_seq(s)[i + 1]),
    decreases s.len(),
{
    if s.len() > 0 {
        lemma_clean_shape(s.drop_last());
        let (out, in_run) = clean_fold(s.drop_last());
        let c = s.last();
        let r = clean_seq(s);
        if !is_js_space(c) {
            assert(is_js_space(' '));
            if in_run && out.len() > 0 {
                assert forall|i: int| 0 <= i < r.len() && is_js_space(#[trigger] r[i]) implies r[i]
                    == ' ' && 0 < i < r.len() - 1 && !is_js_space(r[i - 1]) && !is_js_space(
                    r[i + 1],
                ) by {
                    if i < out.len() {
                        assert(r[i] == out[i]);
                        assert(r[i - 1] == out[i - 1]);
                        if i + 1 < out.len() {
                            assert(r[i + 1] == out[i + 1]);
                        }
                    } else {
                        assert(i == out.len());
                        assert(r[i - 1] == out.last());
                    }
                }
            } else {
                assert forall|i: int| 0 <= i < r.len() && is_js_space(#[trigger] r[i]) implies r[i]
                    == ' ' && 0 < i < r.len() - 1 && !is_js_space(r[i - 1]) && !is_js_space(
                    r[i + 1],
                ) by {
                    assert(r[i] == out[i]);
                    assert(r[i - 1] == out[i - 1]);
                    if i + 1 < out.len() {
                        assert(r[i + 1] == out[i + 1]);
                    }
                }
            }
        }
    }
}

/// `[...value].slice(0, max)` as a sequence: the first `max` code points.
pub open spec fn take_code_points(s: Seq<char>, max: nat) -> Seq<char> {
    if max < s.len() {
        s.take(max as int)
    } else {
        s
    }
}

/// `[...value].slice(0, max).join('')` — a **code point** bound.
pub fn bounded_code_points(value: &str, max: usize) -> (r: String)
    ensures
        r@ == take_code_points(value@, max as nat),
{
    let chars = chars_of(value);
    let mut out: Vec<char> = Vec::new();
    let mut i: usize = 0;
    while i < chars.len() && i < max
        invariant
            i <= chars@.len(),
            i <= max,
            out@ == chars@.take(i as int),
        decreases chars.len() - i,
    {
        out.push(chars[i]);
        i = i + 1;
        assert(out@ =~= chars@.take(i as int));
    }
    assert(max >= chars@.len() ==> chars@.take(i as int) =~= chars@);
    string_from_chars(&out)
}

/// The number of code points in `value`.
pub fn code_point_len(value: &str) -> (r: usize)
    ensures
        r == value@.len(),
{
    let chars = chars_of(value);
    chars.len()
}

/// How many UTF-16 code units encode `c`.
pub open spec fn utf16_width(c: char) -> nat {
    if (c as u32) >= 0x10000 {
        2
    } else {
        1
    }
}

/// JavaScript's `.length` of a character sequence.
pub open spec fn utf16_units(s: Seq<char>) -> nat
    decreases s.len(),
{
    if s.len() == 0 {
        0
    } else {
        utf16_units(s.drop_last()) + utf16_width(s.last())
    }
}

/// The UTF-16 length of a prefix grows with the prefix.
pub proof fn lemma_utf16_units_take_monotone(s: Seq<char>, i: int, j: int)
    requires
        0 <= i <= j <= s.len(),
    ensures
        utf16_units(s.take(i)) <= utf16_units(s.take(j)),
    decreases j - i,
{
    if i < j {
        lemma_utf16_units_take_monotone(s, i, j - 1);
        assert(s.take(j).drop_last() =~= s.take(j - 1));
    }
}

/// A prefix's UTF-16 length is at least its code point count.
pub proof fn lemma_utf16_units_at_least_len(s: Seq<char>)
    ensures
        utf16_units(s) >= s.len(),
    decreases s.len(),
{
    if s.len() > 0 {
        lemma_utf16_units_at_least_len(s.drop_last());
    }
}

fn width_of(c: char) -> (w: usize)
    ensures
        w == utf16_width(c),
{
    if (c as u32) >= 0x10000 {
        2
    } else {
        1
    }
}

/// How many leading code points of `s` fit in `max` UTF-16 code units.
pub open spec fn utf16_fit(s: Seq<char>, max: nat) -> nat
    decreases s.len(),
{
    if utf16_units(s) <= max || s.len() == 0 {
        s.len()
    } else {
        utf16_fit(s.drop_last(), max)
    }
}

/// `value.slice(0, max)` as a sequence, never splitting a surrogate pair.
pub open spec fn take_utf16(s: Seq<char>, max: nat) -> Seq<char> {
    s.take(utf16_fit(s, max) as int)
}

/// The prefix that fits and whose next code point would not fit is the one
/// [`utf16_fit`] names.
pub proof fn lemma_utf16_fit_unique(s: Seq<char>, max: nat, k: int)
    requires
        0 <= k <= s.len(),
        utf16_units(s.take(k)) <= max,
        k < s.len() ==> utf16_units(s.take(k + 1)) > max,
    ensures
        utf16_fit(s, max) == k,
    decreases s.len(),
{
    if k == s.len() {
        assert(s.take(k) =~= s);
    } else {
        lemma_utf16_units_take_monotone(s, k + 1, s.len() as int);
        assert(s.take(s.len() as int) =~= s);
        let t = s.drop_last();
        assert(t.take(k) =~= s.take(k));
        if k + 1 <= t.len() {
            assert(t.take(k + 1) =~= s.take(k + 1));
        }
        lemma_utf16_fit_unique(t, max, k);
    }
}

/// `value.slice(0, max)` — a **UTF-16 code unit** bound.
///
/// The result is the longest prefix of `value` whose UTF-16 length is at most
/// `max`, so a bound that would land inside a surrogate pair stops before it.
pub fn bounded_utf16(value: &str, max: usize) -> (r: String)
    ensures
        r@ == take_utf16(value@, max as nat),
{
    let chars = chars_of(value);
    let out = bounded_utf16_chars(&chars, max);
    string_from_chars(&out)
}

/// [`bounded_utf16`] of a character slice.
pub fn bounded_utf16_chars(chars: &[char], max: usize) -> (out: Vec<char>)
    ensures
        out@ == take_utf16(chars@, max as nat),
{
    let r = utf16_prefix(chars, max);
    let mut out: Vec<char> = Vec::new();
    let mut i: usize = 0;
    while i < r
        invariant
            r <= chars@.len(),
            i <= r,
            out@ == chars@.take(i as int),
        decreases r - i,
    {
        out.push(chars[i]);
        i = i + 1;
        assert(out@ =~= chars@.take(i as int));
    }
    out
}

/// The length of the longest prefix of `chars` whose UTF-16 length is at
/// most `max`.
pub fn utf16_prefix(chars: &[char], max: usize) -> (k: usize)
    ensures
        k == utf16_fit(chars@, max as nat),
        k <= chars@.len(),
        utf16_units(chars@.take(k as int)) <= max,
        k < chars@.len() ==> utf16_units(chars@.take(k + 1)) > max,
{
    let mut used: usize = 0;
    let mut i: usize = 0;
    while i < chars.len()
        invariant
            i <= chars@.len(),
            used == utf16_units(chars@.take(i as int)),
            used <= max,
        decreases chars.len() - i,
    {
        let w = width_of(chars[i]);
        assert(chars@.take(i + 1).drop_last() =~= chars@.take(i as int));
        if w > max - used {
            proof {
                lemma_utf16_fit_unique(chars@, max as nat, i as int);
            }
            return i;
        }
        used = used + w;
        i = i + 1;
    }
    proof {
        lemma_utf16_fit_unique(chars@, max as nat, i as int);
    }
    i
}

/// The number of UTF-16 code units in `value` — JavaScript's `.length`,
/// saturating at `usize::MAX`.
pub fn utf16_len(value: &str) -> (r: usize)
    ensures
        r == (if utf16_units(value@) <= usize::MAX {
            utf16_units(value@)
        } else {
            usize::MAX as nat
        }),
{
    let chars = chars_of(value);
    utf16_len_chars(&chars)
}

/// [`utf16_len`] of a character slice.
pub fn utf16_len_chars(chars: &[char]) -> (r: usize)
    ensures
        r == (if utf16_units(chars@) <= usize::MAX {
            utf16_units(chars@)
        } else {
            usize::MAX as nat
        }),
{
    let mut used: usize = 0;
    let mut i: usize = 0;
    while i < chars.len()
        invariant
            i <= chars@.len(),
            used == utf16_units(chars@.take(i as int)),
        decreases chars.len() - i,
    {
        let w = width_of(chars[i]);
        assert(chars@.take(i + 1).drop_last() =~= chars@.take(i as int));
        if w > usize::MAX - used {
            proof {
                lemma_utf16_units_take_monotone(chars@, i + 1, chars@.len() as int);
                assert(chars@.take(chars@.len() as int) =~= chars@);
            }
            return usize::MAX;
        }
        used = used + w;
        i = i + 1;
    }
    assert(chars@.take(chars@.len() as int) =~= chars@);
    used
}

} // verus!
