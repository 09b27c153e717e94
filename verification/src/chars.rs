//! Conversions between strings and character vectors, and decimal rendering.
//!
//! Every string routine in this crate works on a `Vec<char>` whose view is the
//! string's view, so its loops can be verified; the two conversions below are
//! the only places a `str` is walked by std itself.

use vstd::prelude::*;

verus! {

/// The characters of `s`, in order.
///
/// Trusted: wraps `str::chars` followed by `Iterator::collect`, which yields
/// exactly the Unicode scalar values of the string in order.
#[verifier::external_body]
pub(crate) fn chars_of(s: &str) -> (v: Vec<char>)
    ensures
        v@ == s@,
{
    s.chars().collect()
}

/// A `String` holding exactly the characters of `v`.
///
/// Trusted: wraps `FromIterator<char> for String` (`collect`), which appends
/// the characters in order.
#[verifier::external_body]
pub(crate) fn string_from_chars(v: &[char]) -> (s: String)
    ensures
        s@ == v@,
{
    v.iter().collect()
}

/// Whether two strings hold the same characters.
///
/// Trusted: wraps `<str as PartialEq>::eq`, which compares the strings
/// byte for byte, that is, character for character.
#[verifier::external_body]
pub(crate) fn str_eq(a: &str, b: &str) -> (r: bool)
    ensures
        r == (a@ == b@),
{
    a == b
}

/// Whether two character sequences are equal, compared element by element.
pub fn chars_eq(a: &[char], b: &[char]) -> (r: bool)
    ensures
        r == (a@ == b@),
{
    if a.len() != b.len() {
        return false;
    }
    let mut i: usize = 0;
    while i < a.len()
        invariant
            a.len() == b.len(),
            i <= a.len(),
            forall|j: int| 0 <= j < i ==> a@[j] == b@[j],
        decreases a.len() - i,
    {
        if a[i] != b[i] {
            return false;
        }
        i = i + 1;
    }
    assert(a@ =~= b@);
    true
}

/// Append every character of `src` to `dst`.
pub fn push_all(dst: &mut Vec<char>, src: &[char])
    ensures
        final(dst)@ == old(dst)@ + src@,
{
    let mut i: usize = 0;
    while i < src.len()
        invariant
            i <= src.len(),
            dst@ == old(dst)@ + src@.take(i as int),
        decreases src.len() - i,
    {
        dst.push(src[i]);
        i = i + 1;
        assert(src@.take(i as int) =~= src@.take((i - 1) as int).push(src@[i - 1]));
    }
    assert(src@.take(src.len() as int) =~= src@);
}

/// Append every character of `src` to `dst`.
pub fn push_str(dst: &mut Vec<char>, src: &str)
    ensures
        final(dst)@ == old(dst)@ + src@,
{
    let chars = chars_of(src);
    push_all(dst, &chars);
}

/// The character for a decimal digit.
pub open spec fn digit_char(d: nat) -> char {
    if d == 0 {
        '0'
    } else if d == 1 {
        '1'
    } else if d == 2 {
        '2'
    } else if d == 3 {
        '3'
    } else if d == 4 {
        '4'
    } else if d == 5 {
        '5'
    } else if d == 6 {
        '6'
    } else if d == 7 {
        '7'
    } else if d == 8 {
        '8'
    } else {
        '9'
    }
}

/// The decimal rendering of `n`, most significant digit first, no padding.
pub open spec fn decimal_seq(n: nat) -> Seq<char>
    decreases n,
{
    if n < 10 {
        seq![digit_char(n)]
    } else {
        decimal_seq(n / 10).push(digit_char(n % 10))
    }
}

/// Every decimal rendering has at least one digit, and only digits.
pub proof fn lemma_decimal_shape(n: nat)
    ensures
        decimal_seq(n).len() >= 1,
        n >= 10 ==> decimal_seq(n).len() >= 2,
        decimal_seq(n).last() == digit_char(n % 10),
    decreases n,
{
    if n >= 10 {
        lemma_decimal_shape(n / 10);
    }
}

/// Different numbers render differently.
pub proof fn lemma_decimal_injective(a: nat, b: nat)
    ensures
        decimal_seq(a) == decimal_seq(b) ==> a == b,
    decreases a + b,
{
    if decimal_seq(a) == decimal_seq(b) {
        lemma_decimal_shape(a);
        lemma_decimal_shape(b);
        lemma_digit_char_injective(a % 10, b % 10);
        if a >= 10 && b >= 10 {
            assert(decimal_seq(a / 10) =~= decimal_seq(a).drop_last());
            assert(decimal_seq(b / 10) =~= decimal_seq(b).drop_last());
            lemma_decimal_injective(a / 10, b / 10);
        } else if a < 10 && b >= 10 {
            assert(decimal_seq(a).len() == 1);
        } else if a >= 10 && b < 10 {
            assert(decimal_seq(b).len() == 1);
        }
    }
}

proof fn lemma_digit_char_injective(a: nat, b: nat)
    requires
        a < 10,
        b < 10,
    ensures
        digit_char(a) == digit_char(b) ==> a == b,
{
}

/// The decimal rendering of a signed value: a `-` before the magnitude.
pub open spec fn signed_decimal_seq(n: int) -> Seq<char> {
    if n < 0 {
        seq!['-'] + decimal_seq((-n) as nat)
    } else {
        decimal_seq(n as nat)
    }
}

fn digit(d: u64) -> (c: char)
    requires
        d < 10,
    ensures
        c == digit_char(d as nat),
{
    if d == 0 {
        '0'
    } else if d == 1 {
        '1'
    } else if d == 2 {
        '2'
    } else if d == 3 {
        '3'
    } else if d == 4 {
        '4'
    } else if d == 5 {
        '5'
    } else if d == 6 {
        '6'
    } else if d == 7 {
        '7'
    } else if d == 8 {
        '8'
    } else {
        '9'
    }
}

/// Append the decimal rendering of `n`.
pub fn push_decimal(out: &mut Vec<char>, n: u64)
    ensures
        final(out)@ == old(out)@ + decimal_seq(n as nat),
    decreases n,
{
    if n >= 10 {
        push_decimal(out, n / 10);
    }
    out.push(digit(n % 10));
    proof {
        if n >= 10 {
            assert(old(out)@ + decimal_seq(n as nat) =~= old(out)@ + decimal_seq((n / 10) as nat)
                + seq![digit_char((n % 10) as nat)]);
        }
    }
}

/// Append the decimal rendering of a signed `n`.
pub fn push_signed_decimal(out: &mut Vec<char>, n: i64)
    ensures
        final(out)@ == old(out)@ + signed_decimal_seq(n as int),
{
    if n < 0 {
        out.push('-');
        let magnitude: u64 = if n == i64::MIN {
            9_223_372_036_854_775_808u64
        } else {
            (-n) as u64
        };
        push_decimal(out, magnitude);
        assert(old(out)@ + signed_decimal_seq(n as int) =~= old(out)@ + seq!['-']
            + decimal_seq((-n) as nat));
    } else {
        push_decimal(out, n as u64);
    }
}

/// The decimal rendering of `n`.
pub fn decimal_string(n: u64) -> (s: String)
    ensures
        s@ == decimal_seq(n as nat),
{
    let mut out: Vec<char> = Vec::new();
    push_decimal(&mut out, n);
    assert(out@ =~= decimal_seq(n as nat));
    string_from_chars(&out)
}

/// What `str::to_lowercase` answers for a string: its Unicode lowercase
/// mapping.
pub uninterp spec fn lowercase_text(s: Seq<char>) -> Seq<char>;

/// The lowercase equivalent of `s`.
///
/// Trusted: wraps `str::to_lowercase`, whose answer depends on the string
/// alone; the mapping itself (Unicode's `Lowercase` property) is named
/// [`lowercase_text`], not stated.
#[verifier::external_body]
pub(crate) fn to_lowercase(s: &str) -> (r: String)
    ensures
        r@ == lowercase_text(s@),
{
    s.to_lowercase()
}

} // verus!
