//! Character classes and text conversions shared by the lexer, the parser
//! and the runtime support.
use vstd::prelude::*;

verus! {

/// What `char::is_alphabetic` returns for a character (Unicode `Alphabetic`).
pub uninterp spec fn unicode_alphabetic(c: char) -> bool;

/// What `char::is_alphanumeric` returns for a character
/// (Unicode `Alphabetic` or `Numeric`).
pub uninterp spec fn unicode_alphanumeric(c: char) -> bool;

/// What `char::is_uppercase` returns for a character (Unicode `Uppercase`).
pub uninterp spec fn unicode_uppercase(c: char) -> bool;

/// ASCII letters `A`-`Z`, `a`-`z`.
pub open spec fn is_ascii_letter(c: char) -> bool {
    ('a' <= c && c <= 'z') || ('A' <= c && c <= 'Z')
}

/// ASCII digits `0`-`9`.
pub open spec fn is_ascii_digit(c: char) -> bool {
    '0' <= c && c <= '9'
}

/// ASCII hexadecimal digits `0`-`9`, `a`-`f`, `A`-`F`.
pub open spec fn is_ascii_hexdigit(c: char) -> bool {
    is_ascii_digit(c) || ('a' <= c && c <= 'f') || ('A' <= c && c <= 'F')
}

/// Calls `char::is_alphabetic`. The result is named `unicode_alphabetic(c)`;
/// on ASCII the Unicode `Alphabetic` property holds exactly of the letters.
#[verifier::external_body]
pub(crate) fn char_is_alphabetic(c: char) -> (r: bool)
    ensures
        r == unicode_alphabetic(c),
        (c as u32) < 128 ==> (r == is_ascii_letter(c)),
{
    c.is_alphabetic()
}

/// Calls `char::is_alphanumeric`. The result is named
/// `unicode_alphanumeric(c)`; it holds of every alphabetic character (the
/// documentation defines it as `is_alphabetic() || is_numeric()`), and on
/// ASCII exactly of letters and digits.
#[verifier::external_body]
pub(crate) fn char_is_alphanumeric(c: char) -> (r: bool)
    ensures
        r == unicode_alphanumeric(c),
        unicode_alphabetic(c) ==> r,
        (c as u32) < 128 ==> (r == (is_ascii_letter(c) || is_ascii_digit(c))),
{
    c.is_alphanumeric()
}

/// Calls `char::is_uppercase`. The result is named `unicode_uppercase(c)`;
/// on ASCII it holds exactly of `A`-`Z`.
#[verifier::external_body]
pub(crate) fn char_is_uppercase(c: char) -> (r: bool)
    ensures
        r == unicode_uppercase(c),
        (c as u32) < 128 ==> (r == ('A' <= c && c <= 'Z')),
{
    c.is_uppercase()
}

pub fn ascii_digit(c: char) -> (r: bool)
    ensures
        r == is_ascii_digit(c),
{
    '0' <= c && c <= '9'
}

pub fn ascii_hexdigit(c: char) -> (r: bool)
    ensures
        r == is_ascii_hexdigit(c),
{
    ('0' <= c && c <= '9') || ('a' <= c && c <= 'f') || ('A' <= c && c <= 'F')
}

/// A letter, as `char::is_alphabetic` tells: on ASCII exactly `A`-`Z` and
/// `a`-`z`, beyond ASCII the Unicode `Alphabetic` property.
pub open spec fn letter(c: char) -> bool {
    if (c as u32) < 128 { is_ascii_letter(c) } else { unicode_alphabetic(c) }
}

/// A letter or a digit, as `char::is_alphanumeric` tells: on ASCII exactly
/// the letters and `0`-`9`.
pub open spec fn letter_or_digit(c: char) -> bool {
    if (c as u32) < 128 { is_ascii_letter(c) || is_ascii_digit(c) } else { unicode_alphanumeric(c) }
}

/// An uppercase letter, as `char::is_uppercase` tells: on ASCII exactly
/// `A`-`Z`.
pub open spec fn upper_letter(c: char) -> bool {
    if (c as u32) < 128 { 'A' <= c && c <= 'Z' } else { unicode_uppercase(c) }
}

/// Whether `c` is a letter.
pub fn is_letter(c: char) -> (r: bool)
    ensures
        r == letter(c),
{
    if (c as u32) < 128 {
        ('a' <= c && c <= 'z') || ('A' <= c && c <= 'Z')
    } else {
        char_is_alphabetic(c)
    }
}

/// Whether `c` is a letter or a digit.
pub fn is_letter_or_digit(c: char) -> (r: bool)
    ensures
        r == letter_or_digit(c),
        letter(c) ==> r,
{
    if (c as u32) < 128 {
        ('a' <= c && c <= 'z') || ('A' <= c && c <= 'Z') || ('0' <= c && c <= '9')
    } else {
        char_is_alphanumeric(c)
    }
}

/// Whether `c` is an uppercase letter.
pub fn is_upper_letter(c: char) -> (r: bool)
    ensures
        r == upper_letter(c),
{
    if (c as u32) < 128 {
        'A' <= c && c <= 'Z'
    } else {
        char_is_uppercase(c)
    }
}

/// Calls `String::push`: the text grows by one character at its end.
#[verifier::external_body]
pub(crate) fn push_char(s: &mut String, c: char)
    ensures
        final(s)@ == old(s)@.push(c),
{
    s.push(c)
}

/// A new `String` holding the given characters.
pub fn string_from_chars(v: &Vec<char>) -> (s: String)
    ensures
        s@ == v@,
{
    let mut s = String::new();
    let mut i: usize = 0;
    while i < v.len()
        invariant
            i <= v.len(),
            s@ == v@.take(i as int),
        decreases v.len() - i,
    {
        push_char(&mut s, v[i]);
        i = i + 1;
        assert(s@ =~= v@.take(i as int));
    }
    assert(v@.take(v.len() as int) =~= v@);
    s
}

/// Whether the characters are exactly those of the text `w`.
pub fn chars_equal_str(v: &Vec<char>, w: &str) -> (r: bool)
    ensures
        r == (v@ == w@),
{
    let n = w.unicode_len();
    if v.len() != n {
        return false;
    }
    let mut i: usize = 0;
    while i < n
        invariant
            i <= n,
            n == w@.len(),
            v@.len() == n,
            forall|j: int| 0 <= j < i ==> v@[j] == w@[j],
        decreases n - i,
    {
        if v[i] != w.get_char(i) {
            return false;
        }
        i = i + 1;
    }
    assert(v@ =~= w@);
    true
}

/// The value of a digit character in bases up to 16 (0 for any other character).
pub open spec fn digit_value(c: char) -> int {
    if '0' <= c && c <= '9' {
        c as int - '0' as int
    } else if 'a' <= c && c <= 'f' {
        c as int - 'a' as int + 10
    } else if 'A' <= c && c <= 'F' {
        c as int - 'A' as int + 10
    } else {
        0
    }
}

/// The number that the digits `s` write in base `base`, most significant first.
pub open spec fn radix_value(s: Seq<char>, base: int) -> int
    decreases s.len(),
{
    if s.len() == 0 {
        0
    } else {
        radix_value(s.drop_last(), base) * base + digit_value(s.last())
    }
}

/// What `i64::from_str_radix(s, base).unwrap_or(0)` gives for a text of
/// digits: the value when there is at least one digit and it fits, else 0.
pub open spec fn digits_i64_or_zero(s: Seq<char>, base: int) -> i64 {
    if s.len() > 0 && radix_value(s, base) <= i64::MAX {
        radix_value(s, base) as i64
    } else {
        0
    }
}

pub proof fn lemma_radix_value_nonneg(s: Seq<char>, base: int)
    requires
        base >= 1,
    ensures
        radix_value(s, base) >= 0,
    decreases s.len(),
{
    if s.len() > 0 {
        lemma_radix_value_nonneg(s.drop_last(), base);
        let v = radix_value(s.drop_last(), base);
        assert(v * base >= 0) by (nonlinear_arith)
            requires
                v >= 0,
                base >= 1,
        ;
    }
}

/// Once a prefix of the digits is above `bound`, so is every longer prefix.
pub proof fn lemma_radix_value_grows(s: Seq<char>, i: int, base: int, bound: int)
    requires
        base >= 1,
        0 <= i <= s.len(),
        bound >= 0,
        radix_value(s.take(i), base) > bound,
    ensures
        radix_value(s, base) > bound,
    decreases s.len() - i,
{
    if i < s.len() {
        let p = s.take(i + 1);
        assert(p.drop_last() =~= s.take(i));
        let v = radix_value(s.take(i), base);
        assert(v * base >= v) by (nonlinear_arith)
            requires
                v >= 0,
                base >= 1,
        ;
        lemma_radix_value_grows(s, i + 1, base, bound);
    } else {
        assert(s.take(i) =~= s);
    }
}

/// The value of the digits `v` in base `base` (10 or 16), or 0 when there is
/// no digit or the value does not fit in an `i64`.
pub fn digits_to_i64(v: &Vec<char>, base: i64) -> (r: i64)
    requires
        base == 10 || base == 16,
    ensures
        r == digits_i64_or_zero(v@, base as int),
{
    if v.len() == 0 {
        return 0;
    }
    let mut acc: i64 = 0;
    let mut i: usize = 0;
    while i < v.len()
        invariant
            i <= v.len(),
            base == 10 || base == 16,
            acc as int == radix_value(v@.take(i as int), base as int),
            acc >= 0,
        decreases v.len() - i,
    {
        let c = v[i];
        let d: i64 = if '0' <= c && c <= '9' {
            (c as u32 - '0' as u32) as i64
        } else if 'a' <= c && c <= 'f' {
            (c as u32 - 'a' as u32 + 10) as i64
        } else if 'A' <= c && c <= 'F' {
            (c as u32 - 'A' as u32 + 10) as i64
        } else {
            0
        };
        assert(v@.take(i + 1).drop_last() =~= v@.take(i as int));
        assert(v@.take(i + 1).last() == c);
        assert(d as int == digit_value(c));
        let next = match acc.checked_mul(base) {
            Some(m) => m.checked_add(d),
            None => None,
        };
        match next {
            Some(n) => {
                acc = n;
                i = i + 1;
            },
            None => {
                proof {
                    let a = acc as int;
                    let b = base as int;
                    assert(a * b >= 0) by (nonlinear_arith)
                        requires
                            a >= 0,
                            b >= 1,
                    ;
                    assert(radix_value(v@.take(i + 1), base as int) > i64::MAX);
                    lemma_radix_value_grows(v@, i + 1, base as int, i64::MAX as int);
                }
                return 0;
            },
        }
    }
    assert(v@.take(v.len() as int) =~= v@);
    acc
}


/// Whether the text starts with an uppercase letter.
pub fn first_is_uppercase(s: &str) -> (r: bool)
    ensures
        r == (s@.len() > 0 && upper_letter(s@[0])),
{
    if s.unicode_len() == 0 {
        false
    } else {
        is_upper_letter(s.get_char(0))
    }
}

/// A new `String` holding the text `s`.
pub fn string_of(s: &str) -> (r: String)
    ensures
        r@ == s@,
{
    String::from_str(s)
}


/// Whether the text of `s` is exactly that of `w`.
pub fn chars_are(s: &String, w: &str) -> (r: bool)
    ensures
        r == (s@ == w@),
{
    let other = string_of(w);
    *s == other
}


/// Whether two `str`s hold the same text.
pub(crate) fn str_eq(a: &str, b: &str) -> (r: bool)
    ensures
        r == (a@ == b@),
{
    let x: Vec<char> = chars_of(a);
    chars_equal_str(&x, b)
}


/// The characters of `s`, in order.
pub(crate) fn chars_of(s: &str) -> (v: Vec<char>)
    ensures
        v@ == s@,
{
    let mut v: Vec<char> = Vec::new();
    for c in it: s.chars()
        invariant
            v@ == it.seq().take(it.index() as int),
            it.seq() == s@,
    {
        v.push(c);
    }
    v
}

/// Appends the text of `add` to `out`.
pub fn push_text(out: &mut String, add: &str)
    ensures
        final(out)@ == old(out)@ + add@,
{
    let v: Vec<char> = chars_of(add);
    let mut k: usize = 0;
    while k < v.len()
        invariant
            k <= v.len(),
            v@ == add@,
            out@ == old(out)@ + v@.take(k as int),
        decreases v.len() - k,
    {
        push_char(out, v[k]);
        k = k + 1;
        assert(out@ =~= old(out)@ + v@.take(k as int));
    }
    assert(v@.take(v.len() as int) =~= v@);
}

} // verus!
