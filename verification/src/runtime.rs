//! Operations on runtime values that the interpreter's built-in functions
//! perform: number/text conversions and text functions.
use vstd::prelude::*;
use crate::ast::BinOp;
use crate::text::{
    chars_of, digit_value, is_ascii_digit, lemma_radix_value_grows, lemma_radix_value_nonneg,
    push_char, push_text, radix_value, string_from_chars,
};

verus! {

// ── Numbers as text ──────────────────────────────────────────────────────────

pub open spec fn digit_char(d: int) -> char {
    if d == 0 {
        '0'
    } else if d == 1 {
        '1'
    } else if d == 2 {
        '2'
    } else if d == 3 {
        '3'
    } else if d == 4 {
        '4'
    } else if d == 5 {
        '5'
    } else if d == 6 {
        '6'
    } else if d == 7 {
        '7'
    } else if d == 8 {
        '8'
    } else {
        '9'
    }
}

/// The decimal digits of `n`, without leading zeros.
pub open spec fn nat_text(n: nat) -> Seq<char>
    decreases n,
{
    if n < 10 {
        seq![digit_char(n as int)]
    } else {
        nat_text(n / 10).push(digit_char((n % 10) as int))
    }
}

/// The decimal text of an integer: a `-` before the digits of a negative one.
pub open spec fn int_text(n: int) -> Seq<char> {
    if n < 0 {
        seq!['-'] + nat_text((-n) as nat)
    } else {
        nat_text(n as nat)
    }
}

fn digit_char_exec(d: u64) -> (c: char)
    requires
        d < 10,
    ensures
        c == digit_char(d as int),
{
    if d == 0 {
        '0'
    } else if d == 1 {
        '1'
    } else if d == 2 {
        '2'
    } else if d == 3 {
        '3'
    } else if d == 4 {
        '4'
    } else if d == 5 {
        '5'
    } else if d == 6 {
        '6'
    } else if d == 7 {
        '7'
    } else if d == 8 {
        '8'
    } else {
        '9'
    }
}

pub(crate) fn push_nat_text(s: &mut String, n: u64)
    ensures
        final(s)@ == old(s)@ + nat_text(n as nat),
    decreases n,
{
    if n >= 10 {
        push_nat_text(s, n / 10);
    }
    push_char(s, digit_char_exec(n % 10));
    proof {
        if n >= 10 {
            assert(old(s)@ + nat_text(n as nat) =~= old(s)@ + nat_text((n / 10) as nat) + seq![digit_char((n % 10) as int)]);
        } else {
            assert(old(s)@ + nat_text(n as nat) =~= old(s)@.push(digit_char((n % 10) as int)));
        }
    }
}

/// The decimal text of an `i64` (what `to_string` gives).
pub fn int_to_text(n: i64) -> (r: String)
    ensures
        r@ == int_text(n as int),
{
    let mut s = String::new();
    if n < 0 {
        push_char(&mut s, '-');
        let m: i128 = 0 - (n as i128);
        push_nat_text(&mut s, m as u64);
    } else {
        push_nat_text(&mut s, n as u64);
    }
    s
}

/// The decimal text of a `usize`.
pub fn usize_to_text(n: usize) -> (r: String)
    ensures
        r@ == nat_text(n as nat),
{
    let mut s = String::new();
    push_nat_text(&mut s, n as u64);
    s
}

/// The text of a truth value: `true` or `false`.
pub open spec fn bool_text(b: bool) -> Seq<char> {
    if b { "true"@ } else { "false"@ }
}

/// The text of a truth value (what `to_string` gives).
pub fn bool_to_text(b: bool) -> (r: String)
    ensures
        r@ == bool_text(b),
{
    let mut s = String::new();
    if b {
        push_text(&mut s, "true");
    } else {
        push_text(&mut s, "false");
    }
    proof {
        assert(s@ =~= bool_text(b));
    }
    s
}

/// The length of a text in bytes of its UTF-8 form, as an `i64` (what
/// `len` of a string gives).
pub fn byte_len(s: &str) -> (r: i64)
    ensures
        r == (vstd::utf8::encode_utf8(s@).len() as usize) as i64,
{
    s.len() as i64
}

/// Whether every character is an ASCII digit.
pub open spec fn all_digits(s: Seq<char>) -> bool {
    forall|i: int| 0 <= i < s.len() ==> is_ascii_digit(#[trigger] s[i])
}

/// What `str::parse::<i64>` accepts: an optional `+` or `-`, then at least
/// one digit and nothing else, of a value within the `i64` range.
pub open spec fn parsed_int(s: Seq<char>) -> Option<int> {
    let neg = s.len() > 0 && s[0] == '-';
    let d = if s.len() > 0 && (s[0] == '-' || s[0] == '+') { s.drop_first() } else { s };
    if d.len() == 0 || !all_digits(d) {
        None
    } else {
        let v = if neg { -radix_value(d, 10) } else { radix_value(d, 10) };
        if i64::MIN <= v <= i64::MAX {
            Some(v)
        } else {
            None
        }
    }
}

/// `s.parse::<i64>().unwrap_or(0)`: the integer that `s` writes, or 0.
pub open spec fn int_or_zero(s: Seq<char>) -> i64 {
    match parsed_int(s) {
        Some(v) => v as i64,
        None => 0,
    }
}

/// The integer that the text writes (an optional sign, then decimal digits),
/// or 0 when it writes none or one out of the `i64` range.
#[verifier::spinoff_prover]
#[verifier::rlimit(30)]
pub fn parse_int_or_zero(s: &str) -> (r: i64)
    ensures
        r == int_or_zero(s@),
{
    let v = chars_of(s);
    let ghost sv = v@;
    let n = v.len();
    let neg = n > 0 && v[0] == '-';
    let start: usize = if n > 0 && (v[0] == '-' || v[0] == '+') { 1 } else { 0 };
    let ghost d = if sv.len() > 0 && (sv[0] == '-' || sv[0] == '+') { sv.drop_first() } else { sv };
    assert(d =~= sv.skip(start as int));
    if start >= n {
        return 0;
    }
    let mut acc: i128 = 0;
    let mut i: usize = start;
    while i < n
        invariant
            start <= i <= n,
            n == sv.len(),
            v@ == sv,
            sv == s@,
            neg == (sv.len() > 0 && sv[0] == '-'),
            d == (if sv.len() > 0 && (sv[0] == '-' || sv[0] == '+') { sv.drop_first() } else { sv }),
            d == sv.skip(start as int),
            d.len() > 0,
            acc == radix_value(d.take(i - start), 10),
            0 <= acc <= 9223372036854775808,
            forall|j: int| 0 <= j < i - start ==> is_ascii_digit(#[trigger] d[j]),
        decreases n - i,
    {
        let c = v[i];
        if !('0' <= c && c <= '9') {
            proof {
                assert(d[i - start] == c);
                assert(!all_digits(d));
                assert(sv == s@);
                assert(d == (if s@.len() > 0 && (s@[0] == '-' || s@[0] == '+') { s@.drop_first() } else { s@ }));
                assert(parsed_int(s@) is None);
            }
            return 0;
        }
        let dv: i128 = (c as u32 - '0' as u32) as i128;
        proof {
            assert(d[i - start] == c);
            assert(d.take(i - start + 1).drop_last() =~= d.take(i - start));
            assert(d.take(i - start + 1).last() == c);
            assert(dv == digit_value(c));
            assert(radix_value(d.take(i - start + 1), 10) == acc * 10 + dv);
        }
        acc = acc * 10 + dv;
        i = i + 1;
        if acc > 9223372036854775808 {
            proof {
                lemma_radix_value_grows(d, (i - start) as int, 10, 9223372036854775808);
                assert(radix_value(d, 10) > 9223372036854775808);
                if all_digits(d) {
                    if neg {
                        assert(-radix_value(d, 10) < i64::MIN);
                    } else {
                        assert(radix_value(d, 10) > i64::MAX);
                    }
                }
                assert(parsed_int(s@) is None);
            }
            return 0;
        }
    }
    assert(d.take(n - start) =~= d);
    assert(all_digits(d));
    let value: i128 = if neg { 0 - acc } else { acc };
    if value > 9223372036854775807 {
        return 0;
    }
    value as i64
}

// ── Text ─────────────────────────────────────────────────────────────────────

/// Whether `p` occurs in `s` at index `i`.
pub open spec fn occurs_at(s: Seq<char>, p: Seq<char>, i: int) -> bool {
    0 <= i && i + p.len() <= s.len() && s.subrange(i, i + p.len()) == p
}

/// `str::contains`: whether `p` occurs anywhere in `s`.
pub open spec fn text_contains(s: Seq<char>, p: Seq<char>) -> bool {
    exists|i: int| occurs_at(s, p, i)
}

fn occurs_at_exec(s: &Vec<char>, p: &Vec<char>, i: usize) -> (r: bool)
    ensures
        r == occurs_at(s@, p@, i as int),
{
    if i > s.len() || p.len() > s.len() - i {
        return false;
    }
    let mut k: usize = 0;
    while k < p.len()
        invariant
            k <= p.len(),
            i + p.len() <= s.len(),
            forall|j: int| 0 <= j < k ==> s@[i + j] == p@[j],
        decreases p.len() - k,
    {
        if s[i + k] != p[k] {
            proof {
                assert(s@.subrange(i as int, i + p.len())[k as int] != p@[k as int]);
            }
            return false;
        }
        k = k + 1;
    }
    assert(s@.subrange(i as int, i + p.len()) =~= p@);
    true
}

/// Whether `p` occurs in `s`.
pub fn contains(s: &str, p: &str) -> (r: bool)
    ensures
        r == text_contains(s@, p@),
{
    let sv = chars_of(s);
    let pv = chars_of(p);
    let mut i: usize = 0;
    loop
        invariant
            i <= sv.len(),
            sv@ == s@,
            pv@ == p@,
            forall|j: int| 0 <= j < i ==> !occurs_at(s@, p@, j),
        ensures
            i == sv.len(),
            forall|j: int| 0 <= j <= i ==> !occurs_at(s@, p@, j),
        decreases sv.len() - i,
    {
        if occurs_at_exec(&sv, &pv, i) {
            return true;
        }
        if i == sv.len() {
            break;
        }
        i = i + 1;
    }
    assert forall|j: int| !occurs_at(s@, p@, j) by {
        if j > i {
            assert(j > s@.len());
        }
    }
    false
}

/// Whether `s` starts with `p`.
pub fn starts_with(s: &str, p: &str) -> (r: bool)
    ensures
        r == occurs_at(s@, p@, 0),
{
    let sv = chars_of(s);
    let pv = chars_of(p);
    occurs_at_exec(&sv, &pv, 0)
}

/// Whether `s` ends with `p`.
pub fn ends_with(s: &str, p: &str) -> (r: bool)
    ensures
        r == (p@.len() <= s@.len() && occurs_at(s@, p@, s@.len() - p@.len())),
{
    let sv = chars_of(s);
    let pv = chars_of(p);
    if pv.len() > sv.len() {
        return false;
    }
    occurs_at_exec(&sv, &pv, sv.len() - pv.len())
}

/// `str::replace`: every occurrence of `from`, left to right and without
/// overlap, replaced by `to`; an empty `from` matches before every character
/// and at the end.
pub open spec fn replace_all(s: Seq<char>, from: Seq<char>, to: Seq<char>) -> Seq<char>
    decreases s.len(),
{
    if from.len() == 0 {
        if s.len() == 0 {
            to
        } else {
            to + seq![s[0]] + replace_all(s.drop_first(), from, to)
        }
    } else if occurs_at(s, from, 0) {
        to + replace_all(s.skip(from.len() as int), from, to)
    } else if s.len() == 0 {
        s
    } else {
        seq![s[0]] + replace_all(s.drop_first(), from, to)
    }
}

fn push_all(out: &mut String, v: &Vec<char>)
    ensures
        final(out)@ == old(out)@ + v@,
{
    let mut k: usize = 0;
    while k < v.len()
        invariant
            k <= v.len(),
            out@ == old(out)@ + v@.take(k as int),
        decreases v.len() - k,
    {
        push_char(out, v[k]);
        k = k + 1;
        assert(out@ =~= old(out)@ + v@.take(k as int));
    }
    assert(v@.take(v.len() as int) =~= v@);
}

/// Every occurrence of `from` in `s` replaced by `to`.
pub fn replace(s: &str, from: &str, to: &str) -> (r: String)
    ensures
        r@ == replace_all(s@, from@, to@),
{
    let sv = chars_of(s);
    let fv = chars_of(from);
    let tv = chars_of(to);
    let mut out = String::new();
    let mut i: usize = 0;
    assert(s@.skip(0) =~= s@);
    loop
        invariant_except_break
            replace_all(s@, from@, to@) == out@ + replace_all(s@.skip(i as int), from@, to@),
        invariant
            i <= sv.len(),
            sv@ == s@,
            fv@ == from@,
            tv@ == to@,
        ensures
            replace_all(s@, from@, to@) == out@,
        decreases sv.len() - i,
    {
        let ghost rest = s@.skip(i as int);
        let ghost out0 = out@;
        if fv.len() == 0 {
            push_all(&mut out, &tv);
            if i == sv.len() {
                proof {
                    assert(rest.len() == 0);
                }
                break;
            }
            push_char(&mut out, sv[i]);
            proof {
                assert(rest.drop_first() =~= s@.skip(i + 1));
                assert(out@ + replace_all(s@.skip(i + 1), from@, to@) =~= out0 + (to@ + seq![rest[0]] + replace_all(rest.drop_first(), from@, to@)));
            }
            i = i + 1;
        } else if occurs_at_exec(&sv, &fv, i) {
            proof {
                assert(rest.subrange(0, from@.len() as int) =~= s@.subrange(i as int, i + from@.len()));
                assert(rest.skip(from@.len() as int) =~= s@.skip(i + fv.len()));
            }
            push_all(&mut out, &tv);
            proof {
                assert(out@ + replace_all(s@.skip(i + fv.len()), from@, to@) =~= out0 + (to@ + replace_all(rest.skip(from@.len() as int), from@, to@)));
            }
            i = i + fv.len();
        } else if i == sv.len() {
            proof {
                assert(rest.len() == 0);
                assert(!occurs_at(rest, from@, 0));
                assert(out@ + replace_all(rest, from@, to@) =~= out@);
            }
            break;
        } else {
            proof {
                if occurs_at(rest, from@, 0) {
                    assert(rest.subrange(0, from@.len() as int) =~= s@.subrange(i as int, i + from@.len()));
                }
                assert(rest.drop_first() =~= s@.skip(i + 1));
            }
            push_char(&mut out, sv[i]);
            proof {
                assert(out@ + replace_all(s@.skip(i + 1), from@, to@) =~= out0 + (seq![rest[0]] + replace_all(rest.drop_first(), from@, to@)));
            }
            i = i + 1;
        }
    }
    out
}


/// What `char::is_whitespace` returns (Unicode `White_Space`).
pub uninterp spec fn unicode_whitespace(c: char) -> bool;

/// Calls `char::is_whitespace`. The result is named `unicode_whitespace(c)`;
/// among ASCII characters the property holds exactly of tab, line feed,
/// vertical tab, form feed, carriage return and space.
#[verifier::external_body]
fn char_is_whitespace(c: char) -> (r: bool)
    ensures
        r == unicode_whitespace(c),
        (c as u32) < 128 ==> (r == (c == ' ' || c == '\t' || c == '\n' || c == '\r' || c == '\x0B' || c == '\x0C')),
{
    c.is_whitespace()
}

/// White space, as `char::is_whitespace` tells: on ASCII exactly tab, line
/// feed, vertical tab, form feed, carriage return and space; beyond ASCII
/// the Unicode `White_Space` property.
pub open spec fn whitespace(c: char) -> bool {
    if (c as u32) < 128 {
        c == ' ' || c == '\t' || c == '\n' || c == '\r' || c == '\x0B' || c == '\x0C'
    } else {
        unicode_whitespace(c)
    }
}

/// Whether `c` is white space.
pub fn is_whitespace_char(c: char) -> (r: bool)
    ensures
        r == whitespace(c),
{
    if (c as u32) < 128 {
        c == ' ' || c == '\t' || c == '\n' || c == '\r' || c == '\x0B' || c == '\x0C'
    } else {
        char_is_whitespace(c)
    }
}

/// `s` without its leading whitespace.
pub open spec fn trim_start(s: Seq<char>) -> Seq<char>
    decreases s.len(),
{
    if s.len() > 0 && whitespace(s[0]) {
        trim_start(s.drop_first())
    } else {
        s
    }
}

/// `s` without its trailing whitespace.
pub open spec fn trim_end(s: Seq<char>) -> Seq<char>
    decreases s.len(),
{
    if s.len() > 0 && whitespace(s.last()) {
        trim_end(s.drop_last())
    } else {
        s
    }
}

/// `str::trim`: `s` without leading and trailing whitespace.
pub open spec fn trimmed(s: Seq<char>) -> Seq<char> {
    trim_end(trim_start(s))
}

/// The text without its leading and trailing whitespace.
pub fn trim(s: &str) -> (r: String)
    ensures
        r@ == trimmed(s@),
{
    let v = chars_of(s);
    let mut a: usize = 0;
    assert(s@.skip(0) =~= s@);
    while a < v.len() && is_whitespace_char(v[a])
        invariant
            a <= v.len(),
            v@ == s@,
            trim_start(s@) == trim_start(s@.skip(a as int)),
        decreases v.len() - a,
    {
        assert(s@.skip(a as int).drop_first() =~= s@.skip(a + 1));
        a = a + 1;
    }
    let ghost ts = s@.skip(a as int);
    assert(trim_start(s@) == ts);
    let mut b: usize = v.len();
    while b > a && is_whitespace_char(v[b - 1])
        invariant
            a <= b <= v.len(),
            v@ == s@,
            ts == s@.skip(a as int),
            trim_end(ts) == trim_end(s@.subrange(a as int, b as int)),
        decreases b,
    {
        assert(s@.subrange(a as int, b as int).drop_last() =~= s@.subrange(a as int, b - 1));
        b = b - 1;
    }
    assert(ts =~= s@.subrange(a as int, v.len() as int)) by {
        assert(ts == s@.skip(a as int));
    }
    let mut out = String::new();
    let mut k: usize = a;
    while k < b
        invariant
            a <= k <= b,
            b <= v.len(),
            v@ == s@,
            out@ == s@.subrange(a as int, k as int),
        decreases b - k,
    {
        push_char(&mut out, v[k]);
        k = k + 1;
        assert(out@ =~= s@.subrange(a as int, k as int));
    }
    out
}

/// What `str::to_uppercase` gives for a text (Unicode case mapping).
pub uninterp spec fn unicode_upper(s: Seq<char>) -> Seq<char>;

/// What `str::to_lowercase` gives for a text (Unicode case mapping).
pub uninterp spec fn unicode_lower(s: Seq<char>) -> Seq<char>;

/// The ASCII case mappings: a letter to the other case, anything else kept.
pub open spec fn ascii_upper(c: char) -> char {
    if 'a' <= c && c <= 'z' {
        ((c as u32) - 32) as char
    } else {
        c
    }
}

pub open spec fn ascii_lower(c: char) -> char {
    if 'A' <= c && c <= 'Z' {
        ((c as u32) + 32) as char
    } else {
        c
    }
}

pub open spec fn is_ascii_text(s: Seq<char>) -> bool {
    forall|i: int| 0 <= i < s.len() ==> (#[trigger] s[i] as u32) < 128
}

/// Calls `str::to_uppercase`. The result is named `unicode_upper(s)`; on an
/// ASCII text it maps `a`-`z` to `A`-`Z` and keeps every other character.
#[verifier::external_body]
fn str_to_uppercase(s: &str) -> (r: String)
    ensures
        r@ == unicode_upper(s@),
        is_ascii_text(s@) ==> r@ == s@.map_values(|c: char| ascii_upper(c)),
{
    s.to_uppercase()
}

/// Calls `str::to_lowercase`. The result is named `unicode_lower(s)`; on an
/// ASCII text it maps `A`-`Z` to `a`-`z` and keeps every other character.
#[verifier::external_body]
fn str_to_lowercase(s: &str) -> (r: String)
    ensures
        r@ == unicode_lower(s@),
        is_ascii_text(s@) ==> r@ == s@.map_values(|c: char| ascii_lower(c)),
{
    s.to_lowercase()
}

/// The text in upper case.
pub fn to_upper(s: &str) -> (r: String)
    ensures
        r@ == unicode_upper(s@),
        is_ascii_text(s@) ==> r@ == s@.map_values(|c: char| ascii_upper(c)),
{
    str_to_uppercase(s)
}

/// The text in lower case.
pub fn to_lower(s: &str) -> (r: String)
    ensures
        r@ == unicode_lower(s@),
        is_ascii_text(s@) ==> r@ == s@.map_values(|c: char| ascii_lower(c)),
{
    str_to_lowercase(s)
}

/// `str::split`: the pieces of `s` between the occurrences of a non-empty
/// `sep`, left to right, `cur` being the piece read so far.
pub open spec fn split_from(s: Seq<char>, sep: Seq<char>, cur: Seq<char>) -> Seq<Seq<char>>
    decreases s.len(),
{
    if s.len() == 0 {
        seq![cur]
    } else if sep.len() > 0 && occurs_at(s, sep, 0) {
        seq![cur] + split_from(s.skip(sep.len() as int), sep, Seq::empty())
    } else {
        split_from(s.drop_first(), sep, cur.push(s[0]))
    }
}

/// `str::split` of `s` by `sep`: with an empty `sep`, an empty piece, then
/// each character, then an empty piece.
pub open spec fn split_text(s: Seq<char>, sep: Seq<char>) -> Seq<Seq<char>> {
    if sep.len() == 0 {
        seq![Seq::<char>::empty()] + s.map_values(|c: char| seq![c]) + seq![Seq::<char>::empty()]
    } else {
        split_from(s, sep, Seq::empty())
    }
}

pub open spec fn texts_view(v: Seq<String>) -> Seq<Seq<char>> {
    v.map_values(|x: String| x@)
}

/// The pieces of `s` between the occurrences of `sep`.
pub fn split(s: &str, sep: &str) -> (r: Vec<String>)
    ensures
        texts_view(r@) == split_text(s@, sep@),
{
    let sv = chars_of(s);
    let pv = chars_of(sep);
    let mut out: Vec<String> = Vec::new();
    if pv.len() == 0 {
        out.push(String::new());
        let mut k: usize = 0;
        while k < sv.len()
            invariant
                k <= sv.len(),
                sv@ == s@,
                texts_view(out@) == seq![Seq::<char>::empty()] + s@.take(k as int).map_values(|c: char| seq![c]),
            decreases sv.len() - k,
        {
            let mut one = String::new();
            push_char(&mut one, sv[k]);
            proof {
                assert(texts_view(out@.push(one)) =~= texts_view(out@).push(one@));
                assert(s@.take(k + 1).map_values(|c: char| seq![c]) =~= s@.take(k as int).map_values(|c: char| seq![c]).push(seq![sv@[k as int]]));
            }
            out.push(one);
            k = k + 1;
            proof {
                assert(texts_view(out@) =~= seq![Seq::<char>::empty()] + s@.take(k as int).map_values(|c: char| seq![c]));
            }
        }
        let e = String::new();
        proof {
            assert(texts_view(out@.push(e)) =~= texts_view(out@).push(e@));
            assert(s@.take(sv.len() as int) =~= s@);
        }
        out.push(e);
        proof {
            assert(texts_view(out@) =~= split_text(s@, sep@));
        }
        return out;
    }
    let mut cur = String::new();
    let mut i: usize = 0;
    assert(s@.skip(0) =~= s@);
    proof {
        assert(texts_view(out@) =~= Seq::<Seq<char>>::empty());
    }
    while i < sv.len()
        invariant
            i <= sv.len(),
            sv@ == s@,
            pv@ == sep@,
            pv@.len() > 0,
            split_from(s@, sep@, Seq::empty()) == texts_view(out@) + split_from(s@.skip(i as int), sep@, cur@),
        decreases sv.len() - i,
    {
        let ghost rest = s@.skip(i as int);
        if occurs_at_exec(&sv, &pv, i) {
            proof {
                assert(rest.subrange(0, sep@.len() as int) =~= s@.subrange(i as int, i + sep@.len()));
                assert(rest.skip(sep@.len() as int) =~= s@.skip(i + pv.len()));
                assert(texts_view(out@.push(cur)) =~= texts_view(out@).push(cur@));
                assert(texts_view(out@) + (seq![cur@] + split_from(s@.skip(i + pv.len()), sep@, Seq::empty()))
                    =~= texts_view(out@.push(cur)) + split_from(s@.skip(i + pv.len()), sep@, Seq::empty()));
            }
            out.push(cur);
            cur = String::new();
            i = i + pv.len();
        } else {
            proof {
                if occurs_at(rest, sep@, 0) {
                    assert(rest.subrange(0, sep@.len() as int) =~= s@.subrange(i as int, i + sep@.len()));
                }
                assert(rest.drop_first() =~= s@.skip(i + 1));
            }
            push_char(&mut cur, sv[i]);
            i = i + 1;
        }
    }
    proof {
        assert(s@.skip(i as int).len() == 0);
        assert(texts_view(out@.push(cur)) =~= texts_view(out@).push(cur@));
        assert(texts_view(out@) + seq![cur@] =~= texts_view(out@.push(cur)));
    }
    out.push(cur);
    out
}

/// `join`: the texts with `sep` between each two.
pub open spec fn join_text(parts: Seq<Seq<char>>, sep: Seq<char>) -> Seq<char>
    decreases parts.len(),
{
    if parts.len() == 0 {
        Seq::empty()
    } else if parts.len() == 1 {
        parts[0]
    } else {
        join_text(parts.drop_last(), sep) + sep + parts.last()
    }
}

/// The texts joined with `sep` between each two.
pub fn join(parts: &Vec<String>, sep: &str) -> (r: String)
    ensures
        r@ == join_text(texts_view(parts@), sep@),
{
    let sepv = chars_of(sep);
    let mut out = String::new();
    let mut i: usize = 0;
    while i < parts.len()
        invariant
            i <= parts.len(),
            sepv@ == sep@,
            out@ == join_text(texts_view(parts@.take(i as int)), sep@),
        decreases parts.len() - i,
    {
        let ghost before = out@;
        if i > 0 {
            push_all(&mut out, &sepv);
        }
        let pv = chars_of(parts[i].as_str());
        push_all(&mut out, &pv);
        proof {
            let tv = texts_view(parts@.take(i + 1));
            assert(tv.drop_last() =~= texts_view(parts@.take(i as int)));
            assert(tv.last() == parts@[i as int]@);
            if i == 0 {
                assert(tv.len() == 1);
            }
        }
        i = i + 1;
    }
    assert(parts@.take(parts.len() as int) =~= parts@);
    out
}

/// `replacen(pat, to, 1)`: the first occurrence of a non-empty `pat`
/// replaced by `to`.
pub open spec fn replace_first(s: Seq<char>, pat: Seq<char>, to: Seq<char>) -> Seq<char>
    decreases s.len(),
{
    if occurs_at(s, pat, 0) {
        to + s.skip(pat.len() as int)
    } else if s.len() == 0 {
        s
    } else {
        seq![s[0]] + replace_first(s.drop_first(), pat, to)
    }
}

/// The text of the placeholder `{}`.
pub open spec fn placeholder() -> Seq<char> {
    seq!['{', '}']
}

/// `format`: each `{}` of the template, in turn, replaced by the next
/// argument; placeholders beyond the arguments stay.
pub open spec fn format_text(template: Seq<char>, args: Seq<Seq<char>>) -> Seq<char>
    decreases args.len(),
{
    if args.len() == 0 {
        template
    } else {
        format_text(replace_first(template, placeholder(), args[0]), args.drop_first())
    }
}

fn replace_first_exec(s: &Vec<char>, pat: &Vec<char>, to: &Vec<char>) -> (r: Vec<char>)
    requires
        pat@.len() > 0,
    ensures
        r@ == replace_first(s@, pat@, to@),
{
    let mut out: Vec<char> = Vec::new();
    let mut i: usize = 0;
    assert(s@.skip(0) =~= s@);
    while i < s.len()
        invariant
            i <= s.len(),
            pat@.len() > 0,
            replace_first(s@, pat@, to@) == out@ + replace_first(s@.skip(i as int), pat@, to@),
            out@ == s@.take(i as int),
        decreases s.len() - i,
    {
        let ghost rest = s@.skip(i as int);
        if occurs_at_exec(s, pat, i) {
            proof {
                assert(rest.subrange(0, pat@.len() as int) =~= s@.subrange(i as int, i + pat@.len()));
            }
            let mut k: usize = 0;
            while k < to.len()
                invariant
                    k <= to.len(),
                    out@ == s@.take(i as int) + to@.take(k as int),
                decreases to.len() - k,
            {
                out.push(to[k]);
                k = k + 1;
                assert(out@ =~= s@.take(i as int) + to@.take(k as int));
            }
            let mut j: usize = i + pat.len();
            while j < s.len()
                invariant
                    i + pat@.len() <= j <= s.len(),
                    out@ == s@.take(i as int) + to@ + s@.subrange(i + pat@.len(), j as int),
                decreases s.len() - j,
            {
                out.push(s[j]);
                j = j + 1;
                assert(out@ =~= s@.take(i as int) + to@ + s@.subrange(i + pat@.len(), j as int));
            }
            proof {
                assert(to@.take(to@.len() as int) =~= to@);
                assert(rest.skip(pat@.len() as int) =~= s@.subrange(i + pat@.len(), s@.len() as int));
                assert(out@ =~= s@.take(i as int) + (to@ + rest.skip(pat@.len() as int)));
            }
            return out;
        }
        proof {
            if occurs_at(rest, pat@, 0) {
                assert(rest.subrange(0, pat@.len() as int) =~= s@.subrange(i as int, i + pat@.len()));
            }
            assert(rest.drop_first() =~= s@.skip(i + 1));
            assert(out@.push(s@[i as int]) + replace_first(s@.skip(i + 1), pat@, to@)
                =~= out@ + (seq![rest[0]] + replace_first(rest.drop_first(), pat@, to@)));
            assert(s@.take(i + 1) =~= s@.take(i as int).push(s@[i as int]));
        }
        out.push(s[i]);
        i = i + 1;
    }
    proof {
        let rest = s@.skip(i as int);
        assert(rest.len() == 0);
        assert(!occurs_at(rest, pat@, 0));
        assert(out@ + rest =~= out@);
    }
    out
}


/// The `format` built-in: each `{}` of the template, from the left, is
/// replaced by the next argument.
pub fn format(template: &str, args: &Vec<String>) -> (r: String)
    ensures
        r@ == format_text(template@, texts_view(args@)),
{
    let pat: Vec<char> = vec!['{', '}'];
    assert(pat@ =~= placeholder());
    let mut cur: Vec<char> = chars_of(template);
    let mut i: usize = 0;
    assert(texts_view(args@).skip(0) =~= texts_view(args@));
    while i < args.len()
        invariant
            i <= args.len(),
            pat@ == placeholder(),
            format_text(template@, texts_view(args@))
                == format_text(cur@, texts_view(args@).skip(i as int)),
        decreases args.len() - i,
    {
        let arg: Vec<char> = chars_of(args[i].as_str());
        proof {
            let rest = texts_view(args@).skip(i as int);
            assert(rest[0] == args@[i as int]@);
            assert(rest.drop_first() =~= texts_view(args@).skip(i + 1));
        }
        cur = replace_first_exec(&cur, &pat, &arg);
        i = i + 1;
    }
    proof {
        assert(texts_view(args@).skip(i as int).len() == 0);
    }
    string_from_chars(&cur)
}

// ── Indexing and ranges ──────────────────────────────────────────────────────

/// The character at position `i` of `s`, counted in characters; `None`
/// where `i` is negative or past the end.
pub fn char_at_index(s: &str, i: i64) -> (r: Option<char>)
    ensures
        (0 <= i < s@.len()) ==> r == Some(s@[i as int]),
        !(0 <= i < s@.len()) ==> r is None,
{
    if i < 0 {
        return None;
    }
    let v: Vec<char> = chars_of(s);
    let n: u64 = v.len() as u64;
    let k: u64 = i as u64;
    if k < n {
        Some(v[k as usize])
    } else {
        None
    }
}

/// The integers of the half-open range `a..b`, in increasing order.
pub fn range_values(a: i64, b: i64) -> (r: Vec<i64>)
    ensures
        a < b ==> r@.len() == b - a,
        a >= b ==> r@.len() == 0,
        forall|k: int| 0 <= k < r@.len() ==> r@[k] == a + k,
{
    let mut out: Vec<i64> = Vec::new();
    let mut cur: i64 = a;
    while cur < b
        invariant
            a <= cur,
            a < b ==> cur <= b,
            a >= b ==> cur == a,
            out@.len() == cur - a,
            forall|k: int| 0 <= k < out@.len() ==> out@[k] == a + k,
        decreases b - cur,
    {
        out.push(cur);
        cur = cur + 1;
    }
    out
}

// ── Ordering of texts ────────────────────────────────────────────────────────

/// Lexicographic order of two texts by code point (which is the byte order
/// of their UTF-8 forms): -1, 0 or 1.
pub open spec fn text_order(a: Seq<char>, b: Seq<char>) -> int
    decreases a.len(),
{
    if a.len() == 0 {
        if b.len() == 0 { 0 } else { -1 }
    } else if b.len() == 0 {
        1
    } else if a[0] < b[0] {
        -1
    } else if b[0] < a[0] {
        1
    } else {
        text_order(a.drop_first(), b.drop_first())
    }
}

/// Compares two texts as `str` ordering does: -1, 0 or 1.
pub fn compare_text(a: &str, b: &str) -> (r: i32)
    ensures
        r == text_order(a@, b@),
{
    let x: Vec<char> = chars_of(a);
    let y: Vec<char> = chars_of(b);
    let mut i: usize = 0;
    assert(x@.skip(0) =~= x@);
    assert(y@.skip(0) =~= y@);
    while i < x.len() && i < y.len()
        invariant
            i <= x.len(),
            i <= y.len(),
            text_order(a@, b@) == text_order(x@.skip(i as int), y@.skip(i as int)),
            x@ == a@,
            y@ == b@,
        decreases x.len() - i,
    {
        let ghost p = x@.skip(i as int);
        let ghost q = y@.skip(i as int);
        assert(p[0] == x@[i as int]);
        assert(q[0] == y@[i as int]);
        assert(p.len() > 0 && q.len() > 0);
        if x[i] < y[i] {
            return -1;
        }
        if y[i] < x[i] {
            return 1;
        }
        assert(p.drop_first() =~= x@.skip(i + 1));
        assert(q.drop_first() =~= y@.skip(i + 1));
        i = i + 1;
    }
    if i < x.len() {
        1
    } else if i < y.len() {
        -1
    } else {
        0
    }
}


// ── Integer operators ────────────────────────────────────────────────────────

/// What a binary operator gives on two integers: an integer or a truth value.
#[derive(Debug, Clone, Copy, PartialEq, Eq, Structural)]
pub enum IntOutcome {
    Int(i64),
    Bool(bool),
}

/// The operators that refuse a zero divisor.
#[derive(Debug, Clone, Copy, PartialEq, Eq, Structural)]
pub enum ArithError {
    DivisionByZero,
    ModuloByZero,
}

pub open spec fn magnitude(x: int) -> int {
    if x < 0 { -x } else { x }
}

/// Integer division rounding toward zero, as Rust's `/` on integers.
pub open spec fn quotient_toward_zero(x: int, d: int) -> int {
    let q = magnitude(x) / magnitude(d);
    if (x < 0) == (d < 0) { q } else { -q }
}

/// The remainder that goes with `quotient_toward_zero`: it takes the sign of
/// the dividend, as Rust's `%` on integers.
pub open spec fn remainder_toward_zero(x: int, d: int) -> int {
    let r = magnitude(x) % magnitude(d);
    if x < 0 { -r } else { r }
}

pub open spec fn in_i64(x: int) -> bool {
    i64::MIN <= x <= i64::MAX
}

/// The inputs on which the operator's Rust arithmetic does not overflow.
pub open spec fn int_binary_fits(op: BinOp, a: int, b: int) -> bool {
    match op {
        BinOp::Add => in_i64(a + b),
        BinOp::Sub => in_i64(a - b),
        BinOp::Mul => in_i64(a * b),
        BinOp::Div | BinOp::Mod => !(a == i64::MIN && b == -1),
        _ => true,
    }
}

/// A binary operator applied to two integer values; `&&` and `||` read a
/// non-zero integer as true.
pub open spec fn int_binary_spec(op: BinOp, a: int, b: int) -> Result<IntOutcome, ArithError> {
    match op {
        BinOp::Add => Ok(IntOutcome::Int((a + b) as i64)),
        BinOp::Sub => Ok(IntOutcome::Int((a - b) as i64)),
        BinOp::Mul => Ok(IntOutcome::Int((a * b) as i64)),
        BinOp::Div => if b == 0 {
            Err(ArithError::DivisionByZero)
        } else {
            Ok(IntOutcome::Int(quotient_toward_zero(a, b) as i64))
        },
        BinOp::Mod => if b == 0 {
            Err(ArithError::ModuloByZero)
        } else {
            Ok(IntOutcome::Int(remainder_toward_zero(a, b) as i64))
        },
        BinOp::Eq => Ok(IntOutcome::Bool(a == b)),
        BinOp::Ne => Ok(IntOutcome::Bool(a != b)),
        BinOp::Lt => Ok(IntOutcome::Bool(a < b)),
        BinOp::Gt => Ok(IntOutcome::Bool(a > b)),
        BinOp::Le => Ok(IntOutcome::Bool(a <= b)),
        BinOp::Ge => Ok(IntOutcome::Bool(a >= b)),
        BinOp::And => Ok(IntOutcome::Bool(a != 0 && b != 0)),
        BinOp::Or => Ok(IntOutcome::Bool(a != 0 || b != 0)),
    }
}

/// The remainder toward zero, written by the signs of its operands as std
/// states `checked_rem`, and within `i64`.
proof fn lemma_remainder_by_signs(x: int, d: int)
    requires
        d != 0,
        i64::MIN <= x <= i64::MAX,
        i64::MIN <= d <= i64::MAX,
    ensures
        remainder_toward_zero(x, d) == (if x == 0 {
            0
        } else if x > 0 && d > 0 {
            x % d
        } else if x < 0 && d < 0 {
            ((x * -1) % (d * -1)) * -1
        } else if x < 0 {
            ((x * -1) % d) * -1
        } else {
            x % (d * -1)
        }),
        in_i64(remainder_toward_zero(x, d)),
{
    let m = magnitude(x);
    let n = magnitude(d);
    assert(m * 1 == m);
    assert(x * -1 == -x);
    assert(d * -1 == -d);
    vstd::arithmetic::div_mod::lemma_mod_bound(m, n);
    if x == 0 {
        vstd::arithmetic::div_mod::lemma_small_mod(0, n as nat);
    }
}

proof fn lemma_quotient_fits(a: i64, b: i64)
    requires
        b != 0,
        !(a == i64::MIN && b == -1),
    ensures
        in_i64(quotient_toward_zero(a as int, b as int)),
{
    let x = magnitude(a as int);
    let d = magnitude(b as int);
    if d == 1 {
        assert(x / 1 == x);
    } else {
        vstd::arithmetic::div_mod::lemma_div_is_ordered_by_denominator(x, 2, d);
        assert(x / 2 <= 0x4000_0000_0000_0000);
        vstd::arithmetic::div_mod::lemma_div_nonincreasing(x, d);
    }
}

/// Evaluates a binary operator on two integer values.
pub fn int_binary(op: BinOp, a: i64, b: i64) -> (r: Result<IntOutcome, ArithError>)
    requires
        int_binary_fits(op, a as int, b as int),
    ensures
        r == int_binary_spec(op, a as int, b as int),
{
    match op {
        BinOp::Add => {
            let v = a + b;
            assert(v == (a + b) as i64);
            Ok(IntOutcome::Int(v))
        },
        BinOp::Sub => {
            let v = a - b;
            assert(v == (a - b) as i64);
            Ok(IntOutcome::Int(v))
        },
        BinOp::Mul => {
            let v = a * b;
            assert(v == (a * b) as i64);
            Ok(IntOutcome::Int(v))
        },
        BinOp::Div => {
            if b == 0 {
                return Err(ArithError::DivisionByZero);
            }
            proof {
                lemma_quotient_fits(a, b);
            }
            match a.checked_div(b) {
                Some(q) => {
                    assert(q == quotient_toward_zero(a as int, b as int));
                    Ok(IntOutcome::Int(q))
                },
                None => Err(ArithError::DivisionByZero),
            }
        },
        BinOp::Mod => {
            if b == 0 {
                return Err(ArithError::ModuloByZero);
            }
            proof {
                lemma_remainder_by_signs(a as int, b as int);
            }
            match a.checked_rem(b) {
                Some(m) => {
                    assert(m == remainder_toward_zero(a as int, b as int));
                    Ok(IntOutcome::Int(m))
                },
                None => Err(ArithError::ModuloByZero),
            }
        },
        BinOp::Eq => Ok(IntOutcome::Bool(a == b)),
        BinOp::Ne => Ok(IntOutcome::Bool(a != b)),
        BinOp::Lt => Ok(IntOutcome::Bool(a < b)),
        BinOp::Gt => Ok(IntOutcome::Bool(a > b)),
        BinOp::Le => Ok(IntOutcome::Bool(a <= b)),
        BinOp::Ge => Ok(IntOutcome::Bool(a >= b)),
        BinOp::And => Ok(IntOutcome::Bool(a != 0 && b != 0)),
        BinOp::Or => Ok(IntOutcome::Bool(a != 0 || b != 0)),
    }
}


// ── Laws ─────────────────────────────────────────────────────────────────────

proof fn lemma_nat_text_digits(n: nat)
    ensures
        nat_text(n).len() > 0,
        all_digits(nat_text(n)),
        radix_value(nat_text(n), 10) == n,
    decreases n,
{
    let d = (n % 10) as int;
    assert(digit_value(digit_char(d)) == d);
    if n >= 10 {
        lemma_nat_text_digits(n / 10);
        let s = nat_text(n / 10);
        let t = s.push(digit_char(d));
        assert(t.drop_last() =~= s);
        assert(t.last() == digit_char(d));
        vstd::arithmetic::div_mod::lemma_fundamental_div_mod(n as int, 10);
        assert(radix_value(t, 10) == radix_value(s, 10) * 10 + d);
        assert(nat_text(n) == t);
        assert forall|i: int| 0 <= i < t.len() implies is_ascii_digit(#[trigger] t[i]) by {
            if i < s.len() {
                assert(t[i] == s[i]);
            }
        }
    } else {
        let t = nat_text(n);
        assert(t.drop_last() =~= Seq::<char>::empty());
        assert(d == n);
        assert(radix_value(t, 10) == radix_value(t.drop_last(), 10) * 10 + digit_value(t.last()));
    }
}

/// Writing an integer as text and reading the text back gives the integer:
/// `int(str(n)) == n` for every `i64`.
pub proof fn law_int_text_round_trip(n: i64)
    ensures
        int_or_zero(int_text(n as int)) == n,
{
    if n < 0 {
        let m = (-n) as nat;
        lemma_nat_text_digits(m);
        let s = int_text(n as int);
        assert(s.drop_first() =~= nat_text(m));
    } else {
        lemma_nat_text_digits(n as nat);
        let s = nat_text(n as nat);
        assert(is_ascii_digit(s[0]));
    }
}

proof fn lemma_split_from_nonempty(s: Seq<char>, sep: Seq<char>, cur: Seq<char>)
    ensures
        split_from(s, sep, cur).len() >= 1,
    decreases s.len(),
{
    if s.len() > 0 {
        if sep.len() > 0 && occurs_at(s, sep, 0) {
            lemma_split_from_nonempty(s.skip(sep.len() as int), sep, Seq::empty());
        } else {
            lemma_split_from_nonempty(s.drop_first(), sep, cur.push(s[0]));
        }
    }
}

proof fn lemma_join_prepend(x: Seq<char>, rest: Seq<Seq<char>>, sep: Seq<char>)
    requires
        rest.len() >= 1,
    ensures
        join_text(seq![x] + rest, sep) == x + sep + join_text(rest, sep),
    decreases rest.len(),
{
    let all = seq![x] + rest;
    assert(all.len() == rest.len() + 1);
    assert(all.last() == rest.last());
    if rest.len() == 1 {
        assert(all.drop_last() =~= seq![x]);
        assert(join_text(seq![x], sep) == x);
        assert(join_text(rest, sep) == rest[0]);
        assert(join_text(all, sep) == join_text(all.drop_last(), sep) + sep + all.last());
    } else {
        lemma_join_prepend(x, rest.drop_last(), sep);
        assert(all.drop_last() =~= seq![x] + rest.drop_last());
        assert(x + sep + join_text(rest, sep) =~= x + sep + join_text(rest.drop_last(), sep) + sep + rest.last());
    }
}

proof fn lemma_join_split_from(s: Seq<char>, sep: Seq<char>, cur: Seq<char>)
    requires
        sep.len() > 0,
    ensures
        join_text(split_from(s, sep, cur), sep) == cur + s,
    decreases s.len(),
{
    if s.len() == 0 {
        assert(cur + s =~= cur);
    } else if occurs_at(s, sep, 0) {
        let rest_s = s.skip(sep.len() as int);
        lemma_join_split_from(rest_s, sep, Seq::empty());
        lemma_split_from_nonempty(rest_s, sep, Seq::empty());
        lemma_join_prepend(cur, split_from(rest_s, sep, Seq::empty()), sep);
        assert(Seq::<char>::empty() + rest_s =~= rest_s);
        assert(s =~= sep + rest_s);
        assert(cur + sep + rest_s =~= cur + s);
    } else {
        lemma_join_split_from(s.drop_first(), sep, cur.push(s[0]));
        assert(cur.push(s[0]) + s.drop_first() =~= cur + s);
    }
}

proof fn lemma_join_singles(s: Seq<char>)
    ensures
        join_text(seq![Seq::<char>::empty()] + s.map_values(|c: char| seq![c]), Seq::empty()) == s,
    decreases s.len(),
{
    let parts = seq![Seq::<char>::empty()] + s.map_values(|c: char| seq![c]);
    if s.len() == 0 {
        assert(parts =~= seq![Seq::<char>::empty()]);
    } else {
        lemma_join_singles(s.drop_last());
        assert(parts.drop_last() =~= seq![Seq::<char>::empty()] + s.drop_last().map_values(|c: char| seq![c]));
        assert(parts.last() == seq![s.last()]);
        assert(s =~= s.drop_last() + Seq::<char>::empty() + seq![s.last()]);
    }
}

/// Joining the pieces of a split with the same separator gives the text
/// back: `join(split(s, sep), sep) == s`.
pub proof fn law_join_undoes_split(s: Seq<char>, sep: Seq<char>)
    ensures
        join_text(split_text(s, sep), sep) == s,
{
    if sep.len() > 0 {
        lemma_join_split_from(s, sep, Seq::empty());
        assert(Seq::<char>::empty() + s =~= s);
    } else {
        let singles = seq![Seq::<char>::empty()] + s.map_values(|c: char| seq![c]);
        let parts = singles + seq![Seq::<char>::empty()];
        assert(sep =~= Seq::<char>::empty());
        lemma_join_singles(s);
        assert(parts.drop_last() =~= singles);
        assert(join_text(singles, sep) + sep + Seq::<char>::empty() =~= join_text(singles, sep));
    }
}

proof fn lemma_trim_start_shape(s: Seq<char>)
    ensures
        trim_start(s).len() == 0 || !whitespace(trim_start(s)[0]),
    decreases s.len(),
{
    if s.len() > 0 && whitespace(s[0]) {
        lemma_trim_start_shape(s.drop_first());
    }
}

proof fn lemma_trim_end_shape(s: Seq<char>)
    ensures
        trim_end(s).len() <= s.len(),
        trim_end(s) == s.take(trim_end(s).len() as int),
        trim_end(s).len() == 0 || !whitespace(trim_end(s).last()),
    decreases s.len(),
{
    if s.len() > 0 && whitespace(s.last()) {
        lemma_trim_end_shape(s.drop_last());
        let t = trim_end(s.drop_last());
        assert(s.drop_last().take(t.len() as int) =~= s.take(t.len() as int));
    } else {
        assert(s.take(s.len() as int) =~= s);
    }
}

/// Trimming is idempotent: `trim(trim(s)) == trim(s)`.
pub proof fn law_trim_idempotent(s: Seq<char>)
    ensures
        trimmed(trimmed(s)) == trimmed(s),
{
    let a = trim_start(s);
    let t = trim_end(a);
    lemma_trim_start_shape(s);
    lemma_trim_end_shape(a);
    if t.len() > 0 {
        assert(t[0] == a[0]);
    }
    assert(trim_start(t) == t);
    assert(trim_end(t) == t);
}

/// The text order is antisymmetric, and it says "equal" exactly for equal
/// texts.
pub proof fn law_text_order_antisymmetric(a: Seq<char>, b: Seq<char>)
    ensures
        text_order(a, b) == -text_order(b, a),
        text_order(a, b) == 0 <==> a == b,
    decreases a.len(),
{
    if a.len() > 0 && b.len() > 0 && a[0] == b[0] {
        law_text_order_antisymmetric(a.drop_first(), b.drop_first());
        if a.drop_first() == b.drop_first() {
            assert(a =~= seq![a[0]] + a.drop_first());
            assert(b =~= seq![b[0]] + b.drop_first());
        }
    }
    if a.len() > 0 && b.len() > 0 && a[0] != b[0] {
        assert(a != b);
    }
    if a.len() == 0 && b.len() == 0 {
        assert(a =~= b);
    }
}

/// Rust's integer division and remainder fit together: the quotient times
/// the divisor, plus the remainder, is the dividend, and the remainder is
/// smaller than the divisor in size and takes the sign of the dividend.
pub proof fn law_division_identity(a: int, b: int)
    requires
        b != 0,
    ensures
        b * quotient_toward_zero(a, b) + remainder_toward_zero(a, b) == a,
        magnitude(remainder_toward_zero(a, b)) < magnitude(b),
        remainder_toward_zero(a, b) == 0 || ((remainder_toward_zero(a, b) < 0) == (a < 0)),
{
    let x = magnitude(a);
    let d = magnitude(b);
    let q = x / d;
    let r = x % d;
    vstd::arithmetic::div_mod::lemma_fundamental_div_mod(x, d);
    assert(0 <= r < d) by {
        vstd::arithmetic::div_mod::lemma_mod_bound(x, d);
    }
    if b < 0 {
        assert(b * q == -(d * q)) by (nonlinear_arith)
            requires
                d == -b;
        assert(b * (-q) == d * q) by (nonlinear_arith)
            requires
                d == -b;
    } else {
        assert(b * (-q) == -(d * q)) by (nonlinear_arith)
            requires
                d == b;
    }
}


} // verus!
