//! Character-level helpers: trimming, ASCII case and comparison.

use crate::base::seed::{chars_of, is_white_space, push_char};
use vstd::prelude::*;

verus! {

/// Whether `c` is alphanumeric in the Unicode sense (`Alphabetic` or `Numeric`).
pub uninterp spec fn is_alphanumeric(c: char) -> bool;

/// The Unicode upper case of `s`, which may differ in length from `s`.
pub uninterp spec fn upper_of(s: Seq<char>) -> Seq<char>;

/// Relies on `char::is_alphanumeric`: whether the character is alphabetic or
/// numeric in Unicode's sense.
#[verifier::external_body]
pub(crate) fn char_is_alphanumeric(c: char) -> (r: bool)
    ensures
        r == is_alphanumeric(c),
{
    c.is_alphanumeric()
}

/// Relies on `str::to_uppercase`: the Unicode upper case of the text.
#[verifier::external_body]
pub(crate) fn to_upper(s: &str) -> (r: String)
    ensures
        r@ == upper_of(s@),
{
    s.to_uppercase()
}

/// Each character of `s` paired with whether it is alphanumeric.
pub open spec fn marked(s: Seq<char>) -> Seq<(char, bool)> {
    s.map_values(|c: char| (c, is_alphanumeric(c)))
}

/// The characters marked alphanumeric, in order.
pub open spec fn alnums(m: Seq<(char, bool)>) -> Seq<char>
    decreases m.len(),
{
    if m.len() == 0 {
        Seq::empty()
    } else if m.last().1 {
        alnums(m.drop_last()).push(m.last().0)
    } else {
        alnums(m.drop_last())
    }
}

/// The characters of `s`, each paired with whether it is alphanumeric.
pub fn mark_alphanumerics(s: &str) -> (r: Vec<(char, bool)>)
    ensures
        r@ == marked(s@),
{
    let cs = chars_of(s);
    let mut out: Vec<(char, bool)> = Vec::new();
    let mut i: usize = 0;
    while i < cs.len()
        invariant
            cs@ == s@,
            i <= cs@.len(),
            out@ =~= marked(cs@.take(i as int)),
        decreases cs@.len() - i,
    {
        let c = cs[i];
        out.push((c, char_is_alphanumeric(c)));
        i = i + 1;
    }
    assert(cs@.take(cs@.len() as int) =~= cs@);
    out
}

/// The first `k` elements of `s`, or all of them when there are fewer.
pub open spec fn upto(s: Seq<char>, k: int) -> Seq<char> {
    if s.len() <= k {
        s
    } else {
        s.take(k)
    }
}

/// The string holding the characters `v`.
pub fn string_of_chars(v: &Vec<char>) -> (r: String)
    ensures
        r@ == v@,
{
    let mut out = String::new();
    let mut i: usize = 0;
    while i < v.len()
        invariant
            i <= v@.len(),
            out@ =~= v@.take(i as int),
        decreases v@.len() - i,
    {
        push_char(&mut out, v[i]);
        i = i + 1;
    }
    assert(v@.take(v@.len() as int) =~= v@);
    out
}

/// `s` without its leading whitespace.
pub open spec fn trim_start(s: Seq<char>) -> Seq<char>
    decreases s.len(),
{
    if s.len() > 0 && is_white_space(s[0]) {
        trim_start(s.drop_first())
    } else {
        s
    }
}

/// `s` without its trailing whitespace.
pub open spec fn trim_end(s: Seq<char>) -> Seq<char>
    decreases s.len(),
{
    if s.len() > 0 && is_white_space(s.last()) {
        trim_end(s.drop_last())
    } else {
        s
    }
}

/// `s` without leading and trailing whitespace.
pub open spec fn trimmed(s: Seq<char>) -> Seq<char> {
    trim_end(trim_start(s))
}

/// The ASCII lower case of `c`; other characters are unchanged.
pub open spec fn ascii_lower_char(c: char) -> char {
    if 'A' <= c <= 'Z' {
        ((c as int) + 32) as char
    } else {
        c
    }
}

/// `s` with every ASCII capital letter lower-cased.
pub open spec fn ascii_lower(s: Seq<char>) -> Seq<char> {
    s.map_values(|c: char| ascii_lower_char(c))
}

/// The ASCII upper case of `c`; other characters are unchanged.
pub open spec fn ascii_upper_char(c: char) -> char {
    if 'a' <= c <= 'z' {
        ((c as int) - 32) as char
    } else {
        c
    }
}

/// `s` with every ASCII small letter upper-cased.
pub open spec fn ascii_upper(s: Seq<char>) -> Seq<char> {
    s.map_values(|c: char| ascii_upper_char(c))
}

/// Whitespace around a text that neither starts nor ends with whitespace is
/// exactly what trimming removes.
pub proof fn lemma_trim_padded(u: Seq<char>, pad: Seq<char>)
    requires
        u.len() > 0,
        !is_white_space(u[0]),
        !is_white_space(u.last()),
        forall|i: int| 0 <= i < pad.len() ==> is_white_space(#[trigger] pad[i]),
    ensures
        trimmed(pad + u + pad) == u,
{
    let s = pad + u + pad;
    assert forall|j: int| 0 <= j < pad.len() implies is_white_space(s[j]) by {
        assert(s[j] == pad[j]);
    }
    lemma_trim_start_skip(s, pad.len() as int);
    let rest = s.subrange(pad.len() as int, s.len() as int);
    assert(rest =~= u + pad);
    assert(rest[0] == u[0]);
    assert(trim_start(s) == rest);
    assert forall|j: int| u.len() <= j < rest.len() implies is_white_space(rest[j]) by {
        assert(rest[j] == pad[j - u.len()]);
    }
    lemma_trim_end_skip(rest, u.len() as int);
    assert(rest.subrange(0, u.len() as int) =~= u);
}

fn lower_char(c: char) -> (r: char)
    ensures
        r == ascii_lower_char(c),
{
    if 'A' <= c && c <= 'Z' {
        ((c as u8) + 32) as char
    } else {
        c
    }
}

pub(crate) proof fn lemma_trim_start_skip(s: Seq<char>, i: int)
    requires
        0 <= i <= s.len(),
        forall|j: int| 0 <= j < i ==> is_white_space(s[j]),
    ensures
        trim_start(s) == trim_start(s.subrange(i, s.len() as int)),
    decreases i,
{
    if i > 0 {
        assert(s.drop_first().subrange(i - 1, s.drop_first().len() as int) =~= s.subrange(
            i,
            s.len() as int,
        ));
        lemma_trim_start_skip(s.drop_first(), i - 1);
    } else {
        assert(s.subrange(0, s.len() as int) =~= s);
    }
}

pub(crate) proof fn lemma_trim_end_skip(s: Seq<char>, k: int)
    requires
        0 <= k <= s.len(),
        forall|j: int| k <= j < s.len() ==> is_white_space(s[j]),
    ensures
        trim_end(s) == trim_end(s.subrange(0, k)),
    decreases s.len() - k,
{
    if k < s.len() {
        assert(s.drop_last().subrange(0, k) =~= s.subrange(0, k));
        lemma_trim_end_skip(s.drop_last(), k);
    } else {
        assert(s.subrange(0, k) =~= s);
    }
}

/// The characters of `s` trimmed of surrounding whitespace and ASCII
/// lower-cased.
pub fn trim_lower(s: &str) -> (r: Vec<char>)
    ensures
        r@ == ascii_lower(trimmed(s@)),
{
    let cs = chars_of(s);
    let n = cs.len();
    let mut a: usize = 0;
    while a < n && crate::base::seed::char_is_whitespace(cs[a])
        invariant
            n == cs@.len(),
            a <= n,
            forall|j: int| 0 <= j < a ==> is_white_space(cs@[j]),
        decreases n - a,
    {
        a = a + 1;
    }
    proof {
        lemma_trim_start_skip(cs@, a as int);
    }
    let ghost rest = cs@.subrange(a as int, n as int);
    assert(a == n || !is_white_space(rest[0]));
    assert(trim_start(cs@) == rest);
    let mut b: usize = n;
    while b > a && crate::base::seed::char_is_whitespace(cs[b - 1])
        invariant
            n == cs@.len(),
            a <= b <= n,
            forall|j: int| b <= j < n ==> is_white_space(cs@[j]),
        decreases b,
    {
        b = b - 1;
    }
    proof {
        let k = (b - a) as int;
        assert forall|j: int| k <= j < rest.len() implies is_white_space(rest[j]) by {
            assert(rest[j] == cs@[a + j]);
        }
        lemma_trim_end_skip(rest, k);
        assert(rest.subrange(0, k) =~= cs@.subrange(a as int, b as int));
        let t = cs@.subrange(a as int, b as int);
        if t.len() > 0 {
            assert(t.last() == cs@[b - 1]);
        }
    }
    let ghost t = cs@.subrange(a as int, b as int);
    assert(trimmed(cs@) == t);
    let mut out: Vec<char> = Vec::new();
    let mut i: usize = a;
    while i < b
        invariant
            n == cs@.len(),
            a <= i <= b <= n,
            out@ =~= ascii_lower(cs@.subrange(a as int, i as int)),
        decreases b - i,
    {
        out.push(lower_char(cs[i]));
        i = i + 1;
    }
    out
}

/// Whether the characters `v` are exactly those of `lit`.
pub fn chars_equal(v: &Vec<char>, lit: &str) -> (r: bool)
    ensures
        r == (v@ == lit@),
{
    let l = chars_of(lit);
    if v.len() != l.len() {
        return false;
    }
    let mut i: usize = 0;
    while i < v.len()
        invariant
            v@.len() == l@.len(),
            l@ == lit@,
            i <= v@.len(),
            forall|j: int| 0 <= j < i ==> v@[j] == l@[j],
        decreases v@.len() - i,
    {
        if v[i] != l[i] {
            return false;
        }
        i = i + 1;
    }
    assert(v@ =~= l@);
    true
}

} // verus!
