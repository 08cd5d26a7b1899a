//! Character-level string helpers: conversion between `str`/`String` and `Vec<char>`,
//! comparison, substring search, whitespace trimming and decimal/hex rendering.

use vstd::prelude::*;
use vstd::string::*;

verus! {

/// Appends one character to a `String` (std's `String::push`).
#[verifier::external_body]
pub(crate) fn push_char(s: &mut String, c: char)
    ensures
        final(s)@ == old(s)@.push(c),
{
    s.push(c);
}

/// The characters of `s`, in order.
pub fn chars_of(s: &str) -> (res: Vec<char>)
    ensures
        res@ == s@,
{
    let n = s.unicode_len();
    let mut out: Vec<char> = Vec::new();
    let mut i: usize = 0;
    while i < n
        invariant
            n == s@.len(),
            i <= n,
            out@ == s@.subrange(0, i as int),
        decreases n - i,
    {
        out.push(s.get_char(i));
        i = i + 1;
    }
    out
}

/// A `String` holding exactly the characters of `v`.
pub fn string_from_chars(v: &[char]) -> (res: String)
    ensures
        res@ == v@,
{
    let mut out = String::new();
    let mut i: usize = 0;
    while i < v.len()
        invariant
            i <= v@.len(),
            out@ == v@.subrange(0, i as int),
        decreases v.len() - i,
    {
        push_char(&mut out, v[i]);
        i = i + 1;
    }
    out
}

/// A `String` holding the first `len` characters of `v`.
pub fn string_from_prefix(v: &[char], len: usize) -> (res: String)
    requires
        len <= v@.len(),
    ensures
        res@ == v@.subrange(0, len as int),
{
    let mut out = String::new();
    let mut i: usize = 0;
    while i < len
        invariant
            i <= len <= v@.len(),
            out@ == v@.subrange(0, i as int),
        decreases len - i,
    {
        push_char(&mut out, v[i]);
        i = i + 1;
    }
    out
}

/// An owned copy of `s`.
pub fn owned(s: &str) -> (res: String)
    ensures
        res@ == s@,
{
    s.to_owned()
}

/// The concatenation of `parts`, as one `String`.
pub fn concat_strs(parts: &[&str]) -> (res: String)
    ensures
        res@ == concat_views(parts@),
{
    let mut out: Vec<char> = Vec::new();
    let mut i: usize = 0;
    while i < parts.len()
        invariant
            i <= parts@.len(),
            out@ == concat_views(parts@.subrange(0, i as int)),
        decreases parts.len() - i,
    {
        let c = chars_of(parts[i]);
        append_chars(&mut out, c.as_slice());
        assert(parts@.subrange(0, i + 1).drop_last() =~= parts@.subrange(0, i as int));
        i = i + 1;
    }
    assert(parts@.subrange(0, parts@.len() as int) =~= parts@);
    string_from_chars(out.as_slice())
}

/// The texts of `parts` one after another.
pub open spec fn concat_views(parts: Seq<&str>) -> Seq<char>
    decreases parts.len(),
{
    if parts.len() == 0 {
        Seq::empty()
    } else {
        concat_views(parts.drop_last()) + parts.last()@
    }
}

/// Whether two character sequences are equal.
pub fn chars_eq(a: &[char], b: &[char]) -> (res: bool)
    ensures
        res == (a@ == b@),
{
    if a.len() != b.len() {
        return false;
    }
    let mut i: usize = 0;
    while i < a.len()
        invariant
            a@.len() == b@.len(),
            i <= a@.len(),
            a@.subrange(0, i as int) == b@.subrange(0, i as int),
        decreases a.len() - i,
    {
        if a[i] != b[i] {
            assert(a@[i as int] != b@[i as int]);
            return false;
        }
        assert(a@.subrange(0, i + 1) == a@.subrange(0, i as int).push(a@[i as int]));
        assert(b@.subrange(0, i + 1) == b@.subrange(0, i as int).push(b@[i as int]));
        i = i + 1;
    }
    assert(a@ == a@.subrange(0, a@.len() as int));
    assert(b@ == b@.subrange(0, b@.len() as int));
    true
}

/// Whether two strings hold the same characters.
pub fn str_eq(a: &str, b: &str) -> (res: bool)
    ensures
        res == (a@ == b@),
{
    let ac = chars_of(a);
    let bc = chars_of(b);
    chars_eq(ac.as_slice(), bc.as_slice())
}

/// `needle` occurs in `hay` starting at position `i`.
pub open spec fn occurs_at(hay: Seq<char>, needle: Seq<char>, i: int) -> bool {
    0 <= i && i + needle.len() <= hay.len() && hay.subrange(i, i + needle.len()) == needle
}

/// `needle` occurs somewhere in `hay` (std's `str::contains` with a `&str` pattern).
pub open spec fn contains_seq(hay: Seq<char>, needle: Seq<char>) -> bool {
    exists|i: int| occurs_at(hay, needle, i)
}

/// Whether `needle` occurs in `hay` at position `i`.
pub fn occurs_at_exec(hay: &[char], needle: &[char], i: usize) -> (res: bool)
    requires
        i + needle@.len() <= hay@.len(),
    ensures
        res == occurs_at(hay@, needle@, i as int),
{
    let mut j: usize = 0;
    while j < needle.len()
        invariant
            i + needle@.len() <= hay.len(),
            j <= needle@.len(),
            forall|k: int| 0 <= k < j ==> hay@[i + k] == needle@[k],
        decreases needle.len() - j,
    {
        if hay[i + j] != needle[j] {
            assert(hay@.subrange(i as int, i + needle@.len())[j as int] != needle@[j as int]);
            return false;
        }
        j = j + 1;
    }
    assert(hay@.subrange(i as int, i + needle@.len()) =~= needle@);
    true
}

/// Whether `needle` occurs in `hay`.
pub fn contains_chars(hay: &[char], needle: &[char]) -> (res: bool)
    ensures
        res == contains_seq(hay@, needle@),
{
    if needle.len() == 0 {
        assert(occurs_at(hay@, needle@, 0)) by {
            assert(hay@.subrange(0, 0) =~= needle@);
        }
        return true;
    }
    let mut i: usize = 0;
    while i <= hay.len() && needle.len() <= hay.len() - i
        invariant
            needle@.len() >= 1,
            forall|k: int| 0 <= k < i ==> !occurs_at(hay@, needle@, k),
        decreases hay.len() - i,
    {
        if occurs_at_exec(hay, needle, i) {
            return true;
        }
        i = i + 1;
    }
    assert forall|k: int| !occurs_at(hay@, needle@, k) by {
        if 0 <= k && k + needle@.len() <= hay@.len() {
            assert(k < i);
        }
    }
    false
}

/// Whether `needle` occurs in `hay`.
pub fn str_contains(hay: &str, needle: &str) -> (res: bool)
    ensures
        res == contains_seq(hay@, needle@),
{
    let h = chars_of(hay);
    let n = chars_of(needle);
    contains_chars(h.as_slice(), n.as_slice())
}

/// Whether `c` has the Unicode `White_Space` property, the test of std's
/// `char::is_whitespace`: tab to carriage return, space, next line, no-break space, Ogham
/// space mark, the spaces from en quad to hair space, the line and paragraph separators,
/// narrow no-break space, medium mathematical space and ideographic space.
pub open spec fn is_whitespace_char(c: char) -> bool {
    let n = c as u32;
    ||| 0x09 <= n <= 0x0d
    ||| n == 0x20
    ||| n == 0x85
    ||| n == 0xa0
    ||| n == 0x1680
    ||| 0x2000 <= n <= 0x200a
    ||| n == 0x2028
    ||| n == 0x2029
    ||| n == 0x202f
    ||| n == 0x205f
    ||| n == 0x3000
}

/// Whether `c` is whitespace ([`is_whitespace_char`]).
pub(crate) fn char_is_whitespace(c: char) -> (res: bool)
    ensures
        res == is_whitespace_char(c),
{
    let n = c as u32;
    (0x09 <= n && n <= 0x0d) || n == 0x20 || n == 0x85 || n == 0xa0 || n == 0x1680 || (0x2000 <= n && n <= 0x200a)
        || n == 0x2028 || n == 0x2029 || n == 0x202f || n == 0x205f || n == 0x3000
}

/// `s` without its leading whitespace.
pub open spec fn trim_start_seq(s: Seq<char>) -> Seq<char>
    decreases s.len(),
{
    if s.len() > 0 && is_whitespace_char(s[0]) {
        trim_start_seq(s.drop_first())
    } else {
        s
    }
}

/// `s` without its trailing whitespace (std's `str::trim_end`).
pub open spec fn trim_end_seq(s: Seq<char>) -> Seq<char>
    decreases s.len(),
{
    if s.len() > 0 && is_whitespace_char(s.last()) {
        trim_end_seq(s.drop_last())
    } else {
        s
    }
}

/// `s` without leading and trailing whitespace (std's `str::trim`).
pub open spec fn trim_seq(s: Seq<char>) -> Seq<char> {
    trim_end_seq(trim_start_seq(s))
}

pub proof fn lemma_trim_start_skip(s: Seq<char>, i: int)
    requires
        0 <= i <= s.len(),
        forall|k: int| 0 <= k < i ==> is_whitespace_char(s[k]),
    ensures
        trim_start_seq(s) == trim_start_seq(s.subrange(i, s.len() as int)),
    decreases i,
{
    if i > 0 {
        lemma_trim_start_skip(s.drop_first(), i - 1);
        assert(s.drop_first().subrange(i - 1, s.drop_first().len() as int) =~= s.subrange(i, s.len() as int));
    } else {
        assert(s.subrange(0, s.len() as int) =~= s);
    }
}

pub proof fn lemma_trim_end_cut(s: Seq<char>, j: int)
    requires
        0 <= j <= s.len(),
        forall|k: int| j <= k < s.len() ==> is_whitespace_char(s[k]),
    ensures
        trim_end_seq(s) == trim_end_seq(s.subrange(0, j)),
    decreases s.len() - j,
{
    if j < s.len() {
        lemma_trim_end_cut(s.drop_last(), j);
        assert(s.drop_last().subrange(0, j) =~= s.subrange(0, j));
    } else {
        assert(s.subrange(0, j) =~= s);
    }
}

/// The characters of `v` without leading and trailing whitespace.
pub fn trim_chars(v: &[char]) -> (res: Vec<char>)
    ensures
        res@ == trim_seq(v@),
{
    let n = v.len();
    let mut a: usize = 0;
    while a < n && char_is_whitespace(v[a])
        invariant
            n == v@.len(),
            a <= n,
            forall|k: int| 0 <= k < a ==> is_whitespace_char(v@[k]),
        decreases n - a,
    {
        a = a + 1;
    }
    proof {
        lemma_trim_start_skip(v@, a as int);
    }
    let ghost rest = v@.subrange(a as int, n as int);
    assert(trim_start_seq(rest) == rest) by {
        if rest.len() > 0 {
            assert(rest[0] == v@[a as int]);
        }
    }
    let mut b: usize = n;
    while b > a && char_is_whitespace(v[b - 1])
        invariant
            n == v@.len(),
            a <= b <= n,
            rest == v@.subrange(a as int, n as int),
            forall|k: int| b <= k < n ==> is_whitespace_char(v@[k]),
        decreases b - a,
    {
        b = b - 1;
    }
    proof {
        lemma_trim_end_cut(rest, b - a);
        let cut = rest.subrange(0, b - a);
        assert(cut =~= v@.subrange(a as int, b as int));
        if cut.len() > 0 {
            assert(cut.last() == v@[b - 1]);
        }
    }
    let mut out: Vec<char> = Vec::new();
    let mut i: usize = a;
    while i < b
        invariant
            a <= i <= b <= n,
            n == v@.len(),
            out@ == v@.subrange(a as int, i as int),
        decreases b - i,
    {
        out.push(v[i]);
        i = i + 1;
    }
    out
}

/// `s` without leading and trailing whitespace.
pub fn trim_str(s: &str) -> (res: String)
    ensures
        res@ == trim_seq(s@),
{
    let c = chars_of(s);
    let t = trim_chars(c.as_slice());
    string_from_chars(t.as_slice())
}

/// The decimal digit character for `d < 10`.
pub open spec fn digit_char(d: int) -> char {
    ((0x30 + d) as u8) as char
}

/// The decimal rendering of `n` (std's `Display` for unsigned integers).
pub open spec fn decimal(n: nat) -> Seq<char>
    decreases n,
{
    if n < 10 {
        seq![digit_char(n as int)]
    } else {
        decimal(n / 10) + seq![digit_char((n % 10) as int)]
    }
}

/// The decimal rendering of `n`.
pub fn decimal_chars(n: u64) -> (res: Vec<char>)
    ensures
        res@ == decimal(n as nat),
    decreases n,
{
    let d = (n % 10) as u8;
    let c = (0x30 + d) as char;
    if n < 10 {
        let mut v: Vec<char> = Vec::new();
        v.push(c);
        v
    } else {
        let mut v = decimal_chars(n / 10);
        v.push(c);
        v
    }
}

/// Appends `src` to `dst`.
pub fn append_chars(dst: &mut Vec<char>, src: &[char])
    ensures
        final(dst)@ == old(dst)@ + src@,
{
    let mut i: usize = 0;
    while i < src.len()
        invariant
            i <= src@.len(),
            dst@ == old(dst)@ + src@.subrange(0, i as int),
        decreases src.len() - i,
    {
        dst.push(src[i]);
        i = i + 1;
    }
    assert(src@.subrange(0, src@.len() as int) =~= src@);
}

/// The position of the first `c` in `s`, if any.
pub open spec fn first_index_of(s: Seq<char>, c: char) -> Option<int> {
    if exists|i: int| 0 <= i < s.len() && s[i] == c {
        Some(choose|i: int| 0 <= i < s.len() && s[i] == c && forall|j: int| 0 <= j < i ==> s[j] != c)
    } else {
        None
    }
}

/// The position of the first `c` in `v`, if any.
pub fn find_char(v: &[char], c: char) -> (res: Option<usize>)
    ensures
        match res {
            Some(i) => i < v@.len() && v@[i as int] == c && forall|j: int| 0 <= j < i ==> v@[j] != c,
            None => forall|j: int| 0 <= j < v@.len() ==> v@[j] != c,
        },
        res matches Some(i) ==> first_index_of(v@, c) == Some(i as int),
        res is None ==> first_index_of(v@, c) is None,
{
    let mut i: usize = 0;
    while i < v.len()
        invariant
            i <= v@.len(),
            forall|j: int| 0 <= j < i ==> v@[j] != c,
        decreases v.len() - i,
    {
        if v[i] == c {
            proof {
                let k = choose|k: int| 0 <= k < v@.len() && v@[k] == c && forall|j: int| 0 <= j < k ==> v@[j] != c;
                assert(k == i as int) by {
                    if k > i {
                        assert(v@[i as int] == c);
                    }
                }
            }
            return Some(i);
        }
        i = i + 1;
    }
    None
}

/// A copy of the characters `v[start..end]`.
pub fn sub_chars(v: &[char], start: usize, end: usize) -> (res: Vec<char>)
    requires
        start <= end <= v@.len(),
    ensures
        res@ == v@.subrange(start as int, end as int),
{
    let mut out: Vec<char> = Vec::new();
    let mut i: usize = start;
    while i < end
        invariant
            start <= i <= end <= v@.len(),
            out@ == v@.subrange(start as int, i as int),
        decreases end - i,
    {
        out.push(v[i]);
        assert(v@.subrange(start as int, i + 1) =~= v@.subrange(start as int, i as int).push(v@[i as int]));
        i = i + 1;
    }
    out
}

} // verus!
