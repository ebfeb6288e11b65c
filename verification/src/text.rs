//! Character-sequence utilities: conversion between strings and character
//! vectors, decimal formatting, literal substring search and UTF-8 offsets.

use vstd::prelude::*;

verus! {

/// The characters of `s`, in order.
pub fn chars_of(s: &str) -> (v: Vec<char>)
    ensures
        v@ == s@,
{
    let mut v: Vec<char> = Vec::new();
    for c in it: s.chars()
        invariant
            v@ == it.seq().take(it.index() as int),
            it.seq() == s@,
    {
        v.push(c);
    }
    v
}

/// Appends one character to a string.
///
/// Trusted: wraps `String::push`, which the standard library documents as
/// appending the given character to the end of the string.
#[verifier::external_body]
fn push_char(s: &mut String, c: char)
    ensures
        final(s)@ == old(s)@.push(c),
{
    s.push(c);
}

/// The string made of the characters of `v`, in order.
pub fn string_of(v: &Vec<char>) -> (s: String)
    ensures
        s@ == v@,
{
    let mut s = String::new();
    let mut i: usize = 0;
    while i < v.len()
        invariant
            i <= v.len(),
            s@ == v@.take(i as int),
        decreases v.len() - i,
    {
        push_char(&mut s, v[i]);
        i += 1;
    }
    s
}

/// Appends the characters of `s` to `buf`.
pub fn append_str(buf: &mut Vec<char>, s: &str)
    ensures
        final(buf)@ == old(buf)@ + s@,
{
    for c in it: s.chars()
        invariant
            buf@ == old(buf)@ + it.seq().take(it.index() as int),
            it.seq() == s@,
    {
        buf.push(c);
    }
}

/// Appends the elements of `src[from..to]` to `buf`.
pub fn append_range(buf: &mut Vec<char>, src: &Vec<char>, from: usize, to: usize)
    requires
        from <= to <= src.len(),
    ensures
        final(buf)@ == old(buf)@ + src@.subrange(from as int, to as int),
{
    let mut i: usize = from;
    while i < to
        invariant
            from <= i <= to <= src.len(),
            buf@ == old(buf)@ + src@.subrange(from as int, i as int),
        decreases to - i,
    {
        buf.push(src[i]);
        i += 1;
    }
}

/// `n` copies of `c`.
pub open spec fn repeat(c: char, n: nat) -> Seq<char> {
    Seq::new(n, |i: int| c)
}

/// Appends `n` copies of `c` to `buf`.
pub fn append_repeat(buf: &mut Vec<char>, c: char, n: usize)
    ensures
        final(buf)@ == old(buf)@ + repeat(c, n as nat),
{
    let mut i: usize = 0;
    while i < n
        invariant
            i <= n,
            buf@ == old(buf)@ + repeat(c, i as nat),
        decreases n - i,
    {
        buf.push(c);
        i += 1;
    }
}

/// The decimal digit for `d`, which is below ten.
pub open spec fn digit(d: nat) -> char {
    ((48 + d) as u8) as char
}

/// The decimal representation of `n`, without leading zeros.
pub open spec fn decimal(n: nat) -> Seq<char>
    decreases n,
{
    if n < 10 {
        seq![digit(n)]
    } else {
        decimal(n / 10).push(digit(n % 10))
    }
}

/// Appends the decimal representation of `n` to `buf`.
pub fn append_decimal(buf: &mut Vec<char>, n: u128)
    ensures
        final(buf)@ == old(buf)@ + decimal(n as nat),
    decreases n,
{
    if n >= 10 {
        append_decimal(buf, n / 10);
    }
    let d: u8 = (n % 10) as u8;
    buf.push((48u8 + d) as char);
}

/// Whether `needle` occurs in `hay` starting at index `k`.
pub open spec fn occurs_at(hay: Seq<char>, needle: Seq<char>, k: int) -> bool {
    &&& 0 <= k
    &&& k + needle.len() <= hay.len()
    &&& hay.subrange(k, k + needle.len()) == needle
}

/// Whether `k` is the index of the leftmost occurrence of `needle` in `hay`.
pub open spec fn is_leftmost(hay: Seq<char>, needle: Seq<char>, k: int) -> bool {
    occurs_at(hay, needle, k) && forall|j: int| 0 <= j < k ==> !occurs_at(hay, needle, j)
}

/// Whether `found` is the index of the leftmost occurrence of `needle` in
/// `hay`, or `None` when there is no occurrence.
pub open spec fn is_first_occurrence(hay: Seq<char>, needle: Seq<char>, found: Option<usize>) -> bool {
    match found {
        Some(k) => is_leftmost(hay, needle, k as int),
        None => forall|j: int| !occurs_at(hay, needle, j),
    }
}

/// Whether `needle` matches `hay` at index `k`.
fn matches_at(hay: &Vec<char>, needle: &Vec<char>, k: usize) -> (b: bool)
    requires
        k + needle.len() <= hay.len(),
    ensures
        b == occurs_at(hay@, needle@, k as int),
{
    let mut j: usize = 0;
    while j < needle.len()
        invariant
            j <= needle.len(),
            k + needle.len() <= hay.len(),
            forall|t: int| 0 <= t < j ==> hay@[k + t] == needle@[t],
        decreases needle.len() - j,
    {
        if hay[k + j] != needle[j] {
            proof {
                assert(hay@.subrange(k as int, k + needle.len())[j as int] == hay@[k + j]);
            }
            return false;
        }
        j += 1;
    }
    proof {
        assert(hay@.subrange(k as int, k + needle.len()) =~= needle@);
    }
    true
}

/// Finds the leftmost occurrence of `needle` in `hay`.
pub fn find_in(hay: &Vec<char>, needle: &Vec<char>) -> (found: Option<usize>)
    ensures
        is_first_occurrence(hay@, needle@, found),
{
    if needle.len() > hay.len() {
        return None;
    }
    let last: usize = hay.len() - needle.len();
    let mut k: usize = 0;
    loop
        invariant
            last == hay.len() - needle.len(),
            needle.len() <= hay.len(),
            k <= last,
            forall|j: int| 0 <= j < k ==> !occurs_at(hay@, needle@, j),
        decreases last - k,
    {
        if matches_at(hay, needle, k) {
            return Some(k);
        }
        if k == last {
            return None;
        }
        k += 1;
    }
}

/// The index of the leftmost occurrence of `needle` in `hay`, if there is
/// one.
pub open spec fn first_index(hay: Seq<char>, needle: Seq<char>) -> Option<int> {
    if exists|k: int| occurs_at(hay, needle, k) {
        Some(choose|k: int| is_leftmost(hay, needle, k))
    } else {
        None
    }
}

/// What `find_in` reports is the leftmost occurrence.
pub proof fn lemma_first_index(hay: Seq<char>, needle: Seq<char>, found: Option<usize>)
    requires
        is_first_occurrence(hay, needle, found),
    ensures
        match found {
            Some(k) => first_index(hay, needle) == Some(k as int),
            None => first_index(hay, needle) is None,
        },
{
    match found {
        Some(k) => {
            lemma_leftmost_unique(hay, needle, k as int);
        },
        None => {},
    }
}

/// A leftmost occurrence is the one that `first_index` gives.
pub proof fn lemma_leftmost_unique(hay: Seq<char>, needle: Seq<char>, k: int)
    requires
        is_leftmost(hay, needle, k),
    ensures
        first_index(hay, needle) == Some(k),
{
    let least = choose|l: int| is_leftmost(hay, needle, l);
    if least < k {
        assert(!occurs_at(hay, needle, least));
    }
    if k < least {
        assert(!occurs_at(hay, needle, k));
    }
}

/// Where `needle` occurs in `hay`, it has a leftmost occurrence, which lies
/// inside `hay`.
pub proof fn lemma_leftmost_exists(hay: Seq<char>, needle: Seq<char>, k: int)
    requires
        occurs_at(hay, needle, k),
    ensures
        first_index(hay, needle) matches Some(l) && 0 <= l <= k && is_leftmost(hay, needle, l) && l
            + needle.len() <= hay.len(),
    decreases k,
{
    if exists|j: int| 0 <= j < k && occurs_at(hay, needle, j) {
        let j = choose|j: int| 0 <= j < k && occurs_at(hay, needle, j);
        lemma_leftmost_exists(hay, needle, j);
    } else {
        lemma_leftmost_unique(hay, needle, k);
    }
}

/// The number of bytes that `c` takes in UTF-8.
pub open spec fn utf8_width(c: char) -> nat {
    if (c as u32) < 0x80 {
        1
    } else if (c as u32) < 0x800 {
        2
    } else if (c as u32) < 0x10000 {
        3
    } else {
        4
    }
}

/// The number of bytes that `s` takes in UTF-8.
pub open spec fn utf8_len(s: Seq<char>) -> nat
    decreases s.len(),
{
    if s.len() == 0 {
        0
    } else {
        utf8_len(s.drop_last()) + utf8_width(s.last())
    }
}

/// The byte offset at which character `i` of `s` starts in UTF-8.
pub open spec fn byte_start(s: Seq<char>, i: int) -> nat {
    utf8_len(s.take(i))
}

/// The number of bytes that `c` takes in UTF-8.
pub fn char_width(c: char) -> (w: u8)
    ensures
        w == utf8_width(c),
{
    let code: u32 = c as u32;
    if code < 0x80 {
        1
    } else if code < 0x800 {
        2
    } else if code < 0x10000 {
        3
    } else {
        4
    }
}

/// Each character starts after the one before it, by that character's width.
pub proof fn lemma_byte_start_step(s: Seq<char>, i: int)
    requires
        0 <= i < s.len(),
    ensures
        byte_start(s, i + 1) == byte_start(s, i) + utf8_width(s[i]),
        byte_start(s, 0) == 0,
        byte_start(s, i) <= 4 * i,
    decreases i,
{
    assert(s.take(i + 1).drop_last() =~= s.take(i));
    assert(s.take(0) =~= Seq::<char>::empty());
    if i > 0 {
        lemma_byte_start_step(s, i - 1);
    }
}

/// Characters further along start at later byte offsets.
pub proof fn lemma_byte_start_monotonic(s: Seq<char>, i: int, j: int)
    requires
        0 <= i <= j <= s.len(),
    ensures
        byte_start(s, i) <= byte_start(s, j),
    decreases j - i,
{
    if i < j {
        lemma_byte_start_step(s, j - 1);
        lemma_byte_start_monotonic(s, i, j - 1);
    }
}

/// Whether `text` ends with `suffix`.
pub open spec fn is_suffix(suffix: Seq<char>, text: Seq<char>) -> bool {
    suffix.len() <= text.len() && text.subrange(text.len() - suffix.len(), text.len() as int)
        == suffix
}

/// Whether `text` ends with `suffix`.
pub fn ends_with(text: &Vec<char>, suffix: &Vec<char>) -> (b: bool)
    ensures
        b == is_suffix(suffix@, text@),
{
    if suffix.len() > text.len() {
        return false;
    }
    let found = matches_at(text, suffix, text.len() - suffix.len());
    found
}

} // verus!
