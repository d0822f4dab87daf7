//! Character-level scanning primitives the line grammar is built from.
//!
//! Each executable function mirrors a spec function of the same shape; the
//! spec functions are the authoritative definition of the lexical rules.

use vstd::prelude::*;

verus! {

/// Whitespace inside a line: space, tab, or carriage return.
pub open spec fn is_space(c: char) -> bool {
    c == ' ' || c == '\t' || c == '\r'
}

/// An ASCII decimal digit.
pub open spec fn is_digit(c: char) -> bool {
    '0' <= c && c <= '9'
}

/// An ASCII letter.
pub open spec fn is_alpha(c: char) -> bool {
    ('a' <= c && c <= 'z') || ('A' <= c && c <= 'Z')
}

/// A word character: letter, digit or underscore.
pub open spec fn is_word_char(c: char) -> bool {
    is_alpha(c) || is_digit(c) || c == '_'
}

/// Executable test for [`is_space`].
pub fn space(c: char) -> (r: bool)
    ensures
        r == is_space(c),
{
    c == ' ' || c == '\t' || c == '\r'
}

/// Executable test for [`is_digit`].
pub fn digit(c: char) -> (r: bool)
    ensures
        r == is_digit(c),
{
    '0' <= c && c <= '9'
}

/// Executable test for [`is_word_char`].
pub fn word_char(c: char) -> (r: bool)
    ensures
        r == is_word_char(c),
{
    ('a' <= c && c <= 'z') || ('A' <= c && c <= 'Z') || ('0' <= c && c <= '9') || c == '_'
}

/// The first index at or after `i` holding a non-space character
/// (the length if there is none).
pub open spec fn spec_skip_ws(s: Seq<char>, i: int) -> int
    decreases s.len() - i,
{
    if i < 0 || i >= s.len() {
        s.len() as int
    } else if is_space(s[i]) {
        spec_skip_ws(s, i + 1)
    } else {
        i
    }
}

/// Skips spaces from `i` on.
pub fn skip_ws(s: &Vec<char>, i: usize) -> (r: usize)
    requires
        i <= s@.len(),
    ensures
        r == spec_skip_ws(s@, i as int),
        i <= r <= s@.len(),
        r < s@.len() ==> !is_space(s@[r as int]),
{
    let mut j = i;
    while j < s.len() && space(s[j])
        invariant
            i <= j <= s@.len(),
            spec_skip_ws(s@, i as int) == spec_skip_ws(s@, j as int),
        decreases s@.len() - j,
    {
        j = j + 1;
    }
    j
}

/// The first index at or after `i` holding a non-word character
/// (the length if there is none): the end of a word run.
pub open spec fn spec_word_end(s: Seq<char>, i: int) -> int
    decreases s.len() - i,
{
    if i < 0 || i >= s.len() {
        s.len() as int
    } else if is_word_char(s[i]) {
        spec_word_end(s, i + 1)
    } else {
        i
    }
}

/// Scans past a run of word characters starting at `i`.
pub fn word_end(s: &Vec<char>, i: usize) -> (r: usize)
    requires
        i <= s@.len(),
    ensures
        r == spec_word_end(s@, i as int),
        i <= r <= s@.len(),
{
    let mut j = i;
    while j < s.len() && word_char(s[j])
        invariant
            i <= j <= s@.len(),
            spec_word_end(s@, i as int) == spec_word_end(s@, j as int),
        decreases s@.len() - j,
    {
        j = j + 1;
    }
    j
}

/// The first index at or after `i` holding `c` (the length if none does).
pub open spec fn spec_find_char(s: Seq<char>, i: int, c: char) -> int
    decreases s.len() - i,
{
    if i < 0 || i >= s.len() {
        s.len() as int
    } else if s[i] == c {
        i
    } else {
        spec_find_char(s, i + 1, c)
    }
}

/// `spec_find_char` stays between `i` and the length.
pub proof fn lemma_find_char_range(s: Seq<char>, i: int, c: char)
    requires
        0 <= i <= s.len(),
    ensures
        i <= spec_find_char(s, i, c) <= s.len(),
    decreases s.len() - i,
{
    if i < s.len() && s[i] != c {
        lemma_find_char_range(s, i + 1, c);
    }
}

/// Finds the first occurrence of `c` at or after `i`.
pub fn find_char(s: &Vec<char>, i: usize, c: char) -> (r: usize)
    requires
        i <= s@.len(),
    ensures
        r == spec_find_char(s@, i as int, c),
        i <= r <= s@.len(),
        r < s@.len() ==> s@[r as int] == c,
{
    let mut j = i;
    while j < s.len() && s[j] != c
        invariant
            i <= j <= s@.len(),
            spec_find_char(s@, i as int, c) == spec_find_char(s@, j as int, c),
        decreases s@.len() - j,
    {
        j = j + 1;
    }
    j
}

/// The last index before `i` holding `c`, or `-1` if there is none.
pub open spec fn spec_rfind_char(s: Seq<char>, i: int, c: char) -> int
    decreases i,
{
    if i <= 0 || i > s.len() {
        -1
    } else if s[i - 1] == c {
        i - 1
    } else {
        spec_rfind_char(s, i - 1, c)
    }
}

/// Finds the last occurrence of `c` strictly before `i`; the result is one
/// past the occurrence, or zero if there is none.
pub fn rfind_char(s: &Vec<char>, i: usize, c: char) -> (r: usize)
    requires
        i <= s@.len(),
    ensures
        r == spec_rfind_char(s@, i as int, c) + 1,
        r <= i,
{
    let mut j = i;
    while j > 0 && s[j - 1] != c
        invariant
            j <= i <= s@.len(),
            spec_rfind_char(s@, i as int, c) == spec_rfind_char(s@, j as int, c),
        decreases j,
    {
        j = j - 1;
    }
    j
}

/// Whether `kw` occurs in `s` starting exactly at `i`.
pub open spec fn spec_match_at(s: Seq<char>, i: int, kw: Seq<char>) -> bool {
    0 <= i && i + kw.len() <= s.len() && s.subrange(i, i + kw.len()) == kw
}

/// Compares `kw` against `s` at position `i`.
pub fn match_at(s: &Vec<char>, i: usize, kw: &Vec<char>) -> (r: bool)
    requires
        i <= s@.len(),
    ensures
        r == spec_match_at(s@, i as int, kw@),
{
    if s.len() - i < kw.len() {
        proof {
            assert(!spec_match_at(s@, i as int, kw@));
        }
        return false;
    }
    let mut j: usize = 0;
    while j < kw.len()
        invariant
            0 <= j <= kw@.len(),
            i + kw@.len() <= s@.len(),
            forall|k: int| 0 <= k < j ==> s@[i + k] == kw@[k],
        decreases kw@.len() - j,
    {
        proof {
            assert(s@.len() == s.len());
            assert(i + j < s@.len());
        }
        if s[i + j] != kw[j] {
            proof {
                assert(s@.subrange(i as int, i + kw@.len())[j as int] == s@[i + j]);
            }
            return false;
        }
        j = j + 1;
    }
    proof {
        assert(s@.subrange(i as int, i + kw@.len()) =~= kw@);
    }
    true
}

/// One past the last non-space character of `s` at or before `i`
/// (zero if all are spaces).
pub open spec fn spec_trim_end(s: Seq<char>, i: int) -> int
    decreases i,
{
    if i <= 0 || i > s.len() {
        0
    } else if is_space(s[i - 1]) {
        spec_trim_end(s, i - 1)
    } else {
        i
    }
}

/// The trimmed portion of `s`: without leading and trailing spaces.
pub open spec fn spec_trim(s: Seq<char>) -> Seq<char> {
    let a = spec_skip_ws(s, 0);
    let b = spec_trim_end(s, s.len() as int);
    if a >= b {
        Seq::empty()
    } else {
        s.subrange(a, b)
    }
}

/// The bounds of the trimmed portion of `s`: start and end such that
/// `s.subrange(start, end)` is `spec_trim(s@)` (equal bounds for all-space
/// input).
pub fn trim_bounds(s: &Vec<char>) -> (r: (usize, usize))
    ensures
        r.0 <= r.1 <= s@.len(),
        s@.subrange(r.0 as int, r.1 as int) == spec_trim(s@),
{
    let a = skip_ws(s, 0);
    let mut b: usize = s.len();
    while b > 0 && space(s[b - 1])
        invariant
            b <= s@.len(),
            spec_trim_end(s@, s@.len() as int) == spec_trim_end(s@, b as int),
        decreases b,
    {
        b = b - 1;
    }
    if a >= b {
        proof {
            assert(s@.subrange(a as int, a as int) =~= Seq::<char>::empty());
        }
        (a, a)
    } else {
        (a, b)
    }
}

/// The trimmed copy of `s`.
pub fn trim_vec(s: &Vec<char>) -> (v: Vec<char>)
    ensures
        v@ == spec_trim(s@),
{
    let (a, b) = trim_bounds(s);
    crate::text::subvec(s, a, b)
}

/// `spec_skip_ws` stays between `i` and the length.
pub proof fn lemma_skip_ws_range(s: Seq<char>, i: int)
    requires
        0 <= i <= s.len(),
    ensures
        i <= spec_skip_ws(s, i) <= s.len(),
    decreases s.len() - i,
{
    if i < s.len() && is_space(s[i]) {
        lemma_skip_ws_range(s, i + 1);
    }
}

/// `spec_trim_end` stays between zero and `i`.
pub proof fn lemma_trim_end_range(s: Seq<char>, i: int)
    requires
        0 <= i <= s.len(),
    ensures
        0 <= spec_trim_end(s, i) <= i,
    decreases i,
{
    if 0 < i && is_space(s[i - 1]) {
        lemma_trim_end_range(s, i - 1);
    }
}

/// Trimming never lengthens a sequence.
pub proof fn lemma_trim_len(s: Seq<char>)
    ensures
        spec_trim(s).len() <= s.len(),
{
    lemma_skip_ws_range(s, 0);
    lemma_trim_end_range(s, s.len() as int);
}

/// The first index at or after `i` whose character differs from `c`.
pub open spec fn spec_skip_char(s: Seq<char>, i: int, c: char) -> int
    decreases s.len() - i,
{
    if i < 0 || i >= s.len() {
        s.len() as int
    } else if s[i] == c {
        spec_skip_char(s, i + 1, c)
    } else {
        i
    }
}

/// One past the last character at or before `i` that differs from `c`.
pub open spec fn spec_strip_end_char(s: Seq<char>, i: int, c: char) -> int
    decreases i,
{
    if i <= 0 || i > s.len() {
        0
    } else if s[i - 1] == c {
        spec_strip_end_char(s, i - 1, c)
    } else {
        i
    }
}

/// `s` with every leading and trailing occurrence of `c` removed.
pub open spec fn spec_strip_edges(s: Seq<char>, c: char) -> Seq<char> {
    let a = spec_skip_char(s, 0, c);
    let b = spec_strip_end_char(s, s.len() as int, c);
    if a >= b {
        Seq::empty()
    } else {
        s.subrange(a, b)
    }
}

/// Removes every leading and trailing occurrence of `c`.
pub fn strip_edges_vec(s: &Vec<char>, c: char) -> (v: Vec<char>)
    ensures
        v@ == spec_strip_edges(s@, c),
{
    let mut a: usize = 0;
    while a < s.len() && s[a] == c
        invariant
            a <= s@.len(),
            spec_skip_char(s@, 0, c) == spec_skip_char(s@, a as int, c),
        decreases s@.len() - a,
    {
        a = a + 1;
    }
    let mut b: usize = s.len();
    while b > 0 && s[b - 1] == c
        invariant
            b <= s@.len(),
            spec_strip_end_char(s@, s@.len() as int, c) == spec_strip_end_char(s@, b as int, c),
        decreases b,
    {
        b = b - 1;
    }
    if a >= b {
        proof {
            assert(Seq::<char>::empty() =~= spec_strip_edges(s@, c));
        }
        Vec::new()
    } else {
        crate::text::subvec(s, a, b)
    }
}

} // verus!
