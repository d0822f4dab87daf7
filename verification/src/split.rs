//! Splitting the script into lines, and splitting bracketed text at
//! top-level commas.
//!
//! The comma splitter makes one pass tracking quote state, an escape flag and
//! bracket depth; a comma separates segments only outside quotes at depth
//! zero. Its spec function is the authoritative definition.

use vstd::prelude::*;

use crate::scan::spec_find_char;
use crate::text::{charvecs_model, lemma_charvecs_model, lemma_charvecs_model_push, subvec};

verus! {

/// `l` without a trailing carriage return.
pub open spec fn spec_strip_cr(l: Seq<char>) -> Seq<char> {
    if l.len() > 0 && l.last() == '\r' {
        l.drop_last()
    } else {
        l
    }
}

/// The lines of `s` from `start` on: pieces separated by newline characters,
/// each without a trailing carriage return; no final empty piece after a
/// trailing newline.
pub open spec fn spec_lines_from(s: Seq<char>, start: int) -> Seq<Seq<char>>
    decreases s.len() - start,
    via spec_lines_from_dec
{
    if start < 0 || start >= s.len() {
        Seq::empty()
    } else {
        let j = spec_find_char(s, start, '\n');
        if j == s.len() {
            seq![spec_strip_cr(s.subrange(start, j))]
        } else {
            seq![spec_strip_cr(s.subrange(start, j))] + spec_lines_from(s, j + 1)
        }
    }
}

#[via_fn]
proof fn spec_lines_from_dec(s: Seq<char>, start: int) {
    if 0 <= start < s.len() {
        crate::scan::lemma_find_char_range(s, start, '\n');
    }
}

/// The lines of `s`.
pub open spec fn spec_split_lines(s: Seq<char>) -> Seq<Seq<char>> {
    spec_lines_from(s, 0)
}

/// Removes a trailing carriage return in place.
fn strip_cr(l: &mut Vec<char>)
    ensures
        final(l)@ == spec_strip_cr(old(l)@),
{
    if l.len() > 0 {
        let last = l.len() - 1;
        if l[last] == '\r' {
            l.pop();
            proof {
                assert(final(l)@ =~= old(l)@.drop_last());
            }
        }
    }
}

/// Splits `s` into lines.
pub fn split_lines(s: &Vec<char>) -> (r: Vec<Vec<char>>)
    ensures
        charvecs_model(r@) == spec_split_lines(s@),
{
    let mut lines: Vec<Vec<char>> = Vec::new();
    let mut start: usize = 0;
    proof {
        assert(charvecs_model(lines@) + spec_lines_from(s@, 0) =~~= spec_split_lines(s@));
    }
    while start < s.len()
        invariant
            start <= s@.len(),
            charvecs_model(lines@) + spec_lines_from(s@, start as int) == spec_split_lines(s@),
        decreases s@.len() - start,
    {
        let j = crate::scan::find_char(s, start, '\n');
        let mut line = subvec(s, start, j);
        strip_cr(&mut line);
        proof {
            lemma_charvecs_model_push(lines@, line);
        }
        if j == s.len() {
            lines.push(line);
            proof {
                assert(charvecs_model(lines@) + spec_lines_from(s@, s@.len() as int)
                    =~~= charvecs_model(lines@));
                assert(charvecs_model(lines@) =~~= spec_split_lines(s@));
            }
            start = s.len();
        } else {
            lines.push(line);
            proof {
                assert(charvecs_model(lines@) + spec_lines_from(s@, j + 1) =~~= spec_split_lines(
                    s@,
                ));
            }
            start = j + 1;
        }
    }
    proof {
        assert(charvecs_model(lines@) + spec_lines_from(s@, start as int) =~~= charvecs_model(
            lines@,
        ));
    }
    lines
}

/// The segments of `s` from `i` on, given the splitter state: accumulated
/// current segment `cur`, bracket `depth`, quote flag `inq`, escape flag
/// `esc`. A comma is a separator only outside quotes at depth zero; every
/// other character, including separators inside quotes or brackets, joins the
/// current segment. There is always at least one segment.
pub open spec fn spec_split_top(
    s: Seq<char>,
    i: int,
    depth: int,
    inq: bool,
    esc: bool,
    cur: Seq<char>,
) -> Seq<Seq<char>>
    decreases s.len() - i,
{
    if i < 0 || i >= s.len() {
        seq![cur]
    } else {
        let c = s[i];
        if esc {
            spec_split_top(s, i + 1, depth, inq, false, cur.push(c))
        } else if c == '\\' {
            spec_split_top(s, i + 1, depth, inq, true, cur.push(c))
        } else if c == '"' {
            spec_split_top(s, i + 1, depth, !inq, false, cur.push(c))
        } else if !inq && (c == '{' || c == '[') {
            spec_split_top(s, i + 1, depth + 1, inq, false, cur.push(c))
        } else if !inq && (c == '}' || c == ']') {
            spec_split_top(s, i + 1, depth - 1, inq, false, cur.push(c))
        } else if !inq && depth == 0 && c == ',' {
            seq![cur] + spec_split_top(s, i + 1, depth, inq, false, Seq::empty())
        } else {
            spec_split_top(s, i + 1, depth, inq, false, cur.push(c))
        }
    }
}

/// The top-level comma segments of `s`.
pub open spec fn spec_segments(s: Seq<char>) -> Seq<Seq<char>> {
    spec_split_top(s, 0, 0, false, false, Seq::empty())
}

/// The total character count of a sequence of segments.
pub open spec fn sum_lens(xs: Seq<Seq<char>>) -> nat
    decreases xs,
{
    if xs.len() == 0 {
        0
    } else {
        xs[0].len() + sum_lens(xs.drop_first())
    }
}

/// Prepending one segment adds its length to the total.
pub proof fn lemma_sum_lens_cons(x: Seq<char>, xs: Seq<Seq<char>>)
    ensures
        sum_lens(seq![x] + xs) == x.len() + sum_lens(xs),
{
    assert((seq![x] + xs).drop_first() =~= xs);
    assert((seq![x] + xs)[0] == x);
}

/// Each segment is no longer than the total.
pub proof fn lemma_sum_lens_each(xs: Seq<Seq<char>>, k: int)
    requires
        0 <= k < xs.len(),
    ensures
        xs[k].len() <= sum_lens(xs),
    decreases xs,
{
    if k > 0 {
        lemma_sum_lens_each(xs.drop_first(), k - 1);
    }
}

/// The segments of the rest of the input carry at most the characters of the
/// current segment plus the characters not yet read.
pub proof fn lemma_split_top_sum(
    s: Seq<char>,
    i: int,
    depth: int,
    inq: bool,
    esc: bool,
    cur: Seq<char>,
)
    requires
        0 <= i <= s.len(),
    ensures
        sum_lens(spec_split_top(s, i, depth, inq, esc, cur)) <= cur.len() + s.len() - i,
        spec_split_top(s, i, depth, inq, esc, cur).len() >= 1,
    decreases s.len() - i,
{
    if i >= s.len() {
        assert(sum_lens(seq![cur]) == cur.len() + sum_lens(Seq::<Seq<char>>::empty())) by {
            assert(seq![cur].drop_first() =~= Seq::<Seq<char>>::empty());
        }
    } else {
        let c = s[i];
        if esc {
            lemma_split_top_sum(s, i + 1, depth, inq, false, cur.push(c));
        } else if c == '\\' {
            lemma_split_top_sum(s, i + 1, depth, inq, true, cur.push(c));
        } else if c == '"' {
            lemma_split_top_sum(s, i + 1, depth, !inq, false, cur.push(c));
        } else if !inq && (c == '{' || c == '[') {
            lemma_split_top_sum(s, i + 1, depth + 1, inq, false, cur.push(c));
        } else if !inq && (c == '}' || c == ']') {
            lemma_split_top_sum(s, i + 1, depth - 1, inq, false, cur.push(c));
        } else if !inq && depth == 0 && c == ',' {
            lemma_split_top_sum(s, i + 1, depth, inq, false, Seq::empty());
            lemma_sum_lens_cons(cur, spec_split_top(s, i + 1, depth, inq, false, Seq::empty()));
        } else {
            lemma_split_top_sum(s, i + 1, depth, inq, false, cur.push(c));
        }
    }
}

/// Every top-level segment of `s` is at most as long as `s`.
pub proof fn lemma_segments_bound(s: Seq<char>, k: int)
    requires
        0 <= k < spec_segments(s).len(),
    ensures
        spec_segments(s)[k].len() <= s.len(),
{
    lemma_split_top_sum(s, 0, 0, false, false, Seq::empty());
    lemma_sum_lens_each(spec_segments(s), k);
}

/// Splits `s` at top-level commas.
pub fn split_top(s: &Vec<char>) -> (r: Vec<Vec<char>>)
    ensures
        charvecs_model(r@) == spec_segments(s@),
        r@.len() >= 1,
        forall|k: int| 0 <= k < r@.len() ==> #[trigger] r@[k]@.len() <= s@.len(),
{
    let mut segs: Vec<Vec<char>> = Vec::new();
    let mut cur: Vec<char> = Vec::new();
    let mut depth: i128 = 0;
    let mut inq = false;
    let mut esc = false;
    let mut i: usize = 0;
    while i < s.len()
        invariant
            i <= s@.len(),
            -(i as int) <= depth <= i as int,
            charvecs_model(segs@) + spec_split_top(s@, i as int, depth as int, inq, esc, cur@)
                == spec_segments(s@),
        decreases s@.len() - i,
    {
        proof {
            assert(s@.len() == s.len());
        }
        let c = s[i];
        if esc {
            cur.push(c);
            esc = false;
        } else if c == '\\' {
            cur.push(c);
            esc = true;
        } else if c == '"' {
            cur.push(c);
            inq = !inq;
        } else if !inq && (c == '{' || c == '[') {
            cur.push(c);
            depth = depth + 1;
        } else if !inq && (c == '}' || c == ']') {
            cur.push(c);
            depth = depth - 1;
        } else if !inq && depth == 0 && c == ',' {
            proof {
                lemma_charvecs_model_push(segs@, cur);
            }
            let finished = cur;
            cur = Vec::new();
            segs.push(finished);
            proof {
                assert(charvecs_model(segs@) + spec_split_top(
                    s@,
                    i + 1,
                    depth as int,
                    inq,
                    false,
                    cur@,
                ) =~~= spec_segments(s@));
            }
        } else {
            cur.push(c);
        }
        i = i + 1;
    }
    proof {
        lemma_charvecs_model_push(segs@, cur);
        assert(charvecs_model(segs@.push(cur)) =~~= spec_segments(s@));
    }
    segs.push(cur);
    proof {
        lemma_charvecs_model(segs@);
        assert forall|k: int| 0 <= k < segs@.len() implies #[trigger] segs@[k]@.len()
            <= s@.len() by {
            lemma_segments_bound(s@, k);
        }
    }
    segs
}

} // verus!
