//! The line grammar: recognizers for each kind of line, tried in a fixed
//! order by the parser.
//!
//! Every recognizer has a spec function defining exactly which (trimmed)
//! lines it accepts and what it extracts from them.

use vstd::prelude::*;

use crate::scan::{
    is_space, spec_find_char, spec_match_at, spec_rfind_char, spec_skip_ws, spec_word_end,
};

verus! {

/// A comment line: it starts with two slashes.
pub open spec fn spec_is_comment(t: Seq<char>) -> bool {
    t.len() >= 2 && t[0] == '/' && t[1] == '/'
}

/// Tests for a comment line.
pub fn is_comment(t: &Vec<char>) -> (r: bool)
    ensures
        r == spec_is_comment(t@),
{
    t.len() >= 2 && t[0] == '/' && t[1] == '/'
}

/// A proposition header: the keyword, whitespace, a name, then a colon.
/// Yields the name.
pub open spec fn spec_match_proposition(t: Seq<char>) -> Option<Seq<char>> {
    let kw = "proposition"@;
    if spec_match_at(t, 0, kw) && kw.len() < t.len() && is_space(t[kw.len() as int]) {
        let i = spec_skip_ws(t, kw.len() as int);
        let j = spec_word_end(t, i);
        if i < j && j < t.len() && t[j] == ':' {
            Some(t.subrange(i, j))
        } else {
            None
        }
    } else {
        None
    }
}

/// Recognizes a proposition header.
pub fn match_proposition(t: &Vec<char>) -> (r: Option<Vec<char>>)
    ensures
        match r {
            Some(v) => spec_match_proposition(t@) == Some(v@),
            None => spec_match_proposition(t@) is None,
        },
{
    let kw = crate::text::chars_vec("proposition");
    if !crate::scan::match_at(t, 0, &kw) {
        return None;
    }
    if kw.len() >= t.len() || !crate::scan::space(t[kw.len()]) {
        return None;
    }
    let i = crate::scan::skip_ws(t, kw.len());
    let j = crate::scan::word_end(t, i);
    if i < j && j < t.len() && t[j] == ':' {
        Some(crate::text::subvec(t, i, j))
    } else {
        None
    }
}

/// A hypothesis clause: `motion`, whitespace, `Hypothesis("`, at least one
/// non-quote character, then `")`. Yields the hypothesis text.
pub open spec fn spec_match_hypothesis(t: Seq<char>) -> Option<Seq<char>> {
    let kw = "motion"@;
    let open = "Hypothesis(\""@;
    if spec_match_at(t, 0, kw) && kw.len() < t.len() && is_space(t[kw.len() as int]) {
        let i = spec_skip_ws(t, kw.len() as int);
        if spec_match_at(t, i, open) {
            let q = spec_find_char(t, i + open.len(), '"');
            if i + open.len() < q && q + 1 < t.len() && t[q + 1] == ')' {
                Some(t.subrange(i + open.len(), q))
            } else {
                None
            }
        } else {
            None
        }
    } else {
        None
    }
}

/// Recognizes a hypothesis clause.
pub fn match_hypothesis(t: &Vec<char>) -> (r: Option<Vec<char>>)
    ensures
        match r {
            Some(v) => spec_match_hypothesis(t@) == Some(v@),
            None => spec_match_hypothesis(t@) is None,
        },
{
    let kw = crate::text::chars_vec("motion");
    let open = crate::text::chars_vec("Hypothesis(\"");
    if !crate::scan::match_at(t, 0, &kw) {
        return None;
    }
    if kw.len() >= t.len() || !crate::scan::space(t[kw.len()]) {
        return None;
    }
    let i = crate::scan::skip_ws(t, kw.len());
    if !crate::scan::match_at(t, i, &open) {
        return None;
    }
    let q = crate::scan::find_char(t, i + open.len(), '"');
    proof {
        assert(t@.len() == t.len());
    }
    if q < t.len() && i + open.len() < q && q + 1 < t.len() && t[q + 1] == ')' {
        Some(crate::text::subvec(t, i + open.len(), q))
    } else {
        None
    }
}

/// A pipeline-stage assignment: a variable name, `=`, `pipeline_stage(`, a
/// quoted stage name, optionally a comma and a braced configuration, and the
/// closing parenthesis. Yields the variable name, the stage name, and the
/// configuration text if one was given.
pub open spec fn spec_match_pipeline(t: Seq<char>) -> Option<
    (Seq<char>, Seq<char>, Option<Seq<char>>),
> {
    let call = "pipeline_stage("@;
    let e = spec_word_end(t, 0);
    if e == 0 {
        None
    } else {
        let i = spec_skip_ws(t, e);
        if i < t.len() && t[i] == '=' {
            let k = spec_skip_ws(t, i + 1);
            if spec_match_at(t, k, call) {
                let a = spec_skip_ws(t, k + call.len());
                if a < t.len() && t[a] == '"' {
                    let q = spec_find_char(t, a + 1, '"');
                    if a + 1 < q && q < t.len() {
                        let name = t.subrange(0, e);
                        let stage = t.subrange(a + 1, q);
                        let w = spec_skip_ws(t, q + 1);
                        if w < t.len() && t[w] == ')' {
                            Some((name, stage, None))
                        } else if w < t.len() && t[w] == ',' {
                            let x = spec_skip_ws(t, w + 1);
                            if x < t.len() && t[x] == '{' {
                                let cl = spec_find_char(t, x + 1, '}');
                                if cl < t.len() {
                                    let y = spec_skip_ws(t, cl + 1);
                                    if y < t.len() && t[y] == ')' {
                                        Some((name, stage, Some(t.subrange(x + 1, cl))))
                                    } else {
                                        None
                                    }
                                } else {
                                    None
                                }
                            } else {
                                None
                            }
                        } else {
                            None
                        }
                    } else {
                        None
                    }
                } else {
                    None
                }
            } else {
                None
            }
        } else {
            None
        }
    }
}

/// Recognizes a pipeline-stage assignment.
pub fn match_pipeline(t: &Vec<char>) -> (r: Option<(Vec<char>, Vec<char>, Option<Vec<char>>)>)
    ensures
        match r {
            Some(v) => spec_match_pipeline(t@) == Some(
                (
                    v.0@,
                    v.1@,
                    match v.2 {
                        Some(c) => Some(c@),
                        None => None,
                    },
                ),
            ),
            None => spec_match_pipeline(t@) is None,
        },
{
    let call = crate::text::chars_vec("pipeline_stage(");
    let e = crate::scan::word_end(t, 0);
    if e == 0 {
        return None;
    }
    let i = crate::scan::skip_ws(t, e);
    if i >= t.len() || t[i] != '=' {
        return None;
    }
    let k = crate::scan::skip_ws(t, i + 1);
    if !crate::scan::match_at(t, k, &call) {
        return None;
    }
    let a = crate::scan::skip_ws(t, k + call.len());
    if a >= t.len() || t[a] != '"' {
        return None;
    }
    let q = crate::scan::find_char(t, a + 1, '"');
    if !(a + 1 < q && q < t.len()) {
        return None;
    }
    let name = crate::text::subvec(t, 0, e);
    let stage = crate::text::subvec(t, a + 1, q);
    let w = crate::scan::skip_ws(t, q + 1);
    if w < t.len() && t[w] == ')' {
        return Some((name, stage, None));
    }
    if w < t.len() && t[w] == ',' {
        let x = crate::scan::skip_ws(t, w + 1);
        if x >= t.len() || t[x] != '{' {
            return None;
        }
        let cl = crate::scan::find_char(t, x + 1, '}');
        if cl >= t.len() {
            return None;
        }
        let y = crate::scan::skip_ws(t, cl + 1);
        if y < t.len() && t[y] == ')' {
            return Some((name, stage, Some(crate::text::subvec(t, x + 1, cl))));
        }
        return None;
    }
    None
}

/// A function header: `funxn`, whitespace, a name, a parenthesized parameter
/// list without closing parentheses, then a colon. Yields the name and the
/// raw parameter text.
pub open spec fn spec_match_funxn(t: Seq<char>) -> Option<(Seq<char>, Seq<char>)> {
    let kw = "funxn"@;
    if spec_match_at(t, 0, kw) && kw.len() < t.len() && is_space(t[kw.len() as int]) {
        let i = spec_skip_ws(t, kw.len() as int);
        let j = spec_word_end(t, i);
        if i < j && j < t.len() && t[j] == '(' {
            let m = spec_find_char(t, j + 1, ')');
            if m + 1 < t.len() && t[m + 1] == ':' {
                Some((t.subrange(i, j), t.subrange(j + 1, m)))
            } else {
                None
            }
        } else {
            None
        }
    } else {
        None
    }
}

/// Recognizes a function header.
pub fn match_funxn(t: &Vec<char>) -> (r: Option<(Vec<char>, Vec<char>)>)
    ensures
        match r {
            Some(v) => spec_match_funxn(t@) == Some((v.0@, v.1@)),
            None => spec_match_funxn(t@) is None,
        },
{
    let kw = crate::text::chars_vec("funxn");
    if !crate::scan::match_at(t, 0, &kw) {
        return None;
    }
    if kw.len() >= t.len() || !crate::scan::space(t[kw.len()]) {
        return None;
    }
    let i = crate::scan::skip_ws(t, kw.len());
    let j = crate::scan::word_end(t, i);
    if !(i < j && j < t.len() && t[j] == '(') {
        return None;
    }
    let m = crate::scan::find_char(t, j + 1, ')');
    proof {
        assert(t@.len() == t.len());
    }
    if m < t.len() && m + 1 < t.len() && t[m + 1] == ':' {
        Some((crate::text::subvec(t, i, j), crate::text::subvec(t, j + 1, m)))
    } else {
        None
    }
}

/// A conditional header: `given`, `ensure` or `alternatively`, whitespace, a
/// condition of at least one character, then the line's last colon. Yields
/// the keyword and the condition text.
pub open spec fn spec_match_conditional(t: Seq<char>) -> Option<(Seq<char>, Seq<char>)> {
    if spec_cond_kw(t, "given"@) is Some {
        spec_cond_kw(t, "given"@)
    } else if spec_cond_kw(t, "ensure"@) is Some {
        spec_cond_kw(t, "ensure"@)
    } else {
        spec_cond_kw(t, "alternatively"@)
    }
}

/// The conditional recognizer for one keyword.
pub open spec fn spec_cond_kw(t: Seq<char>, kw: Seq<char>) -> Option<(Seq<char>, Seq<char>)> {
    if spec_match_at(t, 0, kw) && kw.len() < t.len() && is_space(t[kw.len() as int]) {
        let i = spec_skip_ws(t, kw.len() as int);
        let r = spec_rfind_char(t, t.len() as int, ':');
        if i < r {
            Some((kw, t.subrange(i, r)))
        } else {
            None
        }
    } else {
        None
    }
}

/// Recognizes a conditional header for one keyword.
fn cond_kw(t: &Vec<char>, kw: &Vec<char>) -> (r: Option<(Vec<char>, Vec<char>)>)
    ensures
        match r {
            Some(v) => spec_cond_kw(t@, kw@) == Some((v.0@, v.1@)) && v.0@ == kw@,
            None => spec_cond_kw(t@, kw@) is None,
        },
{
    if !crate::scan::match_at(t, 0, kw) {
        return None;
    }
    if kw.len() >= t.len() || !crate::scan::space(t[kw.len()]) {
        return None;
    }
    let i = crate::scan::skip_ws(t, kw.len());
    let r1 = crate::scan::rfind_char(t, t.len(), ':');
    if r1 == 0 {
        return None;
    }
    let r = r1 - 1;
    if i < r {
        let kwc = crate::text::subvec(kw, 0, kw.len());
        proof {
            assert(kw@.subrange(0, kw@.len() as int) =~= kw@);
        }
        Some((kwc, crate::text::subvec(t, i, r)))
    } else {
        None
    }
}

/// Recognizes a conditional header.
pub fn match_conditional(t: &Vec<char>) -> (r: Option<(Vec<char>, Vec<char>)>)
    ensures
        match r {
            Some(v) => spec_match_conditional(t@) == Some((v.0@, v.1@)),
            None => spec_match_conditional(t@) is None,
        },
{
    let kw_given = crate::text::chars_vec("given");
    let kw_ensure = crate::text::chars_vec("ensure");
    let kw_alt = crate::text::chars_vec("alternatively");
    match cond_kw(t, &kw_given) {
        Some(v) => {
            return Some(v);
        },
        None => {},
    }
    match cond_kw(t, &kw_ensure) {
        Some(v) => {
            return Some(v);
        },
        None => {},
    }
    cond_kw(t, &kw_alt)
}

/// A data-source reference at position `p`: one of the three source
/// keywords, `("`, at least one non-quote character, then `")`. Yields the
/// source type and the source name.
pub open spec fn spec_ds_at(t: Seq<char>, p: int) -> Option<(Seq<char>, Seq<char>)> {
    if spec_ds_kw_at(t, p, "local"@) is Some {
        spec_ds_kw_at(t, p, "local"@)
    } else if spec_ds_kw_at(t, p, "domain_expert"@) is Some {
        spec_ds_kw_at(t, p, "domain_expert"@)
    } else {
        spec_ds_kw_at(t, p, "external_api"@)
    }
}

/// The data-source recognizer for one keyword at one position.
pub open spec fn spec_ds_kw_at(t: Seq<char>, p: int, kw: Seq<char>) -> Option<
    (Seq<char>, Seq<char>),
> {
    if spec_match_at(t, p, kw) && p + kw.len() + 1 < t.len() && t[p + kw.len()] == '('
        && t[p + kw.len() + 1] == '"' {
        let q = spec_find_char(t, p + kw.len() + 2, '"');
        if p + kw.len() + 2 < q && q + 1 < t.len() && t[q + 1] == ')' {
            Some((kw, t.subrange(p + kw.len() + 2, q)))
        } else {
            None
        }
    } else {
        None
    }
}

/// The first data-source reference at or after position `p`.
pub open spec fn spec_find_ds(t: Seq<char>, p: int) -> Option<(Seq<char>, Seq<char>)>
    decreases t.len() - p,
{
    if p < 0 || p >= t.len() {
        None
    } else if spec_ds_at(t, p) is Some {
        spec_ds_at(t, p)
    } else {
        spec_find_ds(t, p + 1)
    }
}

/// Recognizes a data-source reference for one keyword at one position.
fn ds_kw_at(t: &Vec<char>, p: usize, kw: &Vec<char>) -> (r: Option<(Vec<char>, Vec<char>)>)
    requires
        p <= t@.len(),
    ensures
        match r {
            Some(v) => spec_ds_kw_at(t@, p as int, kw@) == Some((v.0@, v.1@)),
            None => spec_ds_kw_at(t@, p as int, kw@) is None,
        },
{
    if !crate::scan::match_at(t, p, kw) {
        return None;
    }
    proof {
        assert(t@.len() == t.len());
        assert(p + kw@.len() <= t@.len());
    }
    if !(t.len() - (p + kw.len()) > 1 && t[p + kw.len()] == '(' && t[p + kw.len() + 1] == '"') {
        return None;
    }
    let q = crate::scan::find_char(t, p + kw.len() + 2, '"');
    if q < t.len() && p + kw.len() + 2 < q && q + 1 < t.len() && t[q + 1] == ')' {
        let kwc = crate::text::subvec(kw, 0, kw.len());
        proof {
            assert(kw@.subrange(0, kw@.len() as int) =~= kw@);
        }
        Some((kwc, crate::text::subvec(t, p + kw.len() + 2, q)))
    } else {
        None
    }
}

/// Finds the first data-source reference in `t`.
pub fn match_data_source(t: &Vec<char>) -> (r: Option<(Vec<char>, Vec<char>)>)
    ensures
        match r {
            Some(v) => spec_find_ds(t@, 0) == Some((v.0@, v.1@)),
            None => spec_find_ds(t@, 0) is None,
        },
{
    let kw_local = crate::text::chars_vec("local");
    let kw_de = crate::text::chars_vec("domain_expert");
    let kw_ea = crate::text::chars_vec("external_api");
    let mut p: usize = 0;
    while p < t.len()
        invariant
            p <= t@.len(),
            kw_local@ == "local"@,
            kw_de@ == "domain_expert"@,
            kw_ea@ == "external_api"@,
            spec_find_ds(t@, 0) == spec_find_ds(t@, p as int),
        decreases t@.len() - p,
    {
        proof {
            assert(t@.len() == t.len());
        }
        match ds_kw_at(t, p, &kw_local) {
            Some(v) => {
                proof {
                    assert(spec_find_ds(t@, p as int) == spec_ds_at(t@, p as int));
                }
                return Some(v);
            },
            None => {},
        }
        match ds_kw_at(t, p, &kw_de) {
            Some(v) => {
                proof {
                    assert(spec_find_ds(t@, p as int) == spec_ds_at(t@, p as int));
                }
                return Some(v);
            },
            None => {},
        }
        match ds_kw_at(t, p, &kw_ea) {
            Some(v) => {
                proof {
                    assert(spec_find_ds(t@, p as int) == spec_ds_at(t@, p as int));
                }
                return Some(v);
            },
            None => {},
        }
        proof {
            assert(spec_ds_at(t@, p as int) is None);
            assert(spec_find_ds(t@, p as int) == spec_find_ds(t@, p + 1));
        }
        p = p + 1;
    }
    None
}

/// A bare variable assignment: a variable name, `=`, and at least one more
/// character. Yields the name and the value text after the equals sign and
/// any following spaces.
pub open spec fn spec_match_variable(t: Seq<char>) -> Option<(Seq<char>, Seq<char>)> {
    let e = spec_word_end(t, 0);
    if e == 0 {
        None
    } else {
        let i = spec_skip_ws(t, e);
        if i < t.len() && t[i] == '=' && i + 1 < t.len() {
            Some((t.subrange(0, e), t.subrange(spec_skip_ws(t, i + 1), t.len() as int)))
        } else {
            None
        }
    }
}

/// Recognizes a bare variable assignment.
pub fn match_variable(t: &Vec<char>) -> (r: Option<(Vec<char>, Vec<char>)>)
    ensures
        match r {
            Some(v) => spec_match_variable(t@) == Some((v.0@, v.1@)),
            None => spec_match_variable(t@) is None,
        },
{
    let e = crate::scan::word_end(t, 0);
    if e == 0 {
        return None;
    }
    let i = crate::scan::skip_ws(t, e);
    if i < t.len() && t[i] == '=' && i + 1 < t.len() {
        let v = crate::scan::skip_ws(t, i + 1);
        Some((crate::text::subvec(t, 0, e), crate::text::subvec(t, v, t.len())))
    } else {
        None
    }
}

} // verus!
