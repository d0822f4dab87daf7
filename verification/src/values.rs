//! The value grammar: string, boolean and numeric literals, bracketed
//! arrays, and braced configuration objects.
//!
//! `spec_parse_value` is the authoritative definition; [`parse_value`] is
//! proved to compute exactly its model.

use vstd::prelude::*;

use crate::number::{parse_number, spec_parse_number};
use crate::scan::{
    spec_find_char, spec_strip_edges, spec_trim, strip_edges_vec, trim_vec,
};
use crate::split::{lemma_split_top_sum, spec_segments, split_top, sum_lens};
use crate::text::{charvecs_model, lemma_charvecs_model, string_from_chars};
use crate::value::{
    arr_model, lemma_arr_model_push, lemma_obj_model_push, obj_model, TurbulanceValue, Val,
};

verus! {

/// The value denoted by the text `s`. In order: a quoted string, a boolean
/// literal, a numeric literal, a bracketed array, a braced object; any other
/// text denotes itself as a bare string.
pub open spec fn spec_parse_value(s: Seq<char>) -> Val
    decreases s.len(), 1int, 0int,
    via spec_parse_value_dec
{
    let t = spec_trim(s);
    if t.len() >= 2 && ((t[0] == '"' && t.last() == '"') || (t[0] == '\'' && t.last() == '\'')) {
        Val::Str(t.subrange(1, t.len() - 1))
    } else if t == "true"@ {
        Val::Bool(true)
    } else if t == "false"@ {
        Val::Bool(false)
    } else if spec_parse_number(t) is Some {
        Val::Num(spec_parse_number(t)->0)
    } else if t.len() >= 2 && t[0] == '[' && t.last() == ']' {
        Val::Array(spec_parse_items(spec_segments(t.subrange(1, t.len() - 1))))
    } else if t.len() >= 2 && t[0] == '{' && t.last() == '}' {
        Val::Object(spec_parse_config(t.subrange(1, t.len() - 1)))
    } else {
        Val::Str(t)
    }
}

/// The values of a sequence of array item texts; items that are all
/// whitespace are skipped.
pub open spec fn spec_parse_items(items: Seq<Seq<char>>) -> Seq<Val>
    decreases sum_lens(items), 2int, items.len(),
    via spec_parse_items_dec
{
    if items.len() == 0 {
        Seq::empty()
    } else if spec_trim(items[0]).len() == 0 {
        spec_parse_items(items.drop_first())
    } else {
        seq![spec_parse_value(items[0])] + spec_parse_items(items.drop_first())
    }
}

/// The key of a configuration pair: trimmed, with surrounding double and
/// then single quotes stripped.
pub open spec fn spec_config_key(raw: Seq<char>) -> Seq<char> {
    spec_strip_edges(spec_strip_edges(spec_trim(raw), '"'), '\'')
}

/// The pairs of a sequence of configuration pair texts. A segment without a
/// colon contributes nothing; otherwise the text before the first colon is
/// the key and the text after it is parsed as a value.
pub open spec fn spec_parse_pairs(segs: Seq<Seq<char>>) -> Seq<(Seq<char>, Val)>
    decreases sum_lens(segs), 2int, segs.len(),
    via spec_parse_pairs_dec
{
    if segs.len() == 0 {
        Seq::empty()
    } else {
        let t = spec_trim(segs[0]);
        let p = spec_find_char(t, 0, ':');
        if p == t.len() {
            spec_parse_pairs(segs.drop_first())
        } else {
            seq![(spec_config_key(t.subrange(0, p)), spec_parse_value(t.subrange(p + 1, t.len() as int)))]
                + spec_parse_pairs(segs.drop_first())
        }
    }
}

/// The configuration object denoted by `cfg`: its top-level comma segments,
/// read as key–value pairs.
pub open spec fn spec_parse_config(cfg: Seq<char>) -> Seq<(Seq<char>, Val)>
    decreases cfg.len(), 3int, 0int,
    via spec_parse_config_dec
{
    spec_parse_pairs(spec_segments(cfg))
}

#[via_fn]
proof fn spec_parse_value_dec(s: Seq<char>) {
    crate::scan::lemma_trim_len(s);
    let t = spec_trim(s);
    if t.len() >= 2 {
        lemma_split_top_sum(t.subrange(1, t.len() - 1), 0, 0, false, false, Seq::empty());
    }
}

#[via_fn]
proof fn spec_parse_items_dec(items: Seq<Seq<char>>) {
    if items.len() > 0 {
        assert(sum_lens(items) == items[0].len() + sum_lens(items.drop_first()));
    }
}

#[via_fn]
proof fn spec_parse_pairs_dec(segs: Seq<Seq<char>>) {
    if segs.len() > 0 {
        assert(sum_lens(segs) == segs[0].len() + sum_lens(segs.drop_first()));
        crate::scan::lemma_trim_len(segs[0]);
        let t = spec_trim(segs[0]);
        crate::scan::lemma_find_char_range(t, 0, ':');
    }
}

#[via_fn]
proof fn spec_parse_config_dec(cfg: Seq<char>) {
    lemma_split_top_sum(cfg, 0, 0, false, false, Seq::empty());
}

/// Parses `s` as a value.
pub fn parse_value(s: &Vec<char>) -> (r: TurbulanceValue)
    ensures
        r.model() == spec_parse_value(s@),
    decreases s@.len(),
{
    let t = trim_vec(s);
    proof {
        crate::scan::lemma_trim_len(s@);
    }
    let n = t.len();
    if n >= 2 && ((t[0] == '"' && t[n - 1] == '"') || (t[0] == '\'' && t[n - 1] == '\'')) {
        let inner = crate::text::subvec(&t, 1, n - 1);
        return TurbulanceValue::Str(string_from_chars(inner.as_slice()));
    }
    let kw_true = crate::text::chars_vec("true");
    let kw_false = crate::text::chars_vec("false");
    if n == kw_true.len() && crate::scan::match_at(&t, 0, &kw_true) {
        proof {
            assert(t@.subrange(0, t@.len() as int) =~= t@);
        }
        return TurbulanceValue::Bool(true);
    }
    if n == kw_false.len() && crate::scan::match_at(&t, 0, &kw_false) {
        proof {
            assert(t@.subrange(0, t@.len() as int) =~= t@);
        }
        return TurbulanceValue::Bool(false);
    }
    proof {
        assert(t@ != "true"@ && t@ != "false"@) by {
            if t@ == "true"@ {
                assert(t@.subrange(0, t@.len() as int) =~= t@);
            }
            if t@ == "false"@ {
                assert(t@.subrange(0, t@.len() as int) =~= t@);
            }
        }
    }
    match parse_number(&t) {
        Some(v) => {
            return TurbulanceValue::Num(v);
        },
        None => {},
    }
    if n >= 2 && t[0] == '[' && t[n - 1] == ']' {
        let inner = crate::text::subvec(&t, 1, n - 1);
        let segs = split_top(&inner);
        let ghost m = charvecs_model(segs@);
        proof {
            lemma_charvecs_model(segs@);
            assert(m.skip(0) =~= m);
        }
        let mut items: Vec<TurbulanceValue> = Vec::new();
        let mut j: usize = 0;
        while j < segs.len()
            invariant
                j <= segs@.len(),
                m == charvecs_model(segs@),
                m.len() == segs@.len(),
                forall|k: int| 0 <= k < segs@.len() ==> #[trigger] m[k] == segs@[k]@,
                forall|k: int| 0 <= k < segs@.len() ==> #[trigger] segs@[k]@.len() <= inner@.len(),
                inner@.len() + 2 <= s@.len(),
                spec_parse_items(m) == arr_model(items@) + spec_parse_items(m.skip(j as int)),
            decreases segs@.len() - j,
        {
            proof {
                assert(m.skip(j as int)[0] == m[j as int]);
                assert(m.skip(j as int).drop_first() =~= m.skip(j + 1));
            }
            let (a, b) = crate::scan::trim_bounds(&segs[j]);
            if a == b {
                proof {
                    assert(spec_trim(segs@[j as int]@).len() == 0);
                }
            } else {
                let v = parse_value(&segs[j]);
                proof {
                    lemma_arr_model_push(items@, v);
                    assert(arr_model(items@).push(v.model()) + spec_parse_items(m.skip(j + 1))
                        =~= arr_model(items@) + (seq![v.model()] + spec_parse_items(
                        m.skip(j + 1),
                    )));
                }
                items.push(v);
            }
            j = j + 1;
        }
        proof {
            assert(m.skip(segs@.len() as int) =~= Seq::<Seq<char>>::empty());
            assert(arr_model(items@) + Seq::<Val>::empty() =~= arr_model(items@));
        }
        return TurbulanceValue::Array(items);
    }
    if n >= 2 && t[0] == '{' && t[n - 1] == '}' {
        let inner = crate::text::subvec(&t, 1, n - 1);
        let pairs = parse_config_object(&inner);
        return TurbulanceValue::Object(pairs);
    }
    TurbulanceValue::Str(string_from_chars(t.as_slice()))
}

/// Parses the inside of a braced configuration object into key–value pairs.
pub fn parse_config_object(cfg: &Vec<char>) -> (r: Vec<(String, TurbulanceValue)>)
    ensures
        obj_model(r@) == spec_parse_config(cfg@),
    decreases cfg@.len(),
{
    let segs = split_top(cfg);
    let ghost m = charvecs_model(segs@);
    proof {
        lemma_charvecs_model(segs@);
        assert(m.skip(0) =~= m);
    }
    let mut pairs: Vec<(String, TurbulanceValue)> = Vec::new();
    let mut j: usize = 0;
    while j < segs.len()
        invariant
            j <= segs@.len(),
            m == charvecs_model(segs@),
            m.len() == segs@.len(),
            forall|k: int| 0 <= k < segs@.len() ==> #[trigger] m[k] == segs@[k]@,
            forall|k: int| 0 <= k < segs@.len() ==> #[trigger] segs@[k]@.len() <= cfg@.len(),
            spec_parse_pairs(m) == obj_model(pairs@) + spec_parse_pairs(m.skip(j as int)),
        decreases segs@.len() - j,
    {
        proof {
            assert(m.skip(j as int)[0] == m[j as int]);
            assert(m.skip(j as int).drop_first() =~= m.skip(j + 1));
            crate::scan::lemma_trim_len(segs@[j as int]@);
        }
        let t = trim_vec(&segs[j]);
        let p = crate::scan::find_char(&t, 0, ':');
        if p < t.len() {
            let keypart = crate::text::subvec(&t, 0, p);
            let k1 = trim_vec(&keypart);
            let k2 = strip_edges_vec(&k1, '"');
            let k3 = strip_edges_vec(&k2, '\'');
            let key = string_from_chars(k3.as_slice());
            let valpart = crate::text::subvec(&t, p + 1, t.len());
            let v = parse_value(&valpart);
            proof {
                lemma_obj_model_push(pairs@, key, v);
                assert(obj_model(pairs@).push((key@, v.model())) + spec_parse_pairs(
                    m.skip(j + 1),
                ) =~= obj_model(pairs@) + (seq![(key@, v.model())] + spec_parse_pairs(
                    m.skip(j + 1),
                )));
            }
            pairs.push((key, v));
        }
        j = j + 1;
    }
    proof {
        assert(m.skip(segs@.len() as int) =~= Seq::<Seq<char>>::empty());
        assert(obj_model(pairs@) + Seq::<(Seq<char>, Val)>::empty() =~= obj_model(pairs@));
    }
    pairs
}

} // verus!
