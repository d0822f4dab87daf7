//! Script values: the tagged union produced by the value grammar.
//!
//! Numbers are stored in milli (thousandths) representation as `i64`, so the
//! literal `2.5` parses to `2500`. Objects are association lists; a later
//! binding of a key shadows an earlier one.

use vstd::prelude::*;

verus! {

broadcast use vstd::std_specs::vec::axiom_vec_index_decreases;

/// A value occurring in a script: a string, a number (milli units), a
/// boolean, an array, an object, or a pipeline call.
#[derive(Debug)]
pub enum TurbulanceValue {
    Str(String),
    Num(i64),
    Bool(bool),
    Array(Vec<TurbulanceValue>),
    Object(Vec<(String, TurbulanceValue)>),
    PipelineCall { stage: String, config: Vec<(String, TurbulanceValue)> },
}

/// The mathematical model of a [`TurbulanceValue`]: the same tree over
/// sequences and unbounded integers.
pub enum Val {
    Str(Seq<char>),
    Num(int),
    Bool(bool),
    Array(Seq<Val>),
    Object(Seq<(Seq<char>, Val)>),
    PipelineCall { stage: Seq<char>, config: Seq<(Seq<char>, Val)> },
}

impl TurbulanceValue {
    /// The model of this value.
    pub open spec fn model(self) -> Val
        decreases self,
    {
        match self {
            TurbulanceValue::Str(s) => Val::Str(s@),
            TurbulanceValue::Num(n) => Val::Num(n as int),
            TurbulanceValue::Bool(b) => Val::Bool(b),
            TurbulanceValue::Array(items) => Val::Array(arr_model(items@)),
            TurbulanceValue::Object(pairs) => Val::Object(obj_model(pairs@)),
            TurbulanceValue::PipelineCall { stage, config } => Val::PipelineCall {
                stage: stage@,
                config: obj_model(config@),
            },
        }
    }
}

/// The models of a sequence of values.
pub open spec fn arr_model(items: Seq<TurbulanceValue>) -> Seq<Val>
    decreases items,
{
    if items.len() == 0 {
        Seq::empty()
    } else {
        seq![items[0].model()] + arr_model(items.drop_first())
    }
}

/// The models of an association list of values.
pub open spec fn obj_model(pairs: Seq<(String, TurbulanceValue)>) -> Seq<(Seq<char>, Val)>
    decreases pairs,
{
    if pairs.len() == 0 {
        Seq::empty()
    } else {
        seq![(pairs[0].0@, pairs[0].1.model())] + obj_model(pairs.drop_first())
    }
}

/// `arr_model` maps the sequence elementwise.
pub proof fn lemma_arr_model(items: Seq<TurbulanceValue>)
    ensures
        arr_model(items).len() == items.len(),
        forall|i: int|
            0 <= i < items.len() ==> #[trigger] arr_model(items)[i] == items[i].model(),
    decreases items,
{
    if items.len() > 0 {
        lemma_arr_model(items.drop_first());
    }
}

/// `obj_model` maps the association list elementwise.
pub proof fn lemma_obj_model(pairs: Seq<(String, TurbulanceValue)>)
    ensures
        obj_model(pairs).len() == pairs.len(),
        forall|i: int|
            0 <= i < pairs.len() ==> #[trigger] obj_model(pairs)[i] == (
                pairs[i].0@,
                pairs[i].1.model(),
            ),
    decreases pairs,
{
    if pairs.len() > 0 {
        lemma_obj_model(pairs.drop_first());
    }
}

/// Appending one value extends the array model by its model.
pub proof fn lemma_arr_model_push(items: Seq<TurbulanceValue>, v: TurbulanceValue)
    ensures
        arr_model(items.push(v)) == arr_model(items).push(v.model()),
{
    lemma_arr_model(items.push(v));
    lemma_arr_model(items);
    assert(arr_model(items.push(v)) =~~= arr_model(items).push(v.model()));
}

/// Appending one pair extends the object model by its model.
pub proof fn lemma_obj_model_push(
    pairs: Seq<(String, TurbulanceValue)>,
    k: String,
    v: TurbulanceValue,
)
    ensures
        obj_model(pairs.push((k, v))) == obj_model(pairs).push((k@, v.model())),
{
    lemma_obj_model(pairs.push((k, v)));
    lemma_obj_model(pairs);
    assert(obj_model(pairs.push((k, v))) =~~= obj_model(pairs).push((k@, v.model())));
}

/// Copies a value; the copy has the same model.
pub fn dup_value(v: &TurbulanceValue) -> (r: TurbulanceValue)
    ensures
        r.model() == v.model(),
    decreases *v,
{
    match v {
        TurbulanceValue::Str(s) => TurbulanceValue::Str(s.clone()),
        TurbulanceValue::Num(n) => TurbulanceValue::Num(*n),
        TurbulanceValue::Bool(b) => TurbulanceValue::Bool(*b),
        TurbulanceValue::Array(items) => {
            let mut out: Vec<TurbulanceValue> = Vec::new();
            let mut i: usize = 0;
            proof {
                lemma_arr_model(items@);
                assert(arr_model(out@) =~= Seq::<Val>::empty());
                assert(arr_model(items@).take(0) =~= Seq::<Val>::empty());
            }
            while i < items.len()
                invariant
                    *v is Array,
                    (*v)->Array_0 == *items,
                    i <= items@.len(),
                    arr_model(items@).len() == items@.len(),
                    forall|k: int|
                        0 <= k < items@.len() ==> #[trigger] arr_model(items@)[k]
                            == items@[k].model(),
                    arr_model(out@) == arr_model(items@).take(i as int),
                decreases items@.len() - i,
            {
                proof {
                    assert(decreases_to!(*v => (*v)->Array_0));
                    assert(decreases_to!(*items => items@));
                    assert(decreases_to!(items@ => items@[i as int]));
                }
                let c = dup_value(&items[i]);
                proof {
                    lemma_arr_model_push(out@, c);
                    assert(arr_model(items@).take(i + 1) =~= arr_model(items@).take(
                        i as int,
                    ).push(arr_model(items@)[i as int]));
                }
                out.push(c);
                i = i + 1;
            }
            proof {
                assert(arr_model(items@).take(items@.len() as int) =~= arr_model(items@));
            }
            TurbulanceValue::Array(out)
        },
        TurbulanceValue::Object(pairs) => TurbulanceValue::Object(dup_pairs(pairs)),
        TurbulanceValue::PipelineCall { stage, config } => TurbulanceValue::PipelineCall {
            stage: stage.clone(),
            config: dup_pairs(config),
        },
    }
}

/// Copies an association list of values; the copy has the same model.
pub fn dup_pairs(pairs: &Vec<(String, TurbulanceValue)>) -> (r: Vec<(String, TurbulanceValue)>)
    ensures
        obj_model(r@) == obj_model(pairs@),
    decreases *pairs,
{
    let mut out: Vec<(String, TurbulanceValue)> = Vec::new();
    let mut i: usize = 0;
    proof {
        lemma_obj_model(pairs@);
        assert(obj_model(out@) =~= Seq::<(Seq<char>, Val)>::empty());
        assert(obj_model(pairs@).take(0) =~= Seq::<(Seq<char>, Val)>::empty());
    }
    while i < pairs.len()
        invariant
            i <= pairs@.len(),
            obj_model(pairs@).len() == pairs@.len(),
            forall|k: int|
                0 <= k < pairs@.len() ==> #[trigger] obj_model(pairs@)[k] == (
                    pairs@[k].0@,
                    pairs@[k].1.model(),
                ),
            obj_model(out@) == obj_model(pairs@).take(i as int),
        decreases pairs@.len() - i,
    {
        let k = pairs[i].0.clone();
        let c = dup_value(&pairs[i].1);
        proof {
            lemma_obj_model_push(out@, k, c);
            assert(obj_model(pairs@).take(i + 1) =~= obj_model(pairs@).take(i as int).push(
                obj_model(pairs@)[i as int],
            ));
        }
        out.push((k, c));
        i = i + 1;
    }
    proof {
        assert(obj_model(pairs@).take(pairs@.len() as int) =~= obj_model(pairs@));
    }
    out
}

/// Looking a key up in an object model: the latest binding wins.
pub open spec fn obj_get(m: Seq<(Seq<char>, Val)>, key: Seq<char>) -> Option<Val>
    decreases m.len(),
{
    if m.len() == 0 {
        None
    } else if m.last().0 == key {
        Some(m.last().1)
    } else {
        obj_get(m.drop_last(), key)
    }
}

/// Looks `key` up in an association list of values; the latest binding wins.
pub fn object_get<'a>(
    pairs: &'a Vec<(String, TurbulanceValue)>,
    key: &String,
) -> (r: Option<&'a TurbulanceValue>)
    ensures
        match r {
            Some(v) => obj_get(obj_model(pairs@), key@) == Some(v.model()),
            None => obj_get(obj_model(pairs@), key@) is None,
        },
{
    proof {
        lemma_obj_model(pairs@);
        assert(obj_model(pairs@).take(pairs@.len() as int) =~= obj_model(pairs@));
    }
    let mut i: usize = pairs.len();
    while i > 0
        invariant
            i <= pairs.len(),
            obj_get(obj_model(pairs@), key@) == obj_get(
                obj_model(pairs@).take(i as int),
                key@,
            ),
            obj_model(pairs@).len() == pairs@.len(),
            forall|j: int|
                0 <= j < pairs@.len() ==> #[trigger] obj_model(pairs@)[j] == (
                    pairs@[j].0@,
                    pairs@[j].1.model(),
                ),
        decreases i,
    {
        i = i - 1;
        if pairs[i].0 == *key {
            proof {
                let m = obj_model(pairs@);
                assert(m.take(i + 1).last() == m[i as int]);
                assert(m.take(i + 1).drop_last() =~= m.take(i as int));
            }
            return Some(&pairs[i].1);
        }
        proof {
            let m = obj_model(pairs@);
            assert(m.take(i + 1).last() == m[i as int]);
            assert(m.take(i + 1).drop_last() =~= m.take(i as int));
        }
    }
    proof {
        assert(obj_model(pairs@).take(0) =~= Seq::empty());
    }
    None
}

} // verus!
