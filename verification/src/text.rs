//! Bridges between `String`/`&str` and `Vec<char>`.
//!
//! The parser works on vectors of characters; these two trusted functions
//! move between that representation and the standard string types.

use vstd::prelude::*;

verus! {

/// Relies on `str::chars`: it yields exactly the characters of the string,
/// in order, which is the string's view.
#[verifier::external_body]
pub fn chars_vec(s: &str) -> (v: Vec<char>)
    ensures
        v@ == s@,
{
    s.chars().collect()
}

/// Relies on `String`'s `FromIterator<char>`: collecting characters builds
/// the string consisting of exactly those characters, in order.
#[verifier::external_body]
pub fn string_from_chars(v: &[char]) -> (s: String)
    ensures
        s@ == v@,
{
    v.iter().collect()
}

/// The views of a sequence of character vectors.
pub open spec fn charvecs_model(vs: Seq<Vec<char>>) -> Seq<Seq<char>>
    decreases vs,
{
    if vs.len() == 0 {
        Seq::empty()
    } else {
        seq![vs[0]@] + charvecs_model(vs.drop_first())
    }
}

/// `charvecs_model` maps the sequence elementwise.
pub proof fn lemma_charvecs_model(vs: Seq<Vec<char>>)
    ensures
        charvecs_model(vs).len() == vs.len(),
        forall|i: int|
            0 <= i < vs.len() ==> #[trigger] charvecs_model(vs)[i] == vs[i]@,
    decreases vs,
{
    if vs.len() > 0 {
        lemma_charvecs_model(vs.drop_first());
    }
}

/// Appending one vector extends the model by its view.
pub proof fn lemma_charvecs_model_push(vs: Seq<Vec<char>>, v: Vec<char>)
    ensures
        charvecs_model(vs.push(v)) == charvecs_model(vs).push(v@),
{
    lemma_charvecs_model(vs.push(v));
    lemma_charvecs_model(vs);
    assert(charvecs_model(vs.push(v)) =~~= charvecs_model(vs).push(v@));
}

/// Copies the characters of `s` between `from` and `to` into a fresh vector.
pub fn subvec(s: &Vec<char>, from: usize, to: usize) -> (v: Vec<char>)
    requires
        from <= to <= s@.len(),
    ensures
        v@ == s@.subrange(from as int, to as int),
{
    let mut v: Vec<char> = Vec::new();
    let mut i: usize = from;
    while i < to
        invariant
            from <= i <= to <= s@.len(),
            v@ == s@.subrange(from as int, i as int),
        decreases to - i,
    {
        v.push(s[i]);
        proof {
            assert(s@.subrange(from as int, (i + 1) as int) =~= s@.subrange(
                from as int,
                i as int,
            ).push(s@[i as int]));
        }
        i = i + 1;
    }
    v
}

} // verus!
