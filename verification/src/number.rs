//! Numeric literals.
//!
//! A numeric literal is an optional minus sign, one to fifteen integer
//! digits, and optionally a decimal point followed by one to three fractional
//! digits. Its value is in milli units: `2.5` denotes `2500`. Nothing else —
//! scientific notation included — is a numeric literal; such text stays a
//! bare string under the value grammar.

use vstd::prelude::*;

use crate::scan::{is_digit, spec_find_char};

verus! {

/// Ten to the `n`.
pub open spec fn pow10(n: nat) -> int
    decreases n,
{
    if n == 0 {
        1
    } else {
        10 * pow10((n - 1) as nat)
    }
}

/// Whether every character of `ds` is a digit.
pub open spec fn all_digits(ds: Seq<char>) -> bool {
    forall|i: int| 0 <= i < ds.len() ==> is_digit(#[trigger] ds[i])
}

/// The numeric value of one digit character.
pub open spec fn digit_val(c: char) -> int {
    c as int - '0' as int
}

/// The value of a digit string, most significant digit first.
pub open spec fn digits_val(ds: Seq<char>) -> int
    decreases ds,
{
    if ds.len() == 0 {
        0
    } else {
        digits_val(ds.drop_last()) * 10 + digit_val(ds.last())
    }
}

/// A digit string's value is non-negative and below ten to its length.
pub proof fn lemma_digits_val_bound(ds: Seq<char>)
    requires
        all_digits(ds),
    ensures
        0 <= digits_val(ds) < pow10(ds.len()),
    decreases ds,
{
    if ds.len() > 0 {
        assert(all_digits(ds.drop_last()));
        lemma_digits_val_bound(ds.drop_last());
        assert(0 <= digit_val(ds.last()) <= 9);
        assert(digits_val(ds.drop_last()) * 10 <= (pow10((ds.len() - 1) as nat) - 1) * 10)
            by (nonlinear_arith)
            requires
                digits_val(ds.drop_last()) <= pow10((ds.len() - 1) as nat) - 1,
        ;
    }
}

/// The fractional digits' contribution in milli units: one digit counts
/// tenths of a unit, two count hundredths, three count thousandths.
pub open spec fn frac_milli(ds: Seq<char>) -> int {
    if ds.len() == 1 {
        digits_val(ds) * 100
    } else if ds.len() == 2 {
        digits_val(ds) * 10
    } else {
        digits_val(ds)
    }
}

/// The value denoted by the numeric literal `t`, in milli units, or `None`
/// if `t` is not a numeric literal.
pub open spec fn spec_parse_number(t: Seq<char>) -> Option<int> {
    let neg = t.len() > 0 && t[0] == '-';
    let body = if neg {
        t.drop_first()
    } else {
        t
    };
    let p = spec_find_char(body, 0, '.');
    if p == body.len() {
        if 1 <= body.len() <= 15 && all_digits(body) {
            if neg {
                Some(-(digits_val(body) * 1000))
            } else {
                Some(digits_val(body) * 1000)
            }
        } else {
            None
        }
    } else {
        let ip = body.take(p);
        let fp = body.skip(p + 1);
        if 1 <= ip.len() <= 15 && 1 <= fp.len() <= 3 && all_digits(ip) && all_digits(fp) {
            if neg {
                Some(-(digits_val(ip) * 1000 + frac_milli(fp)))
            } else {
                Some(digits_val(ip) * 1000 + frac_milli(fp))
            }
        } else {
            None
        }
    }
}

/// Reads the digits of `s` between `from` and `to` as a number.
fn digits_value(s: &Vec<char>, from: usize, to: usize) -> (r: Option<u64>)
    requires
        from <= to <= s@.len(),
    ensures
        match r {
            Some(v) => from < to && to - from <= 15 && all_digits(
                s@.subrange(from as int, to as int),
            ) && v == digits_val(s@.subrange(from as int, to as int)) && v
                < 1000000000000000,
            None => !(1 <= to - from <= 15 && all_digits(
                s@.subrange(from as int, to as int),
            )) || to == from,
        },
{
    if to - from > 15 || to == from {
        return None;
    }
    let mut v: u64 = 0;
    let mut i = from;
    while i < to
        invariant
            from <= i <= to <= s@.len(),
            to - from <= 15,
            all_digits(s@.subrange(from as int, i as int)),
            v == digits_val(s@.subrange(from as int, i as int)),
            v < pow10((i - from) as nat),
        decreases to - i,
    {
        let c = s[i];
        if !crate::scan::digit(c) {
            proof {
                assert(s@.subrange(from as int, to as int)[i - from] == s@[i as int]);
            }
            return None;
        }
        let d: u64 = (c as u32 - '0' as u32) as u64;
        proof {
            let pref = s@.subrange(from as int, i as int);
            let pref1 = s@.subrange(from as int, (i + 1) as int);
            assert(pref1.drop_last() =~= pref);
            assert(pref1.last() == s@[i as int]);
            assert(pow10(((i + 1) - from) as nat) == 10 * pow10((i - from) as nat));
            assert(pow10((i - from) as nat) <= pow10(14)) by {
                lemma_pow10_le((i - from) as nat, 14);
            }
            assert(pow10(14) == 100000000000000) by {
                reveal_with_fuel(pow10, 15);
            }
            assert(0 <= d <= 9);
        }
        v = v * 10 + d;
        i = i + 1;
    }
    proof {
        assert(pow10((to - from) as nat) <= pow10(15)) by {
            lemma_pow10_le((to - from) as nat, 15);
        }
        assert(pow10(15) == 1000000000000000) by {
            reveal_with_fuel(pow10, 16);
        }
    }
    Some(v)
}

/// `pow10` is monotone.
pub proof fn lemma_pow10_le(a: nat, b: nat)
    requires
        a <= b,
    ensures
        pow10(a) <= pow10(b),
        pow10(a) >= 1,
    decreases b,
{
    if b > 0 {
        if a == b {
            lemma_pow10_le((a - 1) as nat, (b - 1) as nat);
        } else {
            lemma_pow10_le(a, (b - 1) as nat);
        }
    }
}

/// Parses `t` as a numeric literal in milli units.
pub fn parse_number(t: &Vec<char>) -> (r: Option<i64>)
    ensures
        match r {
            Some(v) => spec_parse_number(t@) == Some(v as int),
            None => spec_parse_number(t@) is None,
        },
{
    let neg = t.len() > 0 && t[0] == '-';
    let start: usize = if neg {
        1
    } else {
        0
    };
    proof {
        if neg {
            assert(t@.drop_first() =~= t@.subrange(1, t@.len() as int));
        } else {
            assert(t@ =~= t@.subrange(0, t@.len() as int));
        }
    }
    let p = find_dot(t, start);
    let ghost body = t@.subrange(start as int, t@.len() as int);
    if p == t.len() {
        let v = digits_value(t, start, p);
        match v {
            Some(v) => {
                let milli = v as i64 * 1000;
                if neg {
                    Some(-milli)
                } else {
                    Some(milli)
                }
            },
            None => None,
        }
    } else {
        let iv = digits_value(t, start, p);
        let fstart = p + 1;
        let fv = digits_value(t, fstart, t.len());
        proof {
            assert(body.take((p - start) as int) =~= t@.subrange(start as int, p as int));
            assert(body.skip((p - start) + 1) =~= t@.subrange(
                (p + 1) as int,
                t@.len() as int,
            ));
        }
        match (iv, fv) {
            (Some(ivv), Some(fvv)) => {
                let flen = t.len() - fstart;
                if flen > 3 {
                    return None;
                }
                let scaled: i64 = if flen == 1 {
                    fvv as i64 * 100
                } else if flen == 2 {
                    fvv as i64 * 10
                } else {
                    fvv as i64
                };
                proof {
                    lemma_digits_val_bound(body.skip((p - start) + 1));
                    assert(pow10(3) == 1000) by {
                        reveal_with_fuel(pow10, 4);
                    }
                    lemma_pow10_le(body.skip((p - start) + 1).len(), 3);
                }
                let milli: i64 = ivv as i64 * 1000 + scaled;
                if neg {
                    Some(-milli)
                } else {
                    Some(milli)
                }
            },
            _ => None,
        }
    }
}

/// Finds the first dot at or after `start`, in terms of the suffix spec.
fn find_dot(t: &Vec<char>, start: usize) -> (r: usize)
    requires
        start <= t@.len(),
    ensures
        start <= r <= t@.len(),
        r - start == spec_find_char(t@.subrange(start as int, t@.len() as int), 0, '.'),
        r < t@.len() ==> t@[r as int] == '.',
{
    proof {
        lemma_find_shift_zero(t@, '.', start as int);
    }
    crate::scan::find_char(t, start, '.')
}

/// Finding from index `i` in `s` equals `i` plus finding in the suffix.
pub proof fn lemma_find_shift_zero(s: Seq<char>, c: char, i: int)
    requires
        0 <= i <= s.len(),
    ensures
        spec_find_char(s, i, c) == i + spec_find_char(s.subrange(i, s.len() as int), 0, c),
    decreases s.len() - i,
{
    let suf = s.subrange(i, s.len() as int);
    if i < s.len() {
        if s[i] == c {
        } else {
            lemma_find_shift_zero(s, c, i + 1);
            assert(s.subrange(i + 1, s.len() as int) =~= suf.subrange(1, suf.len() as int));
            lemma_find_shift_zero(suf, c, 1);
            assert(suf.subrange(1, suf.len() as int) =~= s.subrange(i + 1, s.len() as int));
        }
    }
}

} // verus!
