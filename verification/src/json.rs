//! Plain JSON emission: decimal rendering of milli quantities, string
//! escaping, and small helpers for building JSON text by concatenation.

use vstd::prelude::*;

use vstd::string::StringExecFns;

use crate::text::string_from_chars;

verus! {

/// The character of one decimal digit.
pub open spec fn spec_digit_char(d: int) -> char {
    ((48 + d) as u8) as char
}

/// The decimal digits of `n`, most significant first.
pub open spec fn spec_dec_str(n: nat) -> Seq<char>
    decreases n,
{
    if n < 10 {
        seq![spec_digit_char(n as int)]
    } else {
        spec_dec_str(n / 10) + seq![spec_digit_char((n % 10) as int)]
    }
}

/// Renders `n` in decimal.
pub fn dec_str(n: u64) -> (s: String)
    ensures
        s@ == spec_dec_str(n as nat),
    decreases n,
{
    let d: u8 = (n % 10) as u8 + 48;
    let c: char = d as char;
    let digit = string_from_chars([c].as_slice());
    proof {
        assert([c]@ =~= seq![spec_digit_char((n % 10) as int)]);
    }
    if n < 10 {
        digit
    } else {
        let hi = dec_str(n / 10);
        hi.concat(digit.as_str())
    }
}

/// The decimal rendering of a milli quantity: the whole part, a point, and
/// one to three fractional digits with trailing zeros removed.
pub open spec fn spec_milli_str(n: u64) -> Seq<char> {
    let whole = spec_dec_str((n / 1000) as nat);
    let ms = n % 1000;
    let d1 = ms / 100;
    let d2 = (ms / 10) % 10;
    let d3 = ms % 10;
    if d3 != 0 {
        whole + seq!['.'] + seq![
            spec_digit_char(d1 as int),
            spec_digit_char(d2 as int),
            spec_digit_char(d3 as int),
        ]
    } else if d2 != 0 {
        whole + seq!['.'] + seq![spec_digit_char(d1 as int), spec_digit_char(d2 as int)]
    } else {
        whole + seq!['.'] + seq![spec_digit_char(d1 as int)]
    }
}

/// Renders a milli quantity as a decimal number.
pub fn milli_str(n: u64) -> (s: String)
    ensures
        s@ == spec_milli_str(n),
{
    let whole = dec_str(n / 1000);
    let ms = n % 1000;
    let d1: char = ((ms / 100) as u8 + 48) as char;
    let d2: char = (((ms / 10) % 10) as u8 + 48) as char;
    let d3: char = ((ms % 10) as u8 + 48) as char;
    let with_dot = whole.concat(".");
    proof {
        reveal_strlit(".");
    }
    if ms % 10 != 0 {
        let tail = string_from_chars([d1, d2, d3].as_slice());
        proof {
            assert([d1, d2, d3]@ =~= seq![d1, d2, d3]);
            assert(with_dot@ + tail@ =~= spec_milli_str(n));
        }
        with_dot.concat(tail.as_str())
    } else if (ms / 10) % 10 != 0 {
        let tail = string_from_chars([d1, d2].as_slice());
        proof {
            assert([d1, d2]@ =~= seq![d1, d2]);
            assert(with_dot@ + tail@ =~= spec_milli_str(n));
        }
        with_dot.concat(tail.as_str())
    } else {
        let tail = string_from_chars([d1].as_slice());
        proof {
            assert([d1]@ =~= seq![d1]);
            assert(with_dot@ + tail@ =~= spec_milli_str(n));
        }
        with_dot.concat(tail.as_str())
    }
}

/// One hexadecimal digit.
pub open spec fn spec_hex_char(d: int) -> char {
    if d < 10 {
        ((48 + d) as u8) as char
    } else {
        ((87 + d) as u8) as char
    }
}

/// The JSON escape of one character: quotes and backslashes are
/// backslash-escaped, the common control characters use their short forms,
/// and any other control character uses a four-digit unicode escape.
pub open spec fn spec_escape_char(c: char) -> Seq<char> {
    if c == '"' {
        seq!['\\', '"']
    } else if c == '\\' {
        seq!['\\', '\\']
    } else if c == '\n' {
        seq!['\\', 'n']
    } else if c == '\r' {
        seq!['\\', 'r']
    } else if c == '\t' {
        seq!['\\', 't']
    } else if (c as u32) < 32 {
        seq!['\\', 'u', '0', '0', spec_hex_char(((c as u32) / 16) as int), spec_hex_char(
            ((c as u32) % 16) as int,
        )]
    } else {
        seq![c]
    }
}

/// The JSON escape of a string body.
pub open spec fn spec_escape(s: Seq<char>) -> Seq<char>
    decreases s,
{
    if s.len() == 0 {
        Seq::empty()
    } else {
        spec_escape_char(s[0]) + spec_escape(s.drop_first())
    }
}

/// Appending one character appends its escape.
proof fn lemma_escape_push(s: Seq<char>, c: char)
    ensures
        spec_escape(s.push(c)) == spec_escape(s) + spec_escape_char(c),
    decreases s,
{
    if s.len() == 0 {
        assert(s.push(c).drop_first() =~= Seq::<char>::empty());
        assert(s.push(c)[0] == c);
        assert(spec_escape(s.push(c).drop_first()) =~= Seq::<char>::empty());
        assert(spec_escape(s.push(c)) == spec_escape_char(c) + spec_escape(
            s.push(c).drop_first(),
        ));
        assert(spec_escape(s) =~= Seq::<char>::empty());
        assert(spec_escape(s.push(c)) =~= spec_escape(s) + spec_escape_char(c));
    } else {
        assert(s.push(c).drop_first() =~= s.drop_first().push(c));
        lemma_escape_push(s.drop_first(), c);
        assert(s.push(c)[0] == s[0]);
        assert(spec_escape(s.push(c)) =~= spec_escape(s) + spec_escape_char(c));
    }
}

/// A quoted JSON string: quote, escaped body, quote.
pub open spec fn spec_json_string(s: Seq<char>) -> Seq<char> {
    seq!['"'] + spec_escape(s) + seq!['"']
}

/// Renders a JSON string literal for `s`.
pub fn json_string(s: &String) -> (r: String)
    ensures
        r@ == spec_json_string(s@),
{
    let cs = crate::text::chars_vec(s.as_str());
    let mut out: Vec<char> = Vec::new();
    out.push('"');
    let mut i: usize = 0;
    proof {
        assert(cs@.take(0) =~= Seq::<char>::empty());
        assert(out@ =~= seq!['"'] + spec_escape(cs@.take(0)));
    }
    while i < cs.len()
        invariant
            i <= cs@.len(),
            cs@ == s@,
            out@ == seq!['"'] + spec_escape(cs@.take(i as int)),
        decreases cs@.len() - i,
    {
        let c = cs[i];
        proof {
            lemma_escape_push(cs@.take(i as int), c);
            assert(cs@.take(i + 1) =~= cs@.take(i as int).push(cs@[i as int]));
        }
        if c == '"' {
            out.push('\\');
            out.push('"');
        } else if c == '\\' {
            out.push('\\');
            out.push('\\');
        } else if c == '\n' {
            out.push('\\');
            out.push('n');
        } else if c == '\r' {
            out.push('\\');
            out.push('r');
        } else if c == '\t' {
            out.push('\\');
            out.push('t');
        } else if (c as u32) < 32 {
            let hi: u32 = (c as u32) / 16;
            let lo: u32 = (c as u32) % 16;
            let hc: char = if hi < 10 {
                (hi as u8 + 48) as char
            } else {
                (hi as u8 + 87) as char
            };
            let lc: char = if lo < 10 {
                (lo as u8 + 48) as char
            } else {
                (lo as u8 + 87) as char
            };
            out.push('\\');
            out.push('u');
            out.push('0');
            out.push('0');
            out.push(hc);
            out.push(lc);
        } else {
            out.push(c);
        }
        proof {
            assert(out@ =~= seq!['"'] + spec_escape(cs@.take(i + 1)));
        }
        i = i + 1;
    }
    out.push('"');
    proof {
        assert(cs@.take(cs@.len() as int) =~= cs@);
        assert(out@ =~= spec_json_string(s@));
    }
    string_from_chars(out.as_slice())
}

} // verus!
