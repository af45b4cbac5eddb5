//! Character-level helpers shared by the lexer and the evaluator.

use vstd::prelude::*;

use vstd::std_specs::iter::IteratorSpec;
use vstd::string::StringExecFns;

verus! {

broadcast use vstd::string::next_postcondition, vstd::string::axiom_spec_iter;

/// The character of a decimal digit.
pub open spec fn digit_char(d: int) -> char {
    seq!['0', '1', '2', '3', '4', '5', '6', '7', '8', '9'][d]
}

/// The decimal digits of `n`, most significant first, without leading zeros.
pub open spec fn digits_of(n: nat) -> Seq<char>
    decreases n,
{
    if n < 10 {
        seq![digit_char(n as int)]
    } else {
        digits_of(n / 10).push(digit_char((n % 10) as int))
    }
}

pub open spec fn is_digit_spec(c: char) -> bool {
    '0' <= c && c <= '9'
}

/// ASCII letters and `_` start an identifier.
pub open spec fn is_alpha_spec(c: char) -> bool {
    ('a' <= c && c <= 'z') || ('A' <= c && c <= 'Z') || c == '_'
}

pub fn is_digit(c: char) -> (r: bool)
    ensures
        r == is_digit_spec(c),
{
    '0' <= c && c <= '9'
}

pub fn is_alpha(c: char) -> (r: bool)
    ensures
        r == is_alpha_spec(c),
{
    ('a' <= c && c <= 'z') || ('A' <= c && c <= 'Z') || c == '_'
}

pub fn digit(d: u64) -> (c: char)
    requires
        d < 10,
    ensures
        c == digit_char(d as int),
{
    match d {
        0 => '0',
        1 => '1',
        2 => '2',
        3 => '3',
        4 => '4',
        5 => '5',
        6 => '6',
        7 => '7',
        8 => '8',
        _ => '9',
    }
}

/// Appends the decimal digits of `n`.
pub fn push_digits(n: u64, out: &mut Vec<char>)
    ensures
        final(out)@ == old(out)@ + digits_of(n as nat),
    decreases n,
{
    if n >= 10 {
        push_digits(n / 10, out);
    }
    out.push(digit(n % 10));
    proof {
        assert(final(out)@ =~= old(out)@ + digits_of(n as nat));
    }
}

/// Relies on String::push: the character is appended at the end.
#[verifier::external_body]
pub fn push_char(s: &mut String, c: char)
    ensures
        final(s)@ == old(s)@.push(c),
{
    s.push(c)
}

/// The characters of `s`, in order.
pub fn chars_of(s: &str) -> (r: Vec<char>)
    ensures
        r@ == s@,
{
    let mut out: Vec<char> = Vec::new();
    let mut it = s.chars();
    loop
        invariant
            out@ + it.remaining() == s@,
            it.obeys_prophetic_iter_laws(),
            it.decrease() is Some,
        decreases it.decrease()->0,
    {
        match it.next() {
            Some(c) => {
                out.push(c);
            },
            None => {
                return out;
            },
        }
    }
}

/// A string holding the characters of `v`.
pub fn string_of(v: &[char]) -> (r: String)
    ensures
        r@ == v@,
{
    let mut s = String::new();
    let mut i: usize = 0;
    while i < v.len()
        invariant
            i <= v@.len(),
            s@ == v@.subrange(0, i as int),
        decreases v@.len() - i,
    {
        push_char(&mut s, v[i]);
        i += 1;
        proof {
            assert(s@ =~= v@.subrange(0, i as int));
        }
    }
    proof {
        assert(s@ =~= v@);
    }
    s
}

/// `prefix` followed by the decimal digits of `n`.
pub fn with_number(prefix: &str, n: u64) -> (r: String)
    ensures
        r@ == prefix@ + digits_of(n as nat),
{
    let mut ds: Vec<char> = Vec::new();
    push_digits(n, &mut ds);
    let mut s = String::from_str(prefix);
    let mut i: usize = 0;
    while i < ds.len()
        invariant
            i <= ds@.len(),
            ds@ == digits_of(n as nat),
            s@ == prefix@ + ds@.subrange(0, i as int),
        decreases ds@.len() - i,
    {
        push_char(&mut s, ds[i]);
        i += 1;
        proof {
            assert(s@ =~= prefix@ + ds@.subrange(0, i as int));
        }
    }
    proof {
        assert(ds@.subrange(0, ds@.len() as int) =~= ds@);
    }
    s
}

} // verus!
