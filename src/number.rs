//! Which texts are numbers: the grammar that `f64::from_str` accepts.
//!
//! ```text
//! Float  ::= Sign? ( 'inf' | 'infinity' | 'nan' | Number )
//! Number ::= ( Digit+ | Digit+ '.' Digit* | Digit* '.' Digit+ ) Exp?
//! Exp    ::= 'e' Sign? Digit+
//! Sign   ::= [+-]
//! Digit  ::= [0-9]
//! ```
//!
//! Letters match in either case; no white space is allowed.

use vstd::prelude::*;

use crate::text::{find_char, find_in};

verus! {

pub open spec fn is_digit(c: char) -> bool {
    '0' <= c <= '9'
}

pub open spec fn all_digits(s: Seq<char>) -> bool {
    forall|i: int| 0 <= i < s.len() ==> is_digit(#[trigger] s[i])
}

/// `s` without one leading `+` or `-`.
pub open spec fn strip_sign(s: Seq<char>) -> Seq<char> {
    if s.len() > 0 && (s[0] == '+' || s[0] == '-') {
        s.drop_first()
    } else {
        s
    }
}

/// Digits with at most one decimal point and at least one digit.
pub open spec fn is_mantissa(m: Seq<char>) -> bool {
    let p = find_char(m, '.');
    if p >= m.len() {
        m.len() > 0 && all_digits(m)
    } else {
        all_digits(m.take(p)) && all_digits(m.skip(p + 1)) && m.len() > 1
    }
}

/// What follows the exponent marker: an optional sign and digits.
pub open spec fn is_exponent(t: Seq<char>) -> bool {
    strip_sign(t).len() > 0 && all_digits(strip_sign(t))
}

/// The position of the exponent marker (`e` or `E`), or `n.len()`.
pub open spec fn exponent_position(n: Seq<char>) -> int {
    let lower = find_char(n, 'e');
    let upper = find_char(n, 'E');
    if lower <= upper {
        lower
    } else {
        upper
    }
}

/// A decimal number: a mantissa, then optionally an exponent.
pub open spec fn is_decimal(n: Seq<char>) -> bool {
    let k = exponent_position(n);
    if k >= n.len() {
        is_mantissa(n)
    } else {
        is_mantissa(n.take(k)) && is_exponent(n.skip(k + 1))
    }
}

/// `c` is the lower-case letter `l`, or its upper-case form.
pub open spec fn same_letter(c: char, l: char) -> bool {
    c == l || ('A' <= c <= 'Z' && (c as u32) + 32 == (l as u32))
}

/// `s` spells the lower-case word `w`, each letter in either case.
pub open spec fn spells(s: Seq<char>, w: Seq<char>) -> bool {
    &&& s.len() == w.len()
    &&& forall|i: int| 0 <= i < s.len() ==> same_letter(#[trigger] s[i], w[i])
}

pub open spec fn word_inf() -> Seq<char> {
    seq!['i', 'n', 'f']
}

pub open spec fn word_infinity() -> Seq<char> {
    seq!['i', 'n', 'f', 'i', 'n', 'i', 't', 'y']
}

pub open spec fn word_nan() -> Seq<char> {
    seq!['n', 'a', 'n']
}

/// `s` is the text of a number.
pub open spec fn is_number_text(s: Seq<char>) -> bool {
    let u = strip_sign(s);
    is_decimal(u) || spells(u, word_inf()) || spells(u, word_infinity()) || spells(u, word_nan())
}

fn digits_in(cs: &Vec<char>, lo: usize, hi: usize) -> (r: bool)
    requires
        lo <= hi <= cs.len(),
    ensures
        r == all_digits(cs@.subrange(lo as int, hi as int)),
{
    let mut i = lo;
    while i < hi
        invariant
            lo <= i <= hi <= cs.len(),
            forall|j: int| lo <= j < i ==> is_digit(#[trigger] cs@[j]),
        decreases hi - i,
    {
        if !('0' <= cs[i] && cs[i] <= '9') {
            assert(!is_digit(cs@.subrange(lo as int, hi as int)[i - lo]));
            return false;
        }
        i = i + 1;
    }
    true
}

/// `[lo, hi)` without one leading sign: the new `lo`.
fn skip_sign(cs: &Vec<char>, lo: usize, hi: usize) -> (r: usize)
    requires
        lo <= hi <= cs.len(),
    ensures
        lo <= r <= hi,
        cs@.subrange(r as int, hi as int) == strip_sign(cs@.subrange(lo as int, hi as int)),
{
    if lo < hi && (cs[lo] == '+' || cs[lo] == '-') {
        assert(cs@.subrange(lo as int, hi as int).drop_first() =~= cs@.subrange(
            lo + 1,
            hi as int,
        ));
        lo + 1
    } else {
        lo
    }
}

fn mantissa_in(cs: &Vec<char>, lo: usize, hi: usize) -> (r: bool)
    requires
        lo <= hi <= cs.len(),
    ensures
        r == is_mantissa(cs@.subrange(lo as int, hi as int)),
{
    let ghost m = cs@.subrange(lo as int, hi as int);
    let p = find_in(cs, lo, hi, '.');
    if p == hi {
        hi > lo && digits_in(cs, lo, hi)
    } else {
        assert(m.take(p - lo) =~= cs@.subrange(lo as int, p as int));
        assert(m.skip(p - lo + 1) =~= cs@.subrange(p + 1, hi as int));
        digits_in(cs, lo, p) && digits_in(cs, p + 1, hi) && hi - lo > 1
    }
}

fn exponent_in(cs: &Vec<char>, lo: usize, hi: usize) -> (r: bool)
    requires
        lo <= hi <= cs.len(),
    ensures
        r == is_exponent(cs@.subrange(lo as int, hi as int)),
{
    let a = skip_sign(cs, lo, hi);
    a < hi && digits_in(cs, a, hi)
}

fn decimal_in(cs: &Vec<char>, lo: usize, hi: usize) -> (r: bool)
    requires
        lo <= hi <= cs.len(),
    ensures
        r == is_decimal(cs@.subrange(lo as int, hi as int)),
{
    let ghost n = cs@.subrange(lo as int, hi as int);
    let lower = find_in(cs, lo, hi, 'e');
    let upper = find_in(cs, lo, hi, 'E');
    let k = if lower <= upper {
        lower
    } else {
        upper
    };
    assert(k - lo == exponent_position(n));
    if k == hi {
        mantissa_in(cs, lo, hi)
    } else {
        assert(n.take(k - lo) =~= cs@.subrange(lo as int, k as int));
        assert(n.skip(k - lo + 1) =~= cs@.subrange(k + 1, hi as int));
        mantissa_in(cs, lo, k) && exponent_in(cs, k + 1, hi)
    }
}

/// Whether `[lo, hi)` spells the lower-case word `w`, in either case.
fn spells_in(cs: &Vec<char>, lo: usize, hi: usize, w: &[char]) -> (r: bool)
    requires
        lo <= hi <= cs.len(),
    ensures
        r == spells(cs@.subrange(lo as int, hi as int), w@),
{
    if hi - lo != w.len() {
        return false;
    }
    let ghost s = cs@.subrange(lo as int, hi as int);
    let mut i: usize = 0;
    while i < w.len()
        invariant
            hi - lo == w@.len(),
            lo <= hi <= cs.len(),
            s == cs@.subrange(lo as int, hi as int),
            i <= w.len(),
            forall|j: int|
                0 <= j < i ==> same_letter(#[trigger] s[j], w@[j]),
        decreases w.len() - i,
    {
        let c = cs[lo + i];
        let l = w[i];
        if !(c == l || ('A' <= c && c <= 'Z' && (c as u32) + 32 == (l as u32))) {
            assert(s[i as int] == c);
            return false;
        }
        i = i + 1;
    }
    true
}

/// Whether the range `[lo, hi)` of `cs` is the text of a number.
pub fn is_number_text_in(cs: &Vec<char>, lo: usize, hi: usize) -> (r: bool)
    requires
        lo <= hi <= cs.len(),
    ensures
        r == is_number_text(cs@.subrange(lo as int, hi as int)),
{
    let a = skip_sign(cs, lo, hi);
    let inf = ['i', 'n', 'f'];
    let infinity = ['i', 'n', 'f', 'i', 'n', 'i', 't', 'y'];
    let nan = ['n', 'a', 'n'];
    assert(inf@ =~= word_inf());
    assert(infinity@ =~= word_infinity());
    assert(nan@ =~= word_nan());
    decimal_in(cs, a, hi) || spells_in(cs, a, hi, &inf) || spells_in(cs, a, hi, &infinity)
        || spells_in(cs, a, hi, &nan)
}

} // verus!
