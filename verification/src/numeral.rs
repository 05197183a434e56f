//! Recognition of the texts that Rust's `f64` parser accepts.
//!
//! `<f64 as FromStr>::from_str` documents its accepted language as the
//! grammar below, applied after ASCII lowercasing:
//!
//! ```text
//! Float  ::= Sign? ( 'inf' | 'infinity' | 'nan' | Number )
//! Number ::= ( Digit+ | Digit+ '.' Digit* | Digit* '.' Digit+ ) Exp?
//! Exp    ::= 'e' Sign? Digit+
//! Sign   ::= [+-]
//! Digit  ::= [0-9]
//! ```
//!
//! The word-problem analysis only needs to know which words are numbers,
//! so this module states that language and decides it.

use vstd::prelude::*;

use crate::text::chars_of;

verus! {

pub open spec fn is_ascii_digit(c: char) -> bool {
    '0' <= c && c <= '9'
}

/// Number of occurrences of `c` in `s`.
pub open spec fn count_char(s: Seq<char>, c: char) -> nat
    decreases s.len(),
{
    if s.len() == 0 {
        0
    } else {
        count_char(s.drop_last(), c) + if s.last() == c { 1nat } else { 0nat }
    }
}

/// Number of ASCII digits in `s`.
pub open spec fn count_digits(s: Seq<char>) -> nat
    decreases s.len(),
{
    if s.len() == 0 {
        0
    } else {
        count_digits(s.drop_last()) + if is_ascii_digit(s.last()) { 1nat } else { 0nat }
    }
}

/// `Digit+ | Digit+ '.' Digit* | Digit* '.' Digit+`: digits with at most one
/// dot and at least one digit.
pub open spec fn is_mantissa(m: Seq<char>) -> bool {
    &&& forall|k: int| 0 <= k < m.len() ==> (is_ascii_digit(#[trigger] m[k]) || m[k] == '.')
    &&& count_char(m, '.') <= 1
    &&& count_digits(m) >= 1
}

pub open spec fn all_digits(s: Seq<char>) -> bool {
    forall|k: int| 0 <= k < s.len() ==> is_ascii_digit(#[trigger] s[k])
}

pub open spec fn is_sign(c: char) -> bool {
    c == '+' || c == '-'
}

/// `Sign? Digit+`, the part of an exponent after the `e`.
pub open spec fn is_exponent_digits(x: Seq<char>) -> bool {
    let d = if x.len() > 0 && is_sign(x[0]) { x.drop_first() } else { x };
    d.len() > 0 && all_digits(d)
}

pub open spec fn is_exp_mark(c: char) -> bool {
    c == 'e' || c == 'E'
}

/// `Number`: a mantissa, optionally followed by an exponent.
pub open spec fn is_decimal(b: Seq<char>) -> bool {
    ||| is_mantissa(b)
    ||| exists|k: int|
        0 <= k < b.len() && is_exp_mark(#[trigger] b[k]) && is_mantissa(b.take(k))
            && is_exponent_digits(b.skip(k + 1))
}

/// `s` spells the lowercase ASCII word `w`, each letter in either case.
pub open spec fn spells_ignoring_case(s: Seq<char>, w: Seq<char>) -> bool {
    s.len() == w.len() && forall|k: int|
        0 <= k < s.len() ==> (#[trigger] s[k] == w[k] || s[k] == ((w[k] as int) - 32) as char)
}

pub open spec fn is_special_value(b: Seq<char>) -> bool {
    ||| spells_ignoring_case(b, seq!['i', 'n', 'f'])
    ||| spells_ignoring_case(b, seq!['i', 'n', 'f', 'i', 'n', 'i', 't', 'y'])
    ||| spells_ignoring_case(b, seq!['n', 'a', 'n'])
}

/// The language accepted by `str::parse::<f64>`.
pub open spec fn is_float_text(s: Seq<char>) -> bool {
    let b = if s.len() > 0 && is_sign(s[0]) { s.drop_first() } else { s };
    is_special_value(b) || is_decimal(b)
}

proof fn lemma_take_succ_last(s: Seq<char>, i: int)
    requires
        0 <= i < s.len(),
    ensures
        s.take(i + 1).drop_last() == s.take(i),
        s.take(i + 1).last() == s[i],
{
    assert(s.take(i + 1).drop_last() =~= s.take(i));
}

proof fn lemma_mantissa_has_no_exp_mark(m: Seq<char>, j: int)
    requires
        is_mantissa(m),
        0 <= j < m.len(),
    ensures
        !is_exp_mark(m[j]),
{
    assert(is_ascii_digit(m[j]) || m[j] == '.');
}

fn spells_word(b: &Vec<char>, lo: usize, w: &Vec<char>) -> (r: bool)
    requires
        lo <= b.len(),
        forall|k: int| 0 <= k < w.len() ==> 'a' <= #[trigger] w[k] <= 'z',
    ensures
        r == spells_ignoring_case(b@.skip(lo as int), w@),
{
    if b.len() - lo != w.len() {
        return false;
    }
    let mut k: usize = 0;
    while k < w.len()
        invariant
            lo <= b.len(),
            b.len() - lo == w.len(),
            k <= w.len(),
            forall|j: int| 0 <= j < w.len() ==> 'a' <= #[trigger] w[j] <= 'z',
            forall|j: int|
                0 <= j < k ==> (#[trigger] b@.skip(lo as int)[j] == w@[j] || b@.skip(
                    lo as int,
                )[j] == ((w@[j] as int) - 32) as char),
        decreases w.len() - k,
    {
        let c = b[lo + k];
        let l = w[k];
        let upper = ((l as u8) - 32) as char;
        assert(upper == ((l as int) - 32) as char);
        if c != l && c != upper {
            assert(b@.skip(lo as int)[k as int] == c);
            return false;
        }
        k = k + 1;
    }
    true
}

/// Decides `is_mantissa` on `b[lo..hi]`.
fn mantissa_between(b: &Vec<char>, lo: usize, hi: usize) -> (r: bool)
    requires
        lo <= hi <= b.len(),
    ensures
        r == is_mantissa(b@.subrange(lo as int, hi as int)),
{
    let ghost m = b@.subrange(lo as int, hi as int);
    let mut i: usize = lo;
    let mut dots: usize = 0;
    let mut digits: usize = 0;
    while i < hi
        invariant
            lo <= i <= hi <= b.len(),
            m == b@.subrange(lo as int, hi as int),
            dots == count_char(m.take(i - lo), '.'),
            digits == count_digits(m.take(i - lo)),
            dots <= 1,
            digits <= i - lo,
            forall|k: int| 0 <= k < i - lo ==> (is_ascii_digit(#[trigger] m[k]) || m[k] == '.'),
        decreases hi - i,
    {
        let c = b[i];
        proof {
            lemma_take_succ_last(m, i - lo);
        }
        if c == '.' {
            if dots == 1 {
                proof {
                    lemma_count_char_prefix_mono(m, '.', i - lo + 1);
                }
                return false;
            }
            dots = dots + 1;
        } else if '0' <= c && c <= '9' {
            digits = digits + 1;
        } else {
            assert(m[i - lo] == c);
            return false;
        }
        i = i + 1;
    }
    assert(m.take(hi - lo) =~= m);
    digits >= 1
}

proof fn lemma_count_char_prefix_mono(m: Seq<char>, c: char, n: int)
    requires
        0 <= n <= m.len(),
    ensures
        count_char(m.take(n), c) <= count_char(m, c),
    decreases m.len() - n,
{
    if n < m.len() {
        lemma_count_char_prefix_mono(m, c, n + 1);
        lemma_take_succ_last(m, n);
    } else {
        assert(m.take(n) =~= m);
    }
}

/// Decides `is_exponent_digits` on `b[lo..]`.
fn exponent_from(b: &Vec<char>, lo: usize) -> (r: bool)
    requires
        lo <= b.len(),
    ensures
        r == is_exponent_digits(b@.skip(lo as int)),
{
    let ghost x = b@.skip(lo as int);
    let mut start = lo;
    if lo < b.len() && (b[lo] == '+' || b[lo] == '-') {
        start = lo + 1;
    }
    let ghost d = b@.skip(start as int);
    assert(d =~= (if x.len() > 0 && is_sign(x[0]) { x.drop_first() } else { x }));
    if start >= b.len() {
        assert(d.len() == 0);
        return false;
    }
    let mut i = start;
    while i < b.len()
        invariant
            start <= i <= b.len(),
            d == b@.skip(start as int),
            x == b@.skip(lo as int),
            d == (if x.len() > 0 && is_sign(x[0]) { x.drop_first() } else { x }),
            forall|k: int| 0 <= k < i - start ==> is_ascii_digit(#[trigger] d[k]),
        decreases b.len() - i,
    {
        if !('0' <= b[i] && b[i] <= '9') {
            assert(d[i - start] == b[i as int]);
            assert(!is_ascii_digit(d[i - start]));
            return false;
        }
        i = i + 1;
    }
    true
}

fn lowercase_word(lit: &str) -> (w: Vec<char>)
    ensures
        w@ == lit@,
{
    chars_of(lit)
}

/// Whether `str::parse::<f64>` accepts `s`.
pub fn is_float_text_exec(s: &str) -> (r: bool)
    ensures
        r == is_float_text(s@),
{
    let b = chars_of(s);
    let mut lo: usize = 0;
    if b.len() > 0 && (b[0] == '+' || b[0] == '-') {
        lo = 1;
    }
    let ghost body = b@.skip(lo as int);
    assert(body =~= (if s@.len() > 0 && is_sign(s@[0]) { s@.drop_first() } else { s@ }));
    let inf: Vec<char> = vec!['i', 'n', 'f'];
    let infinity: Vec<char> = vec!['i', 'n', 'f', 'i', 'n', 'i', 't', 'y'];
    let nan: Vec<char> = vec!['n', 'a', 'n'];
    assert(inf@ =~= seq!['i', 'n', 'f']);
    assert(infinity@ =~= seq!['i', 'n', 'f', 'i', 'n', 'i', 't', 'y']);
    assert(nan@ =~= seq!['n', 'a', 'n']);
    if spells_word(&b, lo, &inf) || spells_word(&b, lo, &infinity) || spells_word(&b, lo, &nan) {
        return true;
    }
    assert(!is_special_value(body));
    if mantissa_between(&b, lo, b.len()) {
        assert(b@.subrange(lo as int, b.len() as int) =~= body);
        return true;
    }
    assert(b@.subrange(lo as int, b.len() as int) =~= body);
    // find the first exponent mark
    let mut k = lo;
    while k < b.len() && !(b[k] == 'e' || b[k] == 'E')
        invariant
            lo <= k <= b.len(),
            body == b@.skip(lo as int),
            forall|j: int| 0 <= j < k - lo ==> !is_exp_mark(#[trigger] body[j]),
        decreases b.len() - k,
    {
        k = k + 1;
    }
    if k == b.len() {
        assert forall|j: int| 0 <= j < body.len() implies !is_exp_mark(#[trigger] body[j]) by {}
        return false;
    }
    let ok = mantissa_between(&b, lo, k) && exponent_from(&b, k + 1);
    let ghost kk = k - lo;
    assert(b@.subrange(lo as int, k as int) =~= body.take(kk));
    assert(b@.skip(k + 1) =~= body.skip(kk + 1));
    if ok {
        assert(body[kk] == b@[k as int]);
        assert(is_exp_mark(body[kk]) && is_mantissa(body.take(kk)) && is_exponent_digits(
            body.skip(kk + 1),
        ));
    } else {
        assert forall|j: int|
            0 <= j < body.len() && is_exp_mark(#[trigger] body[j]) && is_mantissa(body.take(j))
                implies !is_exponent_digits(body.skip(j + 1)) by {
            if j < kk {
            } else if j > kk {
                assert(body.take(j)[kk] == body[kk]);
                lemma_mantissa_has_no_exp_mark(body.take(j), kk);
            }
        }
    }
    ok
}

} // verus!
