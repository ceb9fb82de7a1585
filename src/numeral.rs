//! Decimal numerals such as "12", "1.5", ".25" and "3.": what they are worth,
//! and that worth scaled to a whole number.
use vstd::arithmetic::div_mod::{lemma_div_denominator, lemma_hoist_over_denominator};
use vstd::prelude::*;

use crate::multiples::{lemma_power_positive, power};
use crate::text::is_digit;

verus! {

/// The value of the ASCII digit `c`.
pub open spec fn digit_value(c: char) -> nat {
    (c as int - '0' as int) as nat
}

/// The number that the digits `s` write, most significant first.
pub open spec fn digits_value(s: Seq<char>) -> nat
    decreases s.len(),
{
    if s.len() == 0 {
        0
    } else {
        digits_value(s.drop_last()) * 10 + digit_value(s.last())
    }
}

/// Whether `s` is a numeral whose decimal point stands at index `p`, or which
/// has no point when `p` is its length: digits everywhere else, and at least
/// one of them.
pub open spec fn has_point_at(s: Seq<char>, p: int) -> bool {
    &&& 0 <= p <= s.len()
    &&& forall|i: int| 0 <= i < s.len() && i != p ==> is_digit(#[trigger] s[i])
    &&& p < s.len() ==> s[p] == '.'
    &&& (p < s.len() ==> s.len() >= 2)
    &&& s.len() >= 1
}

/// Whether `s` is a decimal numeral: digits with at most one '.' among
/// them, and at least one digit.
pub open spec fn is_numeral(s: Seq<char>) -> bool {
    exists|p: int| has_point_at(s, p)
}

/// The index of the decimal point of the numeral `s`, or its length when it
/// has none.
pub open spec fn point_of(s: Seq<char>) -> int {
    choose|p: int| has_point_at(s, p)
}

/// The digits of the numeral `s` before its point.
pub open spec fn whole_digits(s: Seq<char>) -> Seq<char> {
    s.subrange(0, point_of(s))
}

/// The digits of the numeral `s` after its point.
pub open spec fn fraction_digits(s: Seq<char>) -> Seq<char> {
    if point_of(s) < s.len() {
        s.subrange(point_of(s) + 1, s.len() as int)
    } else {
        Seq::empty()
    }
}

/// The value of the numeral `s` times `scale`, rounded down: the whole part
/// times `scale`, plus the fraction times `scale` rounded down.
pub open spec fn scaled_value(s: Seq<char>, scale: nat) -> nat {
    digits_value(whole_digits(s)) * scale + digits_value(fraction_digits(s)) * scale / power(
        10,
        fraction_digits(s).len(),
    )
}

pub proof fn lemma_point_unique(s: Seq<char>, p: int)
    requires
        has_point_at(s, p),
    ensures
        is_numeral(s),
        point_of(s) == p,
{
    let q = point_of(s);
    assert(has_point_at(s, q));
    if q != p {
        if p < s.len() {
            assert(is_digit(s[p]));
        } else {
            assert(is_digit(s[q]));
        }
    }
}

/// A longer run of digits is worth at least as much as its prefix.
proof fn lemma_digits_prefix_le(s: Seq<char>, k: int)
    requires
        0 <= k <= s.len(),
    ensures
        digits_value(s.subrange(0, k)) <= digits_value(s),
    decreases s.len() - k,
{
    if k < s.len() {
        lemma_digits_prefix_le(s, k + 1);
        assert(s.subrange(0, k + 1).drop_last() =~= s.subrange(0, k));
        assert(s.subrange(0, k + 1).last() == s[k]);
    } else {
        assert(s.subrange(0, k) =~= s);
    }
}

/// A digit in front of `s` adds its value times ten to the length of `s`.
proof fn lemma_digits_prepend(c: char, s: Seq<char>)
    ensures
        digits_value(seq![c] + s) == digit_value(c) * power(10, s.len()) + digits_value(s),
    decreases s.len(),
{
    if s.len() > 0 {
        let t = s.drop_last();
        lemma_digits_prepend(c, t);
        assert((seq![c] + s).drop_last() =~= seq![c] + t);
        assert((seq![c] + s).last() == s.last());
        let d = digit_value(c);
        let p = power(10, t.len());
        assert(power(10, s.len()) == 10 * p);
        assert((d * p + digits_value(t)) * 10 + digit_value(s.last()) == d * (10 * p) + (
        digits_value(t) * 10 + digit_value(s.last()))) by (nonlinear_arith);
    } else {
        assert(seq![c] + s =~= seq![c]);
        assert(seq![c].drop_last() =~= Seq::<char>::empty());
        assert(digits_value(Seq::<char>::empty()) == 0);
        assert(power(10, 0) == 1);
    }
}

/// One step of scaling a fraction from its last digit towards its first.
proof fn lemma_fraction_step(d: nat, f: nat, scale: nat, m: nat)
    requires
        d <= 9,
        f < power(10, m),
        scale > 0,
    ensures
        (d * power(10, m) + f) * scale / power(10, m + 1) == (d * scale + f * scale / power(
            10,
            m,
        )) / 10,
        (d * power(10, m) + f) < power(10, m + 1),
{
    let p = power(10, m);
    lemma_power_positive(10, m);
    assert(power(10, m + 1) == 10 * p);
    let x = f * scale;
    assert(x >= 0) by (nonlinear_arith)
        requires
            f >= 0,
            scale > 0,
    ;
    lemma_hoist_over_denominator(x as int, (d * scale) as int, p);
    assert((d * p + f) * scale == x + (d * scale) * p) by (nonlinear_arith)
        requires
            x == f * scale,
    ;
    lemma_div_denominator((x + (d * scale) * p) as int, p as int, 10);
    assert(p * 10 == 10 * p);
    assert(d * p <= 9 * p) by (nonlinear_arith)
        requires
            d <= 9,
    ;
}

/// Whether every digit of `s` is a zero.
pub open spec fn all_zero(s: Seq<char>) -> bool {
    forall|i: int| 0 <= i < s.len() && is_digit(s[i]) ==> #[trigger] s[i] == '0'
}

/// The length of the longest prefix of `s` made of digits and '.'.
pub open spec fn numeral_prefix_len(s: Seq<char>) -> int
    decreases s.len(),
{
    if s.len() > 0 && (is_digit(s[0]) || s[0] == '.') {
        1 + numeral_prefix_len(s.drop_first())
    } else {
        0
    }
}

pub proof fn lemma_numeral_prefix_len(s: Seq<char>, k: int)
    requires
        0 <= k <= s.len(),
        forall|i: int| 0 <= i < k ==> is_digit(#[trigger] s[i]) || s[i] == '.',
        k < s.len() ==> !is_digit(s[k]) && s[k] != '.',
    ensures
        numeral_prefix_len(s) == k,
    decreases k,
{
    if k > 0 {
        assert forall|i: int| 0 <= i < k - 1 implies is_digit(#[trigger] s.drop_first()[i])
            || s.drop_first()[i] == '.' by {
            assert(s.drop_first()[i] == s[i + 1]);
        }
        lemma_numeral_prefix_len(s.drop_first(), k - 1);
    }
}

/// Whether every digit of `s` is a zero.
pub fn is_all_zero(s: &[char]) -> (r: bool)
    ensures
        r == all_zero(s@),
{
    let mut i: usize = 0;
    while i < s.len()
        invariant
            i <= s@.len(),
            forall|j: int| 0 <= j < i && is_digit(s@[j]) ==> #[trigger] s@[j] == '0',
        decreases s@.len() - i,
    {
        if '1' <= s[i] && s[i] <= '9' {
            return false;
        }
        i += 1;
    }
    true
}

/// The length of the longest prefix of `s` made of digits and '.'.
pub fn numeral_prefix(s: &[char]) -> (r: usize)
    ensures
        r == numeral_prefix_len(s@),
        r <= s@.len(),
{
    let mut i: usize = 0;
    while i < s.len() && (('0' <= s[i] && s[i] <= '9') || s[i] == '.')
        invariant
            i <= s@.len(),
            forall|j: int| 0 <= j < i ==> is_digit(#[trigger] s@[j]) || s@[j] == '.',
        decreases s@.len() - i,
    {
        i += 1;
    }
    proof {
        lemma_numeral_prefix_len(s@, i as int);
    }
    i
}

/// The index of the decimal point of `s`, or its length when it has none;
/// `None` when `s` is not a numeral.
pub fn find_point(s: &[char]) -> (r: Option<usize>)
    ensures
        r matches Some(p) ==> has_point_at(s@, p as int) && point_of(s@) == p,
        r is None <==> !is_numeral(s@),
{
    let n = s.len();
    let mut p: usize = n;
    let mut i: usize = 0;
    while i < n
        invariant
            n == s@.len(),
            i <= n,
            p == n || (p < i && s@[p as int] == '.'),
            forall|j: int| 0 <= j < i && j != p ==> is_digit(#[trigger] s@[j]),
        decreases n - i,
    {
        if s[i] == '.' {
            if p < n {
                proof {
                    assert forall|q: int| !has_point_at(s@, q) by {
                        if has_point_at(s@, q) {
                            if q != p {
                                assert(is_digit(s@[p as int]));
                            } else {
                                assert(is_digit(s@[i as int]));
                            }
                        }
                    }
                }
                return None;
            }
            p = i;
        } else if !('0' <= s[i] && s[i] <= '9') {
            proof {
                assert forall|q: int| !has_point_at(s@, q) by {
                    if has_point_at(s@, q) && q != i {
                        assert(is_digit(s@[i as int]));
                    }
                }
            }
            return None;
        }
        i += 1;
    }
    if n == 0 || (p < n && n == 1) {
        proof {
            assert forall|q: int| !has_point_at(s@, q) by {}
        }
        return None;
    }
    proof {
        assert(has_point_at(s@, p as int));
        lemma_point_unique(s@, p as int);
    }
    Some(p)
}

/// The value of the numeral `s` times `scale`, rounded down; `None` when `s`
/// is not a numeral or the result does not fit in a `u128`.
pub fn scale_numeral(s: &[char], scale: u128) -> (r: Option<u128>)
    requires
        scale >= 1,
        scale * 10 <= u128::MAX,
    ensures
        r matches Some(v) ==> is_numeral(s@) && v == scaled_value(s@, scale as nat),
        r is None <==> !is_numeral(s@) || scaled_value(s@, scale as nat) > u128::MAX,
{
    let n = s.len();
    let p = match find_point(s) {
        Some(p) => p,
        None => {
            return None;
        },
    };
    let ghost whole = whole_digits(s@);
    let ghost fraction = fraction_digits(s@);
    proof {
        lemma_power_positive(10, fraction.len());
        assert(scaled_value(s@, scale as nat) >= digits_value(whole) * scale);
    }
    // the whole part
    let mut acc: u128 = 0;
    let mut k: usize = 0;
    while k < p
        invariant
            p <= n == s@.len(),
            k <= p,
            whole == s@.subrange(0, p as int),
            forall|j: int| 0 <= j < p ==> is_digit(#[trigger] s@[j]),
            acc == digits_value(s@.subrange(0, k as int)),
            scaled_value(s@, scale as nat) >= digits_value(whole) * scale,
            scale >= 1,
            scale * 10 <= u128::MAX,
        decreases p - k,
    {
        assert(s@.subrange(0, k + 1).drop_last() =~= s@.subrange(0, k as int));
        assert(s@.subrange(0, k + 1).last() == s@[k as int]);
        let d = (s[k] as u32 - '0' as u32) as u128;
        let next = match acc.checked_mul(10) {
            Some(x) => x.checked_add(d),
            None => None,
        };
        match next {
            Some(x) => {
                acc = x;
            },
            None => {
                proof {
                    lemma_digits_prefix_le(whole, k + 1);
                    assert(whole.subrange(0, k + 1) =~= s@.subrange(0, k + 1));
                    assert(digits_value(whole) * scale >= digits_value(whole)) by (nonlinear_arith)
                        requires
                            scale >= 1,
                    ;
                }
                return None;
            },
        }
        k += 1;
    }
    assert(s@.subrange(0, p as int) =~= whole);
    let whole_scaled = match acc.checked_mul(scale) {
        Some(x) => x,
        None => {
            assert(scaled_value(s@, scale as nat) >= acc * scale);
            return None;
        },
    };
    // the fraction, from its last digit towards its first
    let mut t: u128 = 0;
    let mut j: usize = n;
    let start: usize = if p < n {
        p + 1
    } else {
        n
    };
    assert(fraction == s@.subrange(start as int, n as int));
    assert(s@.subrange(n as int, n as int) =~= Seq::<char>::empty());
    assert(digits_value(Seq::<char>::empty()) == 0);
    assert(power(10, 0) == 1);
    assert(0 * scale / 1 == 0);
    while j > start
        invariant
            start <= j <= n == s@.len(),
            fraction == s@.subrange(start as int, n as int),
            forall|q: int| start <= q < n ==> is_digit(#[trigger] s@[q]),
            digits_value(s@.subrange(j as int, n as int)) < power(10, (n - j) as nat),
            t == digits_value(s@.subrange(j as int, n as int)) * scale / (power(
                10,
                (n - j) as nat,
            ) as int),
            t < scale,
            scale >= 1,
            scale * 10 <= u128::MAX,
        decreases j,
    {
        let ghost tail = s@.subrange(j as int, n as int);
        j -= 1;
        let c = s[j];
        let d = (c as u32 - '0' as u32) as u128;
        proof {
            assert(s@.subrange(j as int, n as int) =~= seq![c] + tail);
            lemma_digits_prepend(c, tail);
            lemma_power_positive(10, tail.len());
            lemma_fraction_step(d as nat, digits_value(tail), scale as nat, tail.len());
            assert(d * scale + t < 10 * scale) by (nonlinear_arith)
                requires
                    d <= 9,
                    t < scale,
            ;
        }
        t = (d * scale + t) / 10;
    }
    assert(s@.subrange(j as int, n as int) == fraction);
    match whole_scaled.checked_add(t) {
        Some(v) => Some(v),
        None => None,
    }
}

} // verus!
