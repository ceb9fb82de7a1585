//! Writing numbers as decimal text.
use vstd::arithmetic::div_mod::{
    lemma_breakdown, lemma_div_multiples_vanish_fancy, lemma_fundamental_div_mod,
    lemma_hoist_over_denominator, lemma_mod_mod, lemma_mod_multiples_vanish, lemma_small_mod,
};
use vstd::prelude::*;

use crate::multiples::{lemma_power_positive, power};
use crate::numeral::{digit_value, digits_value};
use crate::text::is_digit;

verus! {

/// The ASCII digit for `d`, which is below ten.
pub open spec fn digit_char(d: nat) -> char {
    (d + '0' as nat) as char
}

/// The decimal digits of `n`, most significant first, without leading zeros
/// ("0" for zero).
pub open spec fn decimal_digits(n: nat) -> Seq<char>
    decreases n,
{
    if n < 10 {
        seq![digit_char(n)]
    } else {
        decimal_digits(n / 10).push(digit_char(n % 10))
    }
}

/// The last `width` decimal digits of `n`, most significant first, with
/// leading zeros.
pub open spec fn padded_digits(n: nat, width: nat) -> Seq<char>
    decreases width,
{
    if width == 0 {
        Seq::empty()
    } else {
        padded_digits(n / 10, (width - 1) as nat).push(digit_char(n % 10))
    }
}

/// `s` without its trailing zeros.
pub open spec fn strip_zeros(s: Seq<char>) -> Seq<char>
    decreases s.len(),
{
    if s.len() > 0 && s.last() == '0' {
        strip_zeros(s.drop_last())
    } else {
        s
    }
}

/// The ASCII digit for `d`.
fn digit(d: u128) -> (c: char)
    requires
        d < 10,
    ensures
        c == digit_char(d as nat),
{
    let b: u8 = (d as u8) + 48;
    b as char
}

/// Appends the decimal digits of `n` to `out`.
pub fn push_decimal(out: &mut Vec<char>, n: u128)
    ensures
        final(out)@ == old(out)@ + decimal_digits(n as nat),
    decreases n,
{
    if n >= 10 {
        push_decimal(out, n / 10);
    }
    out.push(digit(n % 10));
    proof {
        if n < 10 {
            assert(n % 10 == n);
        }
        assert(final(out)@ =~= old(out)@ + decimal_digits(n as nat));
    }
}

/// One step of long division: the next digit of `r / d` and what remains.
proof fn lemma_long_division_step(x: nat, d: nat, q: nat, r: nat)
    requires
        d > 0,
        x == q * d + r,
        r < d,
    ensures
        (10 * x) / d == 10 * q + (10 * r) / d,
        (10 * x) % d == (10 * r) % d,
        (10 * r) / d < 10,
{
    let y = 10 * r;
    assert(10 * x == y + (10 * q) * d) by (nonlinear_arith)
        requires
            x == q * d + r,
            y == 10 * r,
    ;
    lemma_hoist_over_denominator(y as int, (10 * q) as int, d);
    lemma_fundamental_div_mod(y as int, d as int);
    lemma_fundamental_div_mod((10 * x) as int, d as int);
    lemma_mod_multiples_vanish((10 * q) as int, y as int, d as int);
    assert((10 * q) * d == d * (10 * q)) by (nonlinear_arith);
    assert(y / d < 10) by (nonlinear_arith)
        requires
            y == 10 * r,
            r < d,
            d > 0,
    ;
}

/// The first `width` digits after the point of `r / d`, which is below one:
/// the last `width` digits of `r * 10^width / d`, with the remainder.
pub fn fraction_digits_of(r: u128, d: u128, width: usize) -> (res: (Vec<char>, u128))
    requires
        0 < d,
        r < d,
        d * 10 <= u128::MAX,
    ensures
        res.0@ == padded_digits(((r as int) * power(10, width as nat) / (d as int)) as nat, width as nat),
        res.1 as int == (r as int) * power(10, width as nat) % (d as int),
{
    let ghost dd: int = d as int;
    let mut out: Vec<char> = Vec::new();
    let mut rem: u128 = r;
    let mut i: usize = 0;
    proof {
        assert(power(10, 0) == 1);
        assert((r as int) * 1 / dd == 0) by (nonlinear_arith)
            requires
                r < dd,
                dd > 0,
        ;
        assert((r as int) * 1 % dd == r) by (nonlinear_arith)
            requires
                r < dd,
                dd > 0,
        ;
    }
    while i < width
        invariant
            dd == d as int,
            0 < d,
            r < d,
            d * 10 <= u128::MAX,
            i <= width,
            rem < d,
            out@ == padded_digits(((r as int) * power(10, i as nat) / dd) as nat, i as nat),
            rem as int == (r as int) * power(10, i as nat) % dd,
        decreases width - i,
    {
        let ghost x: int = (r as int) * power(10, i as nat);
        let ghost q: int = x / dd;
        proof {
            lemma_power_positive(10, i as nat);
            assert(x >= 0) by (nonlinear_arith)
                requires
                    x == (r as int) * power(10, i as nat),
                    power(10, i as nat) > 0,
                    r >= 0,
            ;
            lemma_fundamental_div_mod(x, dd);
            assert(q >= 0);
            assert(x == q * dd + rem) by (nonlinear_arith)
                requires
                    x == dd * (x / dd) + x % dd,
                    q == x / dd,
                    rem == x % dd,
            ;
            lemma_long_division_step(x as nat, dd as nat, q as nat, rem as nat);
            assert((r as int) * power(10, (i + 1) as nat) == 10 * x) by (nonlinear_arith)
                requires
                    power(10, (i + 1) as nat) == 10 * power(10, i as nat),
                    x == (r as int) * power(10, i as nat),
            ;
        }
        let e = (rem * 10) / d;
        out.push(digit(e));
        rem = (rem * 10) % d;
        proof {
            let y = (10 * q + e) as nat;
            assert(y / 10 == q && y % 10 == e);
            assert(out@ =~= padded_digits(y, (i + 1) as nat));
        }
        i += 1;
    }
    (out, rem)
}

/// The decimal digits of `n` are digits, at least one, and worth `n`.
pub proof fn lemma_decimal_digits(n: nat)
    ensures
        decimal_digits(n).len() >= 1,
        forall|i: int| 0 <= i < decimal_digits(n).len() ==> is_digit(#[trigger] decimal_digits(n)[i]),
        digits_value(decimal_digits(n)) == n,
    decreases n,
{
    let s = decimal_digits(n);
    if n >= 10 {
        lemma_decimal_digits(n / 10);
        assert(s.drop_last() =~= decimal_digits(n / 10));
        assert(s.last() == digit_char(n % 10));
        assert(digit_value(digit_char(n % 10)) == n % 10);
        assert(digits_value(s) == digits_value(s.drop_last()) * 10 + digit_value(s.last()));
    } else {
        assert(s.drop_last() =~= Seq::<char>::empty());
        assert(digits_value(Seq::<char>::empty()) == 0);
        assert(s.last() == digit_char(n));
        assert(digit_value(digit_char(n)) == n);
        assert(digits_value(s) == digits_value(s.drop_last()) * 10 + digit_value(s.last()));
    }
}

/// The padded digits of `n` are `width` digits worth `n` modulo ten to the
/// `width`.
pub proof fn lemma_padded_digits(n: nat, width: nat)
    ensures
        padded_digits(n, width).len() == width,
        forall|i: int| 0 <= i < width ==> is_digit(#[trigger] padded_digits(n, width)[i]),
        digits_value(padded_digits(n, width)) == n % power(10, width),
    decreases width,
{
    if width > 0 {
        let w1 = (width - 1) as nat;
        let s = padded_digits(n, width);
        lemma_padded_digits(n / 10, w1);
        assert(s.drop_last() =~= padded_digits(n / 10, w1));
        assert(digit_value(digit_char(n % 10)) == n % 10);
        lemma_power_positive(10, w1);
        lemma_breakdown(n as int, 10, power(10, w1) as int);
        assert(power(10, width) == 10 * power(10, w1));
        assert(10 * ((n / 10) % power(10, w1)) == ((n / 10) % power(10, w1)) * 10);
    } else {
        assert(n % 1 == 0);
    }
}

/// `w` digits are worth less than ten to the `w`.
pub proof fn lemma_digits_bound(s: Seq<char>)
    requires
        forall|i: int| 0 <= i < s.len() ==> is_digit(#[trigger] s[i]),
    ensures
        digits_value(s) < power(10, s.len()),
    decreases s.len(),
{
    if s.len() > 0 {
        let s1 = s.drop_last();
        assert forall|i: int| 0 <= i < s1.len() implies is_digit(#[trigger] s1[i]) by {
            assert(s1[i] == s[i]);
        }
        lemma_digits_bound(s1);
        assert(is_digit(s[s.len() - 1]));
        assert(power(10, s.len()) == 10 * power(10, s1.len()));
    } else {
        assert(power(10, 0) == 1);
    }
}

/// Digits written one after the other are worth the first's worth shifted
/// past the second, plus the second's.
pub proof fn lemma_digits_concat(a: Seq<char>, b: Seq<char>)
    ensures
        digits_value(a + b) == digits_value(a) * power(10, b.len()) + digits_value(b),
    decreases b.len(),
{
    if b.len() == 0 {
        assert(a + b =~= a);
        assert(power(10, 0) == 1);
        assert(digits_value(b) == 0);
    } else {
        let b1 = b.drop_last();
        lemma_digits_concat(a, b1);
        assert((a + b).drop_last() =~= a + b1);
        assert((a + b).last() == b.last());
        assert(power(10, b.len()) == 10 * power(10, b1.len()));
        let va = digits_value(a);
        let p = power(10, b1.len());
        assert((va * p + digits_value(b1)) * 10 + digit_value(b.last()) == va * (10 * p) + (
        digits_value(b1) * 10 + digit_value(b.last()))) by (nonlinear_arith);
    }
}

/// `w` digits worth `x` are the padded digits of `x`.
pub proof fn lemma_padded_unique(s: Seq<char>, x: nat, w: nat)
    requires
        s.len() == w,
        forall|i: int| 0 <= i < s.len() ==> is_digit(#[trigger] s[i]),
        digits_value(s) == x,
    ensures
        s == padded_digits(x, w),
    decreases w,
{
    if w > 0 {
        let s1 = s.drop_last();
        let d = digit_value(s.last());
        assert(is_digit(s[w - 1]));
        assert(d < 10);
        assert(x / 10 == digits_value(s1) && x % 10 == d);
        lemma_padded_unique(s1, x / 10, (w - 1) as nat);
        assert(digit_char(d) == s.last());
        assert(s =~= padded_digits(x / 10, (w - 1) as nat).push(digit_char(x % 10)));
    } else {
        assert(s =~= Seq::<char>::empty());
    }
}

/// `n` nines are worth ten to the `n`, less one; `n` zeros nothing.
proof fn lemma_nines_and_zeros(s: Seq<char>, c: char)
    requires
        c == '9' || c == '0',
        forall|i: int| 0 <= i < s.len() ==> #[trigger] s[i] == c,
    ensures
        c == '9' ==> digits_value(s) + 1 == power(10, s.len()),
        c == '0' ==> digits_value(s) == 0,
    decreases s.len(),
{
    if s.len() > 0 {
        lemma_nines_and_zeros(s.drop_last(), c);
        assert(s.last() == c);
    } else {
        assert(power(10, 0) == 1);
    }
}

/// Adds one to the number that the digits `s` write, keeping their count;
/// `carry` tells whether the sum no longer fits in them.
pub fn increment_digits(s: &mut Vec<char>) -> (carry: bool)
    requires
        forall|i: int| 0 <= i < old(s)@.len() ==> is_digit(#[trigger] old(s)@[i]),
    ensures
        final(s)@.len() == old(s)@.len(),
        forall|i: int| 0 <= i < final(s)@.len() ==> is_digit(#[trigger] final(s)@[i]),
        digits_value(final(s)@) + (if carry {
            power(10, old(s)@.len())
        } else {
            0
        }) == digits_value(old(s)@) + 1,
{
    let ghost start = s@;
    let n = s.len();
    let mut j: usize = n;
    while j > 0 && s[j - 1] == '9'
        invariant
            j <= n == s@.len() == start.len(),
            forall|i: int| 0 <= i < j ==> s@[i] == start[i],
            forall|i: int| j <= i < n ==> #[trigger] s@[i] == '0' && start[i] == '9',
            forall|i: int| 0 <= i < n ==> is_digit(#[trigger] start[i]),
        decreases j,
    {
        s.set(j - 1, '0');
        j -= 1;
    }
    let ghost zeros = s@.subrange(j as int, n as int);
    let ghost nines = start.subrange(j as int, n as int);
    proof {
        assert forall|i: int| 0 <= i < zeros.len() implies #[trigger] zeros[i] == '0' by {
            assert(s@[j + i] == '0');
        }
        assert forall|i: int| 0 <= i < nines.len() implies #[trigger] nines[i] == '9' by {
            assert(s@[j + i] == '0');
        }
        lemma_nines_and_zeros(zeros, '0');
        lemma_nines_and_zeros(nines, '9');
    }
    if j == 0 {
        assert(s@ =~= zeros);
        assert(start =~= nines);
        return true;
    }
    let c = s[j - 1];
    assert(c == start[j - 1] && is_digit(start[j - 1]));
    let next = digit((c as u32 - 48) as u128 + 1);
    s.set(j - 1, next);
    proof {
        let head = start.subrange(0, j - 1);
        lemma_digits_concat(head + seq![c], nines);
        lemma_digits_concat(head + seq![next], zeros);
        lemma_digits_concat(head, seq![c]);
        lemma_digits_concat(head, seq![next]);
        assert(start =~= (head + seq![c]) + nines);
        assert(s@ =~= (head + seq![next]) + zeros);
        assert(digits_value(seq![c]) == digit_value(c)) by {
            assert(seq![c].drop_last() =~= Seq::<char>::empty());
            assert(seq![c].last() == c);
            assert(digits_value(Seq::<char>::empty()) == 0);
        }
        assert(digits_value(seq![next]) == digit_value(next)) by {
            assert(seq![next].drop_last() =~= Seq::<char>::empty());
            assert(seq![next].last() == next);
            assert(digits_value(Seq::<char>::empty()) == 0);
        }
        assert(power(10, 0) == 1);
        assert(power(10, 1) == 10);
        let p = power(10, nines.len());
        let vh = digits_value(head);
        assert((vh * 10 + digit_value(c) + 1) * p == (vh * 10 + digit_value(c)) * p + p)
            by (nonlinear_arith);
        assert forall|i: int| 0 <= i < s@.len() implies is_digit(#[trigger] s@[i]) by {
            if i < j - 1 {
                assert(s@[i] == start[i]);
            }
        }
    }
    false
}

/// `amount / d` times ten to the `places`, rounded to a whole number: to
/// the nearest one, and to the even one of two that are equally near.
pub open spec fn rounded(amount: nat, d: nat, places: nat) -> nat {
    let x = amount * power(10, places);
    let q = x / d;
    let r = x % d;
    if 2 * r > d || (2 * r == d && q % 2 == 1) {
        q + 1
    } else {
        q
    }
}

/// Whether the digit `c` is odd.
fn odd_digit(c: char) -> (r: bool)
    requires
        is_digit(c),
    ensures
        r == (digit_value(c) % 2 == 1),
{
    c == '1' || c == '3' || c == '5' || c == '7' || c == '9'
}

/// `amount / d` rounded to `places` digits after the point: its whole part
/// and those digits.
pub fn rounded_parts(amount: u128, d: u128, places: usize) -> (res: (u128, Vec<char>))
    requires
        2 <= d,
        d * 10 <= u128::MAX,
    ensures
        res.0 == rounded(amount as nat, d as nat, places as nat) / power(10, places as nat),
        res.1@ == padded_digits(
            rounded(amount as nat, d as nat, places as nat) % power(10, places as nat),
            places as nat,
        ),
{
    let mut whole = amount / d;
    let rest = amount % d;
    let (mut digits, rem) = fraction_digits_of(rest, d, places);
    let ghost p: nat = places as nat;
    let ghost ten_p: int = power(10, p) as int;
    let ghost f: int = (rest as int) * ten_p / (d as int);
    let ghost x: int = (amount as int) * ten_p;
    let ghost q: int = x / (d as int);
    proof {
        lemma_power_positive(10, p);
        lemma_fundamental_div_mod(amount as int, d as int);
        lemma_fundamental_div_mod((rest as int) * ten_p, d as int);
        assert((rest as int) * ten_p >= 0) by (nonlinear_arith)
            requires
                rest >= 0,
                ten_p > 0,
        ;
        assert(x == (rest as int) * ten_p + ((whole as int) * ten_p) * (d as int))
            by (nonlinear_arith)
            requires
                x == (amount as int) * ten_p,
                amount == (d as int) * (whole as int) + (rest as int),
        ;
        lemma_hoist_over_denominator((rest as int) * ten_p, (whole as int) * ten_p, d as nat);
        assert(q == f + (whole as int) * ten_p);
        lemma_mod_multiples_vanish((whole as int) * ten_p, (rest as int) * ten_p, d as int);
        assert(((whole as int) * ten_p) * (d as int) == (d as int) * ((whole as int) * ten_p))
            by (nonlinear_arith);
        assert(x % (d as int) == rem);
        assert(f < ten_p) by (nonlinear_arith)
            requires
                (rest as int) * ten_p == (d as int) * f + ((rest as int) * ten_p) % (d as int),
                ((rest as int) * ten_p) % (d as int) >= 0,
                rest < d,
                ten_p > 0,
                d > 0,
        ;
        assert(f >= 0);
        lemma_padded_digits(f as nat, p);
        lemma_small_mod(f as nat, ten_p as nat);
    }
    let odd = if places > 0 {
        odd_digit(digits[places - 1])
    } else {
        whole % 2 == 1
    };
    proof {
        if places > 0 {
            let p1 = (p - 1) as nat;
            assert(ten_p == 10 * power(10, p1));
            assert((whole as int) * ten_p == 2 * ((whole as int) * 5 * power(10, p1)))
                by (nonlinear_arith)
                requires
                    ten_p == 10 * power(10, p1),
            ;
            lemma_mod_multiples_vanish((whole as int) * 5 * power(10, p1), f, 2);
            assert(q == 2 * ((whole as int) * 5 * power(10, p1)) + f);
            assert(q % 2 == f % 2);
            assert(digits@[places - 1] == digit_char((f % 10) as nat));
            lemma_mod_mod(f, 2, 5);
            assert((f % 10) % 2 == f % 2);
            assert(digit_value(digit_char((f % 10) as nat)) == f % 10);
        } else {
            assert(ten_p == 1);
            assert(f == 0);
            assert((whole as int) * ten_p == whole) by (nonlinear_arith)
                requires
                    ten_p == 1,
            ;
        }
        assert(odd == (q % 2 == 1));
    }
    let ghost w0: int = whole as int;
    assert(w0 < u128::MAX) by (nonlinear_arith)
        requires
            amount == (d as int) * w0 + (rest as int),
            d >= 2,
            rest >= 0,
            w0 >= 0,
            amount <= u128::MAX,
    ;
    if rem * 2 > d || (rem * 2 == d && odd) {
        let ghost before = digits@;
        let carry = increment_digits(&mut digits);
        proof {
            lemma_digits_bound(digits@);
            lemma_padded_unique(digits@, digits_value(digits@), p);
        }
        if carry {
            whole = whole + 1;
            proof {
                assert(digits_value(before) == f);
                assert(digits_value(digits@) == 0);
                assert(f + 1 == ten_p);
                assert(q + 1 == ten_p * (whole as int)) by (nonlinear_arith)
                    requires
                        q == f + w0 * ten_p,
                        f + 1 == ten_p,
                        whole == w0 + 1,
                ;
                lemma_div_multiples_vanish_fancy(whole as int, 0, ten_p);
                lemma_mod_multiples_vanish(whole as int, 0, ten_p);
            }
        } else {
            proof {
                assert(digits_value(before) == f);
                assert(q + 1 == ten_p * (whole as int) + (f + 1)) by (nonlinear_arith)
                    requires
                        q == f + w0 * ten_p,
                        whole == w0,
                ;
                lemma_div_multiples_vanish_fancy(whole as int, f + 1, ten_p);
                lemma_mod_multiples_vanish(whole as int, f + 1, ten_p);
                lemma_small_mod((f + 1) as nat, ten_p as nat);
            }
        }
    } else {
        proof {
            assert(q == ten_p * (whole as int) + f) by (nonlinear_arith)
                requires
                    q == f + w0 * ten_p,
                    whole == w0,
            ;
            lemma_div_multiples_vanish_fancy(whole as int, f, ten_p);
            lemma_mod_multiples_vanish(whole as int, f, ten_p);
        }
    }
    (whole, digits)
}

/// Relies on `String::push`: appends the character to the end of the string.
#[verifier::external_body]
fn push_char(s: &mut String, c: char)
    ensures
        final(s)@ == old(s)@.push(c),
{
    s.push(c)
}

/// The string of the characters `chars`.
pub fn string_of(chars: &Vec<char>) -> (r: String)
    ensures
        r@ == chars@,
{
    let mut r = String::new();
    let mut i: usize = 0;
    while i < chars.len()
        invariant
            i <= chars@.len(),
            r@ == chars@.subrange(0, i as int),
        decreases chars@.len() - i,
    {
        push_char(&mut r, chars[i]);
        i += 1;
        assert(r@ =~= chars@.subrange(0, i as int));
    }
    assert(chars@.subrange(0, i as int) =~= chars@);
    r
}

/// Removes the trailing zeros of `s`.
pub fn strip_trailing_zeros(s: &mut Vec<char>)
    ensures
        final(s)@ == strip_zeros(old(s)@),
{
    while s.len() > 0 && s[s.len() - 1] == '0'
        invariant
            strip_zeros(s@) == strip_zeros(old(s)@),
        decreases s.len(),
    {
        let ghost before = s@;
        s.pop();
        proof {
            assert(s@ =~= before.drop_last());
        }
    }
}

} // verus!
