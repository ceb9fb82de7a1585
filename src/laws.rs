//! Properties that relate several operations of the library.
use vstd::arithmetic::div_mod::{
    lemma_div_multiples_vanish, lemma_fundamental_div_mod, lemma_small_mod,
};
use vstd::arithmetic::mul::lemma_mul_equality_converse;
use vstd::prelude::*;

use crate::error::ParsingError;
use crate::format::{
    decimal_digits, lemma_decimal_digits, lemma_padded_digits, padded_digits, strip_zeros,
};
use crate::multiples::{lemma_bytes_range, lemma_names_unique, lemma_power_positive, power, Any};
use crate::numeral::{
    all_zero, digit_value, digits_value, fraction_digits, has_point_at, is_numeral,
    lemma_numeral_prefix_len, lemma_point_unique, numeral_prefix_len, point_of, scaled_value,
    whole_digits,
};
use crate::text::{
    is_digit, is_white_space, lemma_trim_end_unique, lemma_trim_start_unique, trimmed,
};
use crate::{
    amount_of, display_text, magnitude_text, named_unit, parsed, representable, within_margin,
    Multiple, SpecificSize,
};

verus! {

/// Digits that are all zeros are worth nothing.
proof fn lemma_zeros_value(s: Seq<char>)
    requires
        forall|i: int| 0 <= i < s.len() ==> #[trigger] s[i] == '0',
    ensures
        digits_value(s) == 0,
    decreases s.len(),
{
    if s.len() > 0 {
        lemma_zeros_value(s.drop_last());
    }
}

/// Powers of one base multiply by adding their exponents.
proof fn lemma_power_add(b: nat, x: nat, y: nat)
    ensures
        power(b, x + y) == power(b, x) * power(b, y),
    decreases y,
{
    if y > 0 {
        let y1 = (y - 1) as nat;
        lemma_power_add(b, x, y1);
        assert(power(b, x + y) == b * power(b, x + y1));
        assert(power(b, y) == b * power(b, y1));
        assert(b * (power(b, x) * power(b, y1)) == power(b, x) * (b * power(b, y1)))
            by (nonlinear_arith);
    } else {
        assert(power(b, 0) == 1);
        assert(x + y == x);
    }
}

/// A power of a thousand is a power of ten.
proof fn lemma_thousands(e: nat)
    ensures
        power(1000, e) == power(10, 3 * e),
    decreases e,
{
    if e > 0 {
        let e1 = (e - 1) as nat;
        lemma_thousands(e1);
        lemma_power_add(10, 3 * e1, 3);
        reveal_with_fuel(power, 4);
        assert(3 * e == 3 * e1 + 3);
    }
}

/// Ten to the power of ten times `e` is a power of 1024 times a power of
/// 9765625, five to the tenth.
proof fn lemma_tens_binary(e: nat)
    ensures
        power(10, 10 * e) == power(1024, e) * power(9765625, e),
    decreases e,
{
    if e > 0 {
        let e1 = (e - 1) as nat;
        lemma_tens_binary(e1);
        lemma_power_add(10, 10 * e1, 10);
        reveal_with_fuel(power, 11);
        assert(10 * e == 10 * e1 + 10);
        let a = power(1024, e1);
        let b = power(9765625, e1);
        assert(power(1024, e) == 1024 * a);
        assert(power(9765625, e) == 9765625 * b);
        assert(power(10, 10) == 10000000000);
        assert(10000000000 * (a * b) == (1024 * a) * (9765625 * b)) by (nonlinear_arith);
    } else {
        assert(power(10, 0) == 1 && power(1024, 0) == 1 && power(9765625, 0) == 1);
    }
}

/// The billionths of a byte in a multiple divide ten to the power of its
/// fraction places: `c` is the quotient.
proof fn lemma_nanobytes_divide(u: Any) -> (c: nat)
    ensures
        u.nanobytes() * c == power(10, u.fraction_places()),
        c > 0,
{
    let e = u.exponent();
    reveal_with_fuel(power, 10);
    assert(power(10, 9) == 1_000_000_000);
    if u.is_binary() {
        lemma_tens_binary(e);
        lemma_power_add(10, 9, 10 * e);
        lemma_power_positive(9765625, e);
        let c = power(9765625, e);
        assert(u.fraction_places() == 9 + 10 * e);
        assert(power(1024, e) * 1_000_000_000 * c == 1_000_000_000 * (power(1024, e) * c))
            by (nonlinear_arith);
        c
    } else {
        lemma_thousands(e);
        lemma_power_add(10, 9, 3 * e);
        assert(u.fraction_places() == 9 + 3 * e);
        1
    }
}

/// Stripping trailing zeros keeps a prefix, whose last digit is not a zero,
/// and divides the worth by a power of ten.
proof fn lemma_strip_zeros(s: Seq<char>)
    ensures
        strip_zeros(s).len() <= s.len(),
        strip_zeros(s) == s.subrange(0, strip_zeros(s).len() as int),
        strip_zeros(s).len() > 0 ==> strip_zeros(s).last() != '0',
        digits_value(s) == digits_value(strip_zeros(s)) * power(
            10,
            (s.len() - strip_zeros(s).len()) as nat,
        ),
    decreases s.len(),
{
    let t = strip_zeros(s);
    if s.len() > 0 && s.last() == '0' {
        lemma_strip_zeros(s.drop_last());
        assert(t == strip_zeros(s.drop_last()));
        assert(digits_value(s) == digits_value(s.drop_last()) * 10 + digit_value(s.last()));
        let z = (s.drop_last().len() - t.len()) as nat;
        assert(t =~= s.subrange(0, t.len() as int));
        assert(power(10, z + 1) == 10 * power(10, z));
        assert(s.len() - t.len() == z + 1);
        assert(digit_value('0') == 0);
        assert((digits_value(t) * power(10, z)) * 10 == digits_value(t) * (10 * power(10, z)))
            by (nonlinear_arith);
        assert(digits_value(s.drop_last()) == digits_value(t) * power(10, z));
        assert(digits_value(s) == digits_value(t) * power(10, z + 1));
    } else {
        assert(t == s);
        assert(s =~= s.subrange(0, s.len() as int));
        assert(power(10, 0) == 1);
        assert(digits_value(s) == digits_value(t) * power(10, 0));
    }
}

/// Digits whose last is not a zero are worth at least one.
proof fn lemma_nonzero_last(s: Seq<char>)
    requires
        s.len() > 0,
        is_digit(s.last()),
        s.last() != '0',
    ensures
        digits_value(s) >= 1,
{
}

/// The tokens of the multiples start with a letter and end with 'B'.
proof fn lemma_token_shape(u: Any)
    ensures
        u.token().len() >= 1,
        !is_white_space(u.token()[0]),
        !is_digit(u.token()[0]) && u.token()[0] != '.',
        u.token().last() == 'B',
{
    match u {
        Any::Byte => {},
        Any::Kilobyte => {},
        Any::Megabyte => {},
        Any::Gigabyte => {},
        Any::Terabyte => {},
        Any::Petabyte => {},
        Any::Exabyte => {},
        Any::Zettabyte => {},
        Any::Yottabyte => {},
        Any::Kibibyte => {},
        Any::Mebibyte => {},
        Any::Gigibyte => {},
        Any::Tebibyte => {},
        Any::Pebibyte => {},
        Any::Exbibyte => {},
        Any::Zebibyte => {},
        Any::Yobibyte => {},
    }
}

/// The magnitude text of an amount is a numeral whose scaled value in its
/// multiple is the amount itself, and which writes a zero only for zero.
proof fn lemma_magnitude_text(amount: nat, unit: Any)
    ensures
        is_numeral(magnitude_text(amount, unit)),
        magnitude_text(amount, unit).len() >= 1,
        is_digit(magnitude_text(amount, unit)[0]),
        forall|i: int|
            0 <= i < magnitude_text(amount, unit).len() ==> is_digit(
                #[trigger] magnitude_text(amount, unit)[i],
            ) || magnitude_text(amount, unit)[i] == '.',
        scaled_value(magnitude_text(amount, unit), unit.nanobytes()) == amount,
        amount == 0 ==> all_zero(magnitude_text(amount, unit)),
{
    let d = unit.nanobytes();
    let k = unit.fraction_places();
    let whole = amount / d;
    let rest = amount % d;
    let ten_k = power(10, k);
    let f = rest * ten_k / d;
    let padded = padded_digits(f, k);
    let fr = strip_zeros(padded);
    let wd = decimal_digits(whole);
    let m = magnitude_text(amount, unit);
    lemma_bytes_range(unit);
    let c = lemma_nanobytes_divide(unit);
    lemma_power_positive(10, k);
    lemma_fundamental_div_mod(amount as int, d as int);
    // the fraction is exact: d divides rest * 10^k
    assert(rest * ten_k == d * (rest * c)) by (nonlinear_arith)
        requires
            d * c == ten_k,
    ;
    lemma_div_multiples_vanish((rest * c) as int, d as int);
    assert(f == rest * c);
    assert(f < ten_k) by (nonlinear_arith)
        requires
            f == rest * c,
            rest < d,
            d * c == ten_k,
            c > 0,
    ;
    lemma_padded_digits(f, k);
    lemma_small_mod(f, ten_k);
    lemma_strip_zeros(padded);
    let lf = fr.len();
    let z = (k - lf) as nat;
    lemma_power_add(10, lf, z);
    lemma_power_positive(10, z);
    lemma_power_positive(10, lf);
    let vf = digits_value(fr);
    assert(power(10, z) * (d * vf) == power(10, z) * (rest * power(10, lf))) by (nonlinear_arith)
        requires
            f == vf * power(10, z),
            d * f == rest * ten_k,
            ten_k == power(10, lf) * power(10, z),
    ;
    lemma_mul_equality_converse(power(10, z) as int, (d * vf) as int, (rest * power(10, lf)) as int);
    lemma_div_multiples_vanish(rest as int, power(10, lf) as int);
    assert(vf * d / power(10, lf) == rest) by {
        assert(vf * d == power(10, lf) * rest) by (nonlinear_arith)
            requires
                d * vf == rest * power(10, lf),
        ;
    }
    lemma_decimal_digits(whole);
    // the numeral and its point
    let p: int = if lf == 0 {
        m.len() as int
    } else {
        wd.len() as int
    };
    if lf == 0 {
        assert(m =~= wd);
    } else {
        assert(m =~= wd + (seq!['.'] + fr));
        assert forall|i: int| 0 <= i < fr.len() implies is_digit(#[trigger] fr[i]) by {
            assert(fr[i] == padded[i]);
        }
    }
    assert forall|i: int| 0 <= i < m.len() && i != p implies is_digit(#[trigger] m[i]) by {
        if i < wd.len() {
            assert(m[i] == wd[i]);
        } else {
            assert(m[i] == fr[i - wd.len() - 1]);
        }
    }
    assert(has_point_at(m, p));
    lemma_point_unique(m, p);
    assert(whole_digits(m) =~= wd);
    assert(fraction_digits(m) =~= fr);
    assert(scaled_value(m, d) == whole * d + rest) by {
        assert(scaled_value(m, d) == digits_value(wd) * d + vf * d / power(10, lf));
    }
    assert(whole * d + rest == amount) by (nonlinear_arith)
        requires
            amount == d * whole + rest,
    ;
    if amount == 0 {
        assert(whole == 0);
        assert(rest == 0);
        if lf > 0 {
            assert(is_digit(fr.last())) by {
                assert(fr.last() == padded[lf - 1]);
            }
            lemma_nonzero_last(fr);
            assert(f == 0) by (nonlinear_arith)
                requires
                    f == rest * c,
                    rest == 0,
            ;
            assert(vf * power(10, z) >= 1) by (nonlinear_arith)
                requires
                    vf >= 1,
                    power(10, z) > 0,
            ;
        }
        assert(m =~= seq!['0']);
    }
}

/// The text of a size has no white space around it; its numeral is its
/// magnitude text, and what follows, trimmed, is its multiple's token.
proof fn lemma_display_parts(amount: nat, unit: Any)
    ensures
        trimmed(display_text(amount, unit)) == display_text(amount, unit),
        numeral_prefix_len(display_text(amount, unit)) == magnitude_text(amount, unit).len(),
        display_text(amount, unit).subrange(0, magnitude_text(amount, unit).len() as int)
            == magnitude_text(amount, unit),
        trimmed(
            display_text(amount, unit).subrange(
                magnitude_text(amount, unit).len() as int,
                display_text(amount, unit).len() as int,
            ),
        ) == unit.token(),
        magnitude_text(amount, unit).len() < display_text(amount, unit).len(),
{
    let m = magnitude_text(amount, unit);
    let token = unit.token();
    let text = display_text(amount, unit);
    lemma_magnitude_text(amount, unit);
    lemma_token_shape(unit);
    assert(text =~= m + (seq![' '] + token));
    let n = text.len() as int;
    // no white space around the text
    assert(text[0] == m[0]);
    lemma_trim_start_unique(text, 0);
    let after = text.subrange(0, n);
    assert(after =~= text);
    assert(text[n - 1] == token.last());
    lemma_trim_end_unique(text, n);
    assert(trimmed(text) =~= text);
    // the numeral ends at the space
    assert forall|i: int| 0 <= i < m.len() implies is_digit(#[trigger] text[i]) || text[i] == '.' by {
        assert(text[i] == m[i]);
    }
    lemma_numeral_prefix_len(text, m.len() as int);
    assert(text.subrange(0, m.len() as int) =~= m);
    // the token, trimmed of the space before it
    let unit_part = text.subrange(m.len() as int, n);
    assert(unit_part =~= seq![' '] + token);
    lemma_trim_start_unique(unit_part, 1);
    let unit_rest = unit_part.subrange(1, unit_part.len() as int);
    assert(unit_rest =~= token);
    lemma_trim_end_unique(token, token.len() as int);
    assert(trimmed(unit_part) =~= token);
}

/// Formatting a size of any amount and parsing the text back gives the
/// same amount in the same multiple.
proof fn lemma_display_round_trip(amount: nat, unit: Any)
    requires
        amount <= u128::MAX,
    ensures
        parsed(display_text(amount, unit)) == Ok::<(nat, Any), ParsingError>((amount, unit)),
{
    let token = unit.token();
    lemma_display_parts(amount, unit);
    lemma_magnitude_text(amount, unit);
    assert(unit.is_named_by(token));
    lemma_names_unique(unit, named_unit(token), token);
}

/// For every multiple and every magnitude that makes a size in it,
/// formatting that size and parsing the text back gives a size of the same
/// amount in the same multiple, which is equal to it under `==`.
pub proof fn lemma_round_trip(value: Seq<char>, unit: Any)
    requires
        representable(value, unit),
    ensures
        parsed(display_text(amount_of(value, unit), unit)) == Ok::<(nat, Any), ParsingError>(
            (amount_of(value, unit), unit),
        ),
        within_margin(amount_of(value, unit), amount_of(value, unit), unit),
{
    lemma_display_round_trip(amount_of(value, unit), unit);
    lemma_bytes_range(unit);
}

/// Converting a size to any multiple and converting the result back to
/// the first multiple gives the size back: the conversions never change the
/// amount, so the two are the same size, and equal under the margin of `==`.
pub proof fn lemma_conversion_identity<M: Multiple>(
    size: SpecificSize<M>,
    multiple: Any,
    there: SpecificSize<Any>,
    back: SpecificSize<Any>,
)
    requires
        there.amount() == size.amount(),
        there.unit() == multiple,
        back.amount() == there.amount(),
        back.unit() == size.unit(),
    ensures
        back.amount() == size.amount(),
        back.unit() == size.unit(),
        within_margin(back.amount(), size.amount(), size.unit()),
{
    lemma_bytes_range(size.unit());
}

/// In every multiple, a zero written as a numeral ("0", "0.0", ".000")
/// makes a size, of zero bytes.
pub proof fn lemma_zero_accepted(value: Seq<char>, unit: Any)
    requires
        is_numeral(value),
        all_zero(value),
    ensures
        representable(value, unit),
        amount_of(value, unit) == 0,
{
    let p = point_of(value);
    let whole = whole_digits(value);
    let fraction = fraction_digits(value);
    assert forall|i: int| 0 <= i < whole.len() implies #[trigger] whole[i] == '0' by {
        assert(whole[i] == value[i]);
        assert(is_digit(value[i]));
    }
    assert forall|i: int| 0 <= i < fraction.len() implies #[trigger] fraction[i] == '0' by {
        assert(fraction[i] == value[p + 1 + i]);
        assert(is_digit(value[p + 1 + i]));
    }
    lemma_zeros_value(whole);
    lemma_zeros_value(fraction);
    crate::multiples::lemma_power_positive(10, fraction.len());
}

/// In every multiple, text that is not a decimal numeral, such as "NaN",
/// "inf" or "-inf", makes no size.
pub proof fn lemma_non_numeral_rejected(value: Seq<char>, unit: Any)
    requires
        !is_numeral(value),
    ensures
        !representable(value, unit),
{
}

} // verus!
