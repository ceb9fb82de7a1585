//! Sizes in bytes, tagged with a multiple such as kilobyte or mebibyte.
//!
//! A size can be parsed from text ("10 kB"), formatted back to text,
//! converted to another multiple and compared with a size in any other
//! multiple. Sizes are stored exactly, as a whole number of billionths of a
//! byte, so that converting between multiples never loses anything.
//!
//! Magnitudes are written as decimal numerals: `SpecificSize::new("1.5",
//! Kilobyte)` is one and a half kilobytes.
use std::cmp::Ordering;

use vstd::prelude::*;
use vstd::slice::slice_subrange;

pub mod error;
pub mod format;
pub mod laws;
pub mod multiples;
pub mod numeral;
pub mod text;

pub use error::{InvalidValueError, ParsingError};
pub use multiples::{
    Any, Byte, Exabyte, Exbibyte, Gigabyte, Gigibyte, Kibibyte, Kilobyte, Mebibyte, Megabyte,
    Pebibyte, Petabyte, Tebibyte, Terabyte, Yobibyte, Yottabyte, Zebibyte, Zettabyte,
};

use format::{
    decimal_digits, fraction_digits_of, padded_digits, push_decimal, rounded, rounded_parts,
    string_of, strip_trailing_zeros, strip_zeros,
};
use multiples::power;
use numeral::{
    all_zero, find_point, is_all_zero, is_numeral, numeral_prefix, numeral_prefix_len,
    scale_numeral, scaled_value,
};
use text::{chars_of, trim_bounds, trimmed};

verus! {

/// Size with a generic multiple, known at run time.
pub type Size = SpecificSize<Any>;

/// A size in bytes with a multiple.
///
/// The size is held exactly, in billionths of a byte; the multiple says in
/// which unit it is read and written. Sizes with different multiples can be
/// compared: equality ignores a difference of less than `0.00000001` of the
/// right-hand multiple.
#[derive(Clone, Copy, Debug)]
pub struct SpecificSize<M = Any> {
    nanobytes: u128,
    multiple: M,
}

/// A non-negative rational number, `numerator / denominator`.
#[derive(Clone, Copy, Debug, PartialEq, Eq)]
pub struct Fraction {
    pub numerator: u128,
    pub denominator: u128,
}

/// Converts a size to and from the generic multiple `Any`, so that sizes of
/// different multiples can be compared and converted.
pub trait Multiple: Sized + Copy {
    /// The multiple that this value stands for.
    spec fn as_any(self) -> Any;

    /// The multiple that a size in `multiple` takes when it is converted to
    /// this type.
    spec fn converted(multiple: Any) -> Any;

    /// The multiple that this value stands for.
    fn to_any(self) -> (r: Any)
        ensures
            r == self.as_any(),
    ;

    /// Creates a size of this type from an amount in billionths of a byte
    /// and the multiple it was expressed in.
    fn from_any(nanobytes: u128, multiple: Any) -> (r: SpecificSize<Self>)
        ensures
            r.amount() == nanobytes,
            r.spec_multiple().as_any() == Self::converted(multiple),
    ;

    /// The opposite of `from_any`: the amount of `size` in billionths of a
    /// byte, and its multiple.
    fn into_any(size: SpecificSize<Self>) -> (r: (u128, Any))
        ensures
            r.0 == size.amount(),
            r.1 == size.spec_multiple().as_any(),
    ;
}

/// Whether the numeral `value`, read in the multiple `unit`, can be held by
/// a size: it is a numeral, its amount in billionths of a byte fits in a
/// `u128`, and a non-zero value does not fall below one billionth of a byte.
pub open spec fn representable(value: Seq<char>, unit: Any) -> bool {
    &&& is_numeral(value)
    &&& amount_of(value, unit) <= u128::MAX
    &&& (amount_of(value, unit) == 0 ==> all_zero(value))
}

/// The amount, in billionths of a byte and rounded down, of the numeral
/// `value` read in the multiple `unit`.
pub open spec fn amount_of(value: Seq<char>, unit: Any) -> nat {
    scaled_value(value, unit.nanobytes())
}

/// Whether two amounts, in billionths of a byte, read in the multiple `unit`
/// differ by less than `0.00000001`.
pub open spec fn within_margin(left: nat, right: nat, unit: Any) -> bool {
    let diff = if left >= right {
        left - right
    } else {
        right - left
    };
    diff * 100_000_000 < unit.nanobytes()
}

/// The magnitude `amount / unit.nanobytes()` written exactly in decimal:
/// the whole part, then, where the fraction is not zero, a point and the
/// fraction's digits without trailing zeros.
pub open spec fn magnitude_text(amount: nat, unit: Any) -> Seq<char> {
    let d = unit.nanobytes();
    let places = unit.fraction_places();
    let fraction = strip_zeros(padded_digits((amount % d) * power(10, places) / d, places));
    decimal_digits(amount / d) + if fraction.len() == 0 {
        Seq::empty()
    } else {
        seq!['.'] + fraction
    }
}

/// The text of a size: its magnitude, a space and its multiple's token.
pub open spec fn display_text(amount: nat, unit: Any) -> Seq<char> {
    magnitude_text(amount, unit) + seq![' '] + unit.token()
}

/// The magnitude `amount / unit.nanobytes()` rounded to `places` digits
/// after the point (to the nearest, ties to even), written with exactly that
/// many digits after the point, and no point when `places` is zero.
pub open spec fn rounded_magnitude_text(amount: nat, unit: Any, places: nat) -> Seq<char> {
    let n = rounded(amount, unit.nanobytes(), places);
    let p = power(10, places);
    decimal_digits(n / p) + if places == 0 {
        Seq::empty()
    } else {
        seq!['.'] + padded_digits(n % p, places)
    }
}

/// The multiple that the text `t` names, where one does.
pub open spec fn named_unit(t: Seq<char>) -> Any {
    choose|u: Any| u.is_named_by(t)
}

/// What parsing the text `s` gives: the amount in billionths of a byte and
/// the multiple written in the text, or the error.
///
/// The text is a numeral and a multiple's token, with white space around
/// both. The numeral ends at the first character that is neither a digit
/// nor '.'; everything after it, trimmed, must be a token.
pub open spec fn parsed(s: Seq<char>) -> Result<(nat, Any), ParsingError> {
    let t = trimmed(s);
    let k = numeral_prefix_len(t);
    let value = t.subrange(0, k);
    let unit_text = trimmed(t.subrange(k, t.len() as int));
    if t.len() == 0 {
        Err(ParsingError::EmptyInput)
    } else if k == t.len() {
        Err(ParsingError::MissingMultiple)
    } else if k == 0 {
        Err(ParsingError::MissingValue)
    } else if !is_numeral(value) {
        Err(ParsingError::InvalidValue)
    } else if forall|u: Any| !u.is_named_by(unit_text) {
        Err(ParsingError::InvalidMultiple)
    } else if !representable(value, named_unit(unit_text)) {
        Err(ParsingError::InvalidValue)
    } else {
        Ok((amount_of(value, named_unit(unit_text)), named_unit(unit_text)))
    }
}

/// The amount of the numeral `value` read in the multiple `unit`, in
/// billionths of a byte, where it can be held.
fn amount_in(value: &[char], unit: Any) -> (r: Option<u128>)
    ensures
        r is Some <==> representable(value@, unit),
        r matches Some(a) ==> a == amount_of(value@, unit),
{
    let per_unit = unit.nanobytes_per_unit();
    match scale_numeral(value, per_unit) {
        Some(amount) => {
            if amount == 0 && !is_all_zero(value) {
                None
            } else {
                Some(amount)
            }
        },
        None => None,
    }
}

impl<M> SpecificSize<M> {
    /// The size in billionths of a byte.
    pub closed spec fn amount(self) -> nat {
        self.nanobytes as nat
    }

    /// The multiple of the size.
    pub closed spec fn spec_multiple(self) -> M {
        self.multiple
    }
}

impl<M: Multiple> SpecificSize<M> {
    /// The multiple of the size, as `Any`.
    pub open spec fn unit(self) -> Any {
        self.spec_multiple().as_any()
    }

    /// Creates a size from the decimal numeral `value` read in `multiple`.
    ///
    /// Fails when `value` is not a numeral (digits with at most one '.'),
    /// when the size does not fit, and when a non-zero value is smaller than
    /// one billionth of a byte. A value with more precision than that is
    /// rounded down to it.
    pub fn new(value: &str, multiple: M) -> (r: Result<SpecificSize<M>, InvalidValueError>)
        ensures
            r is Ok <==> representable(value@, multiple.as_any()),
            r matches Ok(size) ==> size.amount() == amount_of(value@, multiple.as_any())
                && size.spec_multiple() == multiple,
    {
        let chars = chars_of(value);
        match amount_in(chars.as_slice(), multiple.to_any()) {
            Some(nanobytes) => Ok(SpecificSize { nanobytes, multiple }),
            None => Err(InvalidValueError),
        }
    }

    /// Converts the size to another multiple; the size itself is unchanged.
    pub fn into<M2: Multiple>(self) -> (r: SpecificSize<M2>)
        ensures
            r.amount() == self.amount(),
            r.unit() == M2::converted(self.unit()),
    {
        let (nanobytes, any) = M::into_any(self);
        M2::from_any(nanobytes, any)
    }

    /// Converts the size to the multiple `multiple`, known at run time; the
    /// size itself is unchanged.
    pub fn convert_to(self, multiple: Any) -> (r: Size)
        ensures
            r.amount() == self.amount(),
            r.unit() == multiple,
    {
        let (nanobytes, _) = M::into_any(self);
        Any::from_any(nanobytes, multiple)
    }

    /// The size in its multiple, as an exact fraction.
    pub fn value(self) -> (r: Fraction)
        ensures
            r.numerator == self.amount(),
            r.denominator == self.unit().nanobytes(),
    {
        let (nanobytes, any) = M::into_any(self);
        Fraction { numerator: nanobytes, denominator: any.nanobytes_per_unit() }
    }

    /// The multiple of the size.
    pub fn multiple(self) -> (r: M)
        ensures
            r == self.spec_multiple(),
    {
        self.multiple
    }

    /// The size as text, e.g. "1.5 kB": the exact magnitude in its multiple,
    /// a space and the multiple's token.
    pub fn to_string(&self) -> (r: String)
        ensures
            r@ == display_text(self.amount(), self.unit()),
    {
        let (amount, unit) = M::into_any(*self);
        let d = unit.nanobytes_per_unit();
        let mut out: Vec<char> = Vec::new();
        push_decimal(&mut out, amount / d);
        let (mut fraction, _) = fraction_digits_of(amount % d, d, unit.places());
        strip_trailing_zeros(&mut fraction);
        if fraction.len() > 0 {
            out.push('.');
            out.append(&mut fraction);
        }
        out.push(' ');
        let mut r = string_of(&out);
        r.append(unit.as_str());
        proof {
            assert(r@ =~= display_text(self.amount(), self.unit()));
        }
        r
    }

    /// The size as text with its magnitude rounded to `precision` digits
    /// after the point, e.g. "1.1235 B" for a precision of four.
    pub fn to_string_with_precision(&self, precision: usize) -> (r: String)
        ensures
            r@ == rounded_magnitude_text(self.amount(), self.unit(), precision as nat) + seq![' ']
                + self.unit().token(),
    {
        let (amount, unit) = M::into_any(*self);
        let d = unit.nanobytes_per_unit();
        let (whole, mut digits) = rounded_parts(amount, d, precision);
        let mut out: Vec<char> = Vec::new();
        push_decimal(&mut out, whole);
        if precision > 0 {
            out.push('.');
            out.append(&mut digits);
        }
        out.push(' ');
        let mut r = string_of(&out);
        r.append(unit.as_str());
        proof {
            assert(r@ =~= rounded_magnitude_text(self.amount(), self.unit(), precision as nat)
                + seq![' '] + self.unit().token());
        }
        r
    }

    /// Parses a size from text such as "10 kB" or "1.5KiB", see `parsed`.
    pub fn from_str(input: &str) -> (r: Result<SpecificSize<M>, ParsingError>)
        ensures
            r matches Ok(size) ==> parsed(input@) matches Ok((amount, unit)) && size.amount()
                == amount && size.unit() == M::converted(unit),
            r matches Err(e) ==> parsed(input@) == Err::<(nat, Any), ParsingError>(e),
    {
        let chars = chars_of(input);
        let (start, end) = trim_bounds(chars.as_slice());
        let t = slice_subrange(chars.as_slice(), start, end);
        if t.len() == 0 {
            return Err(ParsingError::EmptyInput);
        }
        let k = numeral_prefix(t);
        if k == t.len() {
            return Err(ParsingError::MissingMultiple);
        }
        if k == 0 {
            return Err(ParsingError::MissingValue);
        }
        let value = slice_subrange(t, 0, k);
        let rest = slice_subrange(t, k, t.len());
        let (unit_start, unit_end) = trim_bounds(rest);
        let unit_text = slice_subrange(rest, unit_start, unit_end);
        if find_point(value).is_none() {
            return Err(ParsingError::InvalidValue);
        }
        let unit = match Any::from_chars(unit_text) {
            Ok(u) => u,
            Err(e) => {
                return Err(e);
            },
        };
        proof {
            multiples::lemma_names_unique(unit, named_unit(unit_text@), unit_text@);
        }
        match amount_in(value, unit) {
            Some(nanobytes) => Ok(M::from_any(nanobytes, unit)),
            None => Err(ParsingError::InvalidValue),
        }
    }
}

impl<M: Multiple> std::str::FromStr for SpecificSize<M> {
    type Err = ParsingError;

    fn from_str(input: &str) -> Result<SpecificSize<M>, ParsingError> {
        SpecificSize::<M>::from_str(input)
    }
}

/// The amounts of `left` and `right` in billionths of a byte, and the
/// multiple in which they are compared: that of `right`.
fn into_same_multiples<LM: Multiple, RM: Multiple>(
    left: SpecificSize<LM>,
    right: SpecificSize<RM>,
) -> (r: (u128, u128, Any))
    ensures
        r.0 == left.amount(),
        r.1 == right.amount(),
        r.2 == right.unit(),
{
    let (left_amount, _) = LM::into_any(left);
    let (right_amount, right_multiple) = RM::into_any(right);
    (left_amount, right_amount, right_multiple)
}

impl<LM: Multiple, RM: Multiple> PartialEq<SpecificSize<RM>> for SpecificSize<LM> {
    fn eq(&self, other: &SpecificSize<RM>) -> (r: bool) {
        let (left, right, multiple) = into_same_multiples(*self, *other);
        let diff = if left >= right {
            left - right
        } else {
            right - left
        };
        let bytes = multiple.multiple_of_bytes();
        proof {
            multiples::lemma_bytes_range(multiple);
        }
        diff < bytes * 10
    }
}

impl<LM: Multiple, RM: Multiple> vstd::std_specs::cmp::PartialEqSpecImpl<SpecificSize<RM>> for
    SpecificSize<LM> {
    open spec fn obeys_eq_spec() -> bool {
        true
    }

    open spec fn eq_spec(&self, other: &SpecificSize<RM>) -> bool {
        within_margin(self.amount(), other.amount(), other.unit())
    }
}

impl<LM: Multiple, RM: Multiple> PartialOrd<SpecificSize<RM>> for SpecificSize<LM> {
    fn partial_cmp(&self, other: &SpecificSize<RM>) -> (r: Option<Ordering>) {
        let (left, right, _) = into_same_multiples(*self, *other);
        if left < right {
            Some(Ordering::Less)
        } else if left == right {
            Some(Ordering::Equal)
        } else {
            Some(Ordering::Greater)
        }
    }
}

impl<LM: Multiple, RM: Multiple> vstd::std_specs::cmp::PartialOrdSpecImpl<SpecificSize<RM>> for
    SpecificSize<LM> {
    open spec fn obeys_partial_cmp_spec() -> bool {
        true
    }

    open spec fn partial_cmp_spec(&self, other: &SpecificSize<RM>) -> Option<Ordering> {
        if self.amount() < other.amount() {
            Some(Ordering::Less)
        } else if self.amount() == other.amount() {
            Some(Ordering::Equal)
        } else {
            Some(Ordering::Greater)
        }
    }
}

} // verus!
