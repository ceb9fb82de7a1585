//! The multiples of a byte: `Any`, which holds any of them at run time, and
//! one zero-sized type per multiple for sizes whose multiple is fixed by
//! their type.
use vstd::prelude::*;

use crate::error::ParsingError;
use crate::text::chars_of;
use crate::{Multiple, SpecificSize};

verus! {

/// `base` raised to the power `exp`.
pub open spec fn power(base: nat, exp: nat) -> nat
    decreases exp,
{
    if exp == 0 {
        1
    } else {
        base * power(base, (exp - 1) as nat)
    }
}

/// A positive base raised to any power is positive.
pub proof fn lemma_power_positive(base: nat, exp: nat)
    requires
        base > 0,
    ensures
        power(base, exp) > 0,
    decreases exp,
{
    if exp > 0 {
        lemma_power_positive(base, (exp - 1) as nat);
        assert(base * power(base, (exp - 1) as nat) > 0) by (nonlinear_arith)
            requires
                base > 0,
                power(base, (exp - 1) as nat) > 0,
        ;
    }
}

/// No multiple has more bytes than a yobibyte.
pub proof fn lemma_bytes_range(u: Any)
    ensures
        1 <= u.bytes(),
        u.bytes() <= 1_208_925_819_614_629_174_706_176,
{
    lemma_power_positive(u.base(), u.exponent());
    reveal_with_fuel(power, 9);
    match u {
        Any::Byte => {},
        Any::Kilobyte => {},
        Any::Megabyte => {},
        Any::Gigabyte => {},
        Any::Terabyte => {},
        Any::Petabyte => {},
        Any::Exabyte => {},
        Any::Zettabyte => {},
        Any::Yottabyte => {},
        Any::Kibibyte => {},
        Any::Mebibyte => {},
        Any::Gigibyte => {},
        Any::Tebibyte => {},
        Any::Pebibyte => {},
        Any::Exbibyte => {},
        Any::Zebibyte => {},
        Any::Yobibyte => {},
    }
}

/// Distinct multiples are never named by the same text.
pub proof fn lemma_names_unique(u: Any, v: Any, t: Seq<char>)
    requires
        u.is_named_by(t),
        v.is_named_by(t),
    ensures
        u == v,
{
    if u != v {
        if u.token().len() == v.token().len() && t == u.token() && t == v.token() {
            assert(u.token()[0] == t[0] && v.token()[0] == t[0]);
        }
    }
}

/// A multiple which can represent all multiples.
///
/// This is mainly used to parse a size from a string, but can also be used
/// when the multiple is only known at run time.
#[derive(Clone, Copy, Debug, PartialEq, Eq)]
pub enum Any {
    Byte,
    Kilobyte,
    Megabyte,
    Gigabyte,
    Terabyte,
    Petabyte,
    Exabyte,
    Zettabyte,
    Yottabyte,
    Kibibyte,
    Mebibyte,
    Gigibyte,
    Tebibyte,
    Pebibyte,
    Exbibyte,
    Zebibyte,
    Yobibyte,
}

impl Any {
    /// Whether the multiple is a power of 1024 rather than of 1000.
    pub open spec fn is_binary(self) -> bool {
        match self {
            Any::Kibibyte | Any::Mebibyte | Any::Gigibyte | Any::Tebibyte | Any::Pebibyte
            | Any::Exbibyte | Any::Zebibyte | Any::Yobibyte => true,
            _ => false,
        }
    }

    /// The base that the multiple raises to its exponent.
    pub open spec fn base(self) -> nat {
        if self.is_binary() {
            1024
        } else {
            1000
        }
    }

    /// The exponent of the multiple: 0 for a byte, 8 for a yottabyte.
    pub open spec fn exponent(self) -> nat {
        match self {
            Any::Byte => 0,
            Any::Kilobyte | Any::Kibibyte => 1,
            Any::Megabyte | Any::Mebibyte => 2,
            Any::Gigabyte | Any::Gigibyte => 3,
            Any::Terabyte | Any::Tebibyte => 4,
            Any::Petabyte | Any::Pebibyte => 5,
            Any::Exabyte | Any::Exbibyte => 6,
            Any::Zettabyte | Any::Zebibyte => 7,
            Any::Yottabyte | Any::Yobibyte => 8,
        }
    }

    /// The number of bytes in one of this multiple.
    pub open spec fn bytes(self) -> nat {
        power(self.base(), self.exponent())
    }

    /// The canonical text token of the multiple.
    pub open spec fn token(self) -> Seq<char> {
        match self {
            Any::Byte => seq!['B'],
            Any::Kilobyte => seq!['k', 'B'],
            Any::Megabyte => seq!['M', 'B'],
            Any::Gigabyte => seq!['G', 'B'],
            Any::Terabyte => seq!['T', 'B'],
            Any::Petabyte => seq!['P', 'B'],
            Any::Exabyte => seq!['E', 'B'],
            Any::Zettabyte => seq!['Z', 'B'],
            Any::Yottabyte => seq!['Y', 'B'],
            Any::Kibibyte => seq!['K', 'i', 'B'],
            Any::Mebibyte => seq!['M', 'i', 'B'],
            Any::Gigibyte => seq!['G', 'i', 'B'],
            Any::Tebibyte => seq!['T', 'i', 'B'],
            Any::Pebibyte => seq!['P', 'i', 'B'],
            Any::Exbibyte => seq!['E', 'i', 'B'],
            Any::Zebibyte => seq!['Z', 'i', 'B'],
            Any::Yobibyte => seq!['Y', 'i', 'B'],
        }
    }

    /// Whether the text `t` names this multiple: its canonical token, or
    /// "KB", which by convention names the kibibyte.
    pub open spec fn is_named_by(self, t: Seq<char>) -> bool {
        t == self.token() || (self == Any::Kibibyte && t == seq!['K', 'B'])
    }

    /// The number of bytes in one of this multiple.
    pub fn multiple_of_bytes(self) -> (r: u128)
        ensures
            r == self.bytes(),
    {
        proof {
            reveal_with_fuel(power, 9);
        }
        match self {
            Any::Byte => 1,
            Any::Kilobyte => 1_000,
            Any::Megabyte => 1_000_000,
            Any::Gigabyte => 1_000_000_000,
            Any::Terabyte => 1_000_000_000_000,
            Any::Petabyte => 1_000_000_000_000_000,
            Any::Exabyte => 1_000_000_000_000_000_000,
            Any::Zettabyte => 1_000_000_000_000_000_000_000,
            Any::Yottabyte => 1_000_000_000_000_000_000_000_000,
            Any::Kibibyte => 1_024,
            Any::Mebibyte => 1_048_576,
            Any::Gigibyte => 1_073_741_824,
            Any::Tebibyte => 1_099_511_627_776,
            Any::Pebibyte => 1_125_899_906_842_624,
            Any::Exbibyte => 1_152_921_504_606_846_976,
            Any::Zebibyte => 1_180_591_620_717_411_303_424,
            Any::Yobibyte => 1_208_925_819_614_629_174_706_176,
        }
    }

    /// The number of billionths of a byte in one of this multiple.
    pub open spec fn nanobytes(self) -> nat {
        self.bytes() * 1_000_000_000
    }

    /// The number of billionths of a byte in one of this multiple.
    pub fn nanobytes_per_unit(self) -> (r: u128)
        ensures
            r == self.nanobytes(),
            1_000_000_000 <= r,
            r * 10 <= u128::MAX,
    {
        let bytes = self.multiple_of_bytes();
        proof {
            lemma_bytes_range(self);
        }
        bytes * 1_000_000_000
    }

    /// The number of digits after the point that write any amount in this
    /// multiple exactly: one billionth of a byte over the multiple's bytes
    /// has that many.
    pub open spec fn fraction_places(self) -> nat {
        if self.is_binary() {
            9 + 10 * self.exponent()
        } else {
            9 + 3 * self.exponent()
        }
    }

    /// The number of digits after the point that write any amount in this
    /// multiple exactly.
    pub fn places(self) -> (r: usize)
        ensures
            r == self.fraction_places(),
    {
        let exponent: usize = match self {
            Any::Byte => 0,
            Any::Kilobyte | Any::Kibibyte => 1,
            Any::Megabyte | Any::Mebibyte => 2,
            Any::Gigabyte | Any::Gigibyte => 3,
            Any::Terabyte | Any::Tebibyte => 4,
            Any::Petabyte | Any::Pebibyte => 5,
            Any::Exabyte | Any::Exbibyte => 6,
            Any::Zettabyte | Any::Zebibyte => 7,
            Any::Yottabyte | Any::Yobibyte => 8,
        };
        match self {
            Any::Kibibyte | Any::Mebibyte | Any::Gigibyte | Any::Tebibyte | Any::Pebibyte
            | Any::Exbibyte | Any::Zebibyte | Any::Yobibyte => 9 + 10 * exponent,
            _ => 9 + 3 * exponent,
        }
    }

    /// The canonical token of the multiple.
    pub fn as_str(self) -> (r: &'static str)
        ensures
            r@ == self.token(),
    {
        match self {
            Any::Byte => {
                proof {
                    reveal_strlit("B");
                }
                "B"
            },
            Any::Kilobyte => {
                proof {
                    reveal_strlit("kB");
                }
                "kB"
            },
            Any::Megabyte => {
                proof {
                    reveal_strlit("MB");
                }
                "MB"
            },
            Any::Gigabyte => {
                proof {
                    reveal_strlit("GB");
                }
                "GB"
            },
            Any::Terabyte => {
                proof {
                    reveal_strlit("TB");
                }
                "TB"
            },
            Any::Petabyte => {
                proof {
                    reveal_strlit("PB");
                }
                "PB"
            },
            Any::Exabyte => {
                proof {
                    reveal_strlit("EB");
                }
                "EB"
            },
            Any::Zettabyte => {
                proof {
                    reveal_strlit("ZB");
                }
                "ZB"
            },
            Any::Yottabyte => {
                proof {
                    reveal_strlit("YB");
                }
                "YB"
            },
            Any::Kibibyte => {
                proof {
                    reveal_strlit("KiB");
                }
                "KiB"
            },
            Any::Mebibyte => {
                proof {
                    reveal_strlit("MiB");
                }
                "MiB"
            },
            Any::Gigibyte => {
                proof {
                    reveal_strlit("GiB");
                }
                "GiB"
            },
            Any::Tebibyte => {
                proof {
                    reveal_strlit("TiB");
                }
                "TiB"
            },
            Any::Pebibyte => {
                proof {
                    reveal_strlit("PiB");
                }
                "PiB"
            },
            Any::Exbibyte => {
                proof {
                    reveal_strlit("EiB");
                }
                "EiB"
            },
            Any::Zebibyte => {
                proof {
                    reveal_strlit("ZiB");
                }
                "ZiB"
            },
            Any::Yobibyte => {
                proof {
                    reveal_strlit("YiB");
                }
                "YiB"
            },
        }
    }

    /// The canonical token of the multiple, e.g. "kB" or "MiB".
    pub fn to_string(&self) -> (r: String)
        ensures
            r@ == self.token(),
    {
        String::from_str(self.as_str())
    }

    /// Looks up the multiple that the text `input` names, e.g. "kB", or
    /// "KB" or "KiB" for the kibibyte.
    pub fn from_str(input: &str) -> (r: Result<Any, ParsingError>)
        ensures
            r matches Ok(u) ==> u.is_named_by(input@),
            r is Err <==> forall|u: Any| !u.is_named_by(input@),
            r matches Err(e) ==> e == ParsingError::InvalidMultiple,
    {
        let chars = chars_of(input);
        Any::from_chars(chars.as_slice())
    }

    /// Looks up the multiple that the characters `t` name.
    pub fn from_chars(t: &[char]) -> (r: Result<Any, ParsingError>)
        ensures
            r matches Ok(u) ==> u.is_named_by(t@),
            r is Err <==> forall|u: Any| !u.is_named_by(t@),
            r matches Err(e) ==> e == ParsingError::InvalidMultiple,
    {
        let n = t.len();
        if n == 1 && t[0] == 'B' {
            assert(t@ =~= seq!['B']);
            assert(Any::Byte.is_named_by(t@));
            return Ok(Any::Byte);
        }
        if n == 2 && t[1] == 'B' {
            let first = t[0];
            let r = if first == 'k' {
                Any::Kilobyte
            } else if first == 'M' {
                Any::Megabyte
            } else if first == 'G' {
                Any::Gigabyte
            } else if first == 'T' {
                Any::Terabyte
            } else if first == 'P' {
                Any::Petabyte
            } else if first == 'E' {
                Any::Exabyte
            } else if first == 'Z' {
                Any::Zettabyte
            } else if first == 'Y' {
                Any::Yottabyte
            } else if first == 'K' {
                Any::Kibibyte
            } else {
                return Err(ParsingError::InvalidMultiple);
            };
            assert(t@ =~= seq![first, 'B']);
            assert(r.is_named_by(t@));
            return Ok(r);
        }
        if n == 3 && t[1] == 'i' && t[2] == 'B' {
            let first = t[0];
            let r = if first == 'K' {
                Any::Kibibyte
            } else if first == 'M' {
                Any::Mebibyte
            } else if first == 'G' {
                Any::Gigibyte
            } else if first == 'T' {
                Any::Tebibyte
            } else if first == 'P' {
                Any::Pebibyte
            } else if first == 'E' {
                Any::Exbibyte
            } else if first == 'Z' {
                Any::Zebibyte
            } else if first == 'Y' {
                Any::Yobibyte
            } else {
                return Err(ParsingError::InvalidMultiple);
            };
            assert(t@ =~= seq![first, 'i', 'B']);
            assert(r.is_named_by(t@));
            return Ok(r);
        }
        Err(ParsingError::InvalidMultiple)
    }
}

impl std::str::FromStr for Any {
    type Err = ParsingError;

    fn from_str(input: &str) -> Result<Any, ParsingError> {
        Any::from_str(input)
    }
}

impl Multiple for Any {
    open spec fn as_any(self) -> Any {
        self
    }

    open spec fn converted(multiple: Any) -> Any {
        multiple
    }

    fn to_any(self) -> (r: Any) {
        self
    }

    fn from_any(nanobytes: u128, multiple: Any) -> (r: SpecificSize<Any>) {
        SpecificSize { nanobytes, multiple }
    }

    fn into_any(size: SpecificSize<Any>) -> (r: (u128, Any)) {
        (size.nanobytes, size.multiple)
    }
}

/// Multiple representing a byte.
///
/// Represents a size of `value * 1` bytes. When parsing this multiple from
/// text it expects `B`.
#[derive(Clone, Copy, Debug, Default, PartialEq, Eq, PartialOrd, Ord, Hash)]
pub struct Byte;

impl Multiple for Byte {
    open spec fn as_any(self) -> Any {
        Any::Byte
    }

    open spec fn converted(multiple: Any) -> Any {
        Any::Byte
    }

    fn to_any(self) -> (r: Any) {
        Any::Byte
    }

    fn from_any(nanobytes: u128, _multiple: Any) -> (r: SpecificSize<Byte>) {
        SpecificSize { nanobytes, multiple: Byte }
    }

    fn into_any(size: SpecificSize<Byte>) -> (r: (u128, Any)) {
        (size.nanobytes, Any::Byte)
    }
}

impl From<Byte> for Any {
    fn from(_multiple: Byte) -> (r: Any) {
        Any::Byte
    }
}

impl vstd::std_specs::convert::FromSpecImpl<Byte> for Any {
    open spec fn obeys_from_spec() -> bool {
        true
    }

    open spec fn from_spec(multiple: Byte) -> Any {
        Any::Byte
    }
}

/// Multiple representing a kilobyte.
///
/// Represents a size of `value * 1000^1` bytes. When parsing this multiple from
/// text it expects `kB`.
#[derive(Clone, Copy, Debug, Default, PartialEq, Eq, PartialOrd, Ord, Hash)]
pub struct Kilobyte;

impl Multiple for Kilobyte {
    open spec fn as_any(self) -> Any {
        Any::Kilobyte
    }

    open spec fn converted(multiple: Any) -> Any {
        Any::Kilobyte
    }

    fn to_any(self) -> (r: Any) {
        Any::Kilobyte
    }

    fn from_any(nanobytes: u128, _multiple: Any) -> (r: SpecificSize<Kilobyte>) {
        SpecificSize { nanobytes, multiple: Kilobyte }
    }

    fn into_any(size: SpecificSize<Kilobyte>) -> (r: (u128, Any)) {
        (size.nanobytes, Any::Kilobyte)
    }
}

impl From<Kilobyte> for Any {
    fn from(_multiple: Kilobyte) -> (r: Any) {
        Any::Kilobyte
    }
}

impl vstd::std_specs::convert::FromSpecImpl<Kilobyte> for Any {
    open spec fn obeys_from_spec() -> bool {
        true
    }

    open spec fn from_spec(multiple: Kilobyte) -> Any {
        Any::Kilobyte
    }
}

/// Multiple representing a megabyte.
///
/// Represents a size of `value * 1000^2` bytes. When parsing this multiple from
/// text it expects `MB`.
#[derive(Clone, Copy, Debug, Default, PartialEq, Eq, PartialOrd, Ord, Hash)]
pub struct Megabyte;

impl Multiple for Megabyte {
    open spec fn as_any(self) -> Any {
        Any::Megabyte
    }

    open spec fn converted(multiple: Any) -> Any {
        Any::Megabyte
    }

    fn to_any(self) -> (r: Any) {
        Any::Megabyte
    }

    fn from_any(nanobytes: u128, _multiple: Any) -> (r: SpecificSize<Megabyte>) {
        SpecificSize { nanobytes, multiple: Megabyte }
    }

    fn into_any(size: SpecificSize<Megabyte>) -> (r: (u128, Any)) {
        (size.nanobytes, Any::Megabyte)
    }
}

impl From<Megabyte> for Any {
    fn from(_multiple: Megabyte) -> (r: Any) {
        Any::Megabyte
    }
}

impl vstd::std_specs::convert::FromSpecImpl<Megabyte> for Any {
    open spec fn obeys_from_spec() -> bool {
        true
    }

    open spec fn from_spec(multiple: Megabyte) -> Any {
        Any::Megabyte
    }
}

/// Multiple representing a gigabyte.
///
/// Represents a size of `value * 1000^3` bytes. When parsing this multiple from
/// text it expects `GB`.
#[derive(Clone, Copy, Debug, Default, PartialEq, Eq, PartialOrd, Ord, Hash)]
pub struct Gigabyte;

impl Multiple for Gigabyte {
    open spec fn as_any(self) -> Any {
        Any::Gigabyte
    }

    open spec fn converted(multiple: Any) -> Any {
        Any::Gigabyte
    }

    fn to_any(self) -> (r: Any) {
        Any::Gigabyte
    }

    fn from_any(nanobytes: u128, _multiple: Any) -> (r: SpecificSize<Gigabyte>) {
        SpecificSize { nanobytes, multiple: Gigabyte }
    }

    fn into_any(size: SpecificSize<Gigabyte>) -> (r: (u128, Any)) {
        (size.nanobytes, Any::Gigabyte)
    }
}

impl From<Gigabyte> for Any {
    fn from(_multiple: Gigabyte) -> (r: Any) {
        Any::Gigabyte
    }
}

impl vstd::std_specs::convert::FromSpecImpl<Gigabyte> for Any {
    open spec fn obeys_from_spec() -> bool {
        true
    }

    open spec fn from_spec(multiple: Gigabyte) -> Any {
        Any::Gigabyte
    }
}

/// Multiple representing a terabyte.
///
/// Represents a size of `value * 1000^4` bytes. When parsing this multiple from
/// text it expects `TB`.
#[derive(Clone, Copy, Debug, Default, PartialEq, Eq, PartialOrd, Ord, Hash)]
pub struct Terabyte;

impl Multiple for Terabyte {
    open spec fn as_any(self) -> Any {
        Any::Terabyte
    }

    open spec fn converted(multiple: Any) -> Any {
        Any::Terabyte
    }

    fn to_any(self) -> (r: Any) {
        Any::Terabyte
    }

    fn from_any(nanobytes: u128, _multiple: Any) -> (r: SpecificSize<Terabyte>) {
        SpecificSize { nanobytes, multiple: Terabyte }
    }

    fn into_any(size: SpecificSize<Terabyte>) -> (r: (u128, Any)) {
        (size.nanobytes, Any::Terabyte)
    }
}

impl From<Terabyte> for Any {
    fn from(_multiple: Terabyte) -> (r: Any) {
        Any::Terabyte
    }
}

impl vstd::std_specs::convert::FromSpecImpl<Terabyte> for Any {
    open spec fn obeys_from_spec() -> bool {
        true
    }

    open spec fn from_spec(multiple: Terabyte) -> Any {
        Any::Terabyte
    }
}

/// Multiple representing a petabyte.
///
/// Represents a size of `value * 1000^5` bytes. When parsing this multiple from
/// text it expects `PB`.
#[derive(Clone, Copy, Debug, Default, PartialEq, Eq, PartialOrd, Ord, Hash)]
pub struct Petabyte;

impl Multiple for Petabyte {
    open spec fn as_any(self) -> Any {
        Any::Petabyte
    }

    open spec fn converted(multiple: Any) -> Any {
        Any::Petabyte
    }

    fn to_any(self) -> (r: Any) {
        Any::Petabyte
    }

    fn from_any(nanobytes: u128, _multiple: Any) -> (r: SpecificSize<Petabyte>) {
        SpecificSize { nanobytes, multiple: Petabyte }
    }

    fn into_any(size: SpecificSize<Petabyte>) -> (r: (u128, Any)) {
        (size.nanobytes, Any::Petabyte)
    }
}

impl From<Petabyte> for Any {
    fn from(_multiple: Petabyte) -> (r: Any) {
        Any::Petabyte
    }
}

impl vstd::std_specs::convert::FromSpecImpl<Petabyte> for Any {
    open spec fn obeys_from_spec() -> bool {
        true
    }

    open spec fn from_spec(multiple: Petabyte) -> Any {
        Any::Petabyte
    }
}

/// Multiple representing an exabyte.
///
/// Represents a size of `value * 1000^6` bytes. When parsing this multiple from
/// text it expects `EB`.
#[derive(Clone, Copy, Debug, Default, PartialEq, Eq, PartialOrd, Ord, Hash)]
pub struct Exabyte;

impl Multiple for Exabyte {
    open spec fn as_any(self) -> Any {
        Any::Exabyte
    }

    open spec fn converted(multiple: Any) -> Any {
        Any::Exabyte
    }

    fn to_any(self) -> (r: Any) {
        Any::Exabyte
    }

    fn from_any(nanobytes: u128, _multiple: Any) -> (r: SpecificSize<Exabyte>) {
        SpecificSize { nanobytes, multiple: Exabyte }
    }

    fn into_any(size: SpecificSize<Exabyte>) -> (r: (u128, Any)) {
        (size.nanobytes, Any::Exabyte)
    }
}

impl From<Exabyte> for Any {
    fn from(_multiple: Exabyte) -> (r: Any) {
        Any::Exabyte
    }
}

impl vstd::std_specs::convert::FromSpecImpl<Exabyte> for Any {
    open spec fn obeys_from_spec() -> bool {
        true
    }

    open spec fn from_spec(multiple: Exabyte) -> Any {
        Any::Exabyte
    }
}

/// Multiple representing a zettabyte.
///
/// Represents a size of `value * 1000^7` bytes. When parsing this multiple from
/// text it expects `ZB`.
#[derive(Clone, Copy, Debug, Default, PartialEq, Eq, PartialOrd, Ord, Hash)]
pub struct Zettabyte;

impl Multiple for Zettabyte {
    open spec fn as_any(self) -> Any {
        Any::Zettabyte
    }

    open spec fn converted(multiple: Any) -> Any {
        Any::Zettabyte
    }

    fn to_any(self) -> (r: Any) {
        Any::Zettabyte
    }

    fn from_any(nanobytes: u128, _multiple: Any) -> (r: SpecificSize<Zettabyte>) {
        SpecificSize { nanobytes, multiple: Zettabyte }
    }

    fn into_any(size: SpecificSize<Zettabyte>) -> (r: (u128, Any)) {
        (size.nanobytes, Any::Zettabyte)
    }
}

impl From<Zettabyte> for Any {
    fn from(_multiple: Zettabyte) -> (r: Any) {
        Any::Zettabyte
    }
}

impl vstd::std_specs::convert::FromSpecImpl<Zettabyte> for Any {
    open spec fn obeys_from_spec() -> bool {
        true
    }

    open spec fn from_spec(multiple: Zettabyte) -> Any {
        Any::Zettabyte
    }
}

/// Multiple representing a yottabyte.
///
/// Represents a size of `value * 1000^8` bytes. When parsing this multiple from
/// text it expects `YB`.
#[derive(Clone, Copy, Debug, Default, PartialEq, Eq, PartialOrd, Ord, Hash)]
pub struct Yottabyte;

impl Multiple for Yottabyte {
    open spec fn as_any(self) -> Any {
        Any::Yottabyte
    }

    open spec fn converted(multiple: Any) -> Any {
        Any::Yottabyte
    }

    fn to_any(self) -> (r: Any) {
        Any::Yottabyte
    }

    fn from_any(nanobytes: u128, _multiple: Any) -> (r: SpecificSize<Yottabyte>) {
        SpecificSize { nanobytes, multiple: Yottabyte }
    }

    fn into_any(size: SpecificSize<Yottabyte>) -> (r: (u128, Any)) {
        (size.nanobytes, Any::Yottabyte)
    }
}

impl From<Yottabyte> for Any {
    fn from(_multiple: Yottabyte) -> (r: Any) {
        Any::Yottabyte
    }
}

impl vstd::std_specs::convert::FromSpecImpl<Yottabyte> for Any {
    open spec fn obeys_from_spec() -> bool {
        true
    }

    open spec fn from_spec(multiple: Yottabyte) -> Any {
        Any::Yottabyte
    }
}

/// Multiple representing a kibibyte.
///
/// Represents a size of `value * 1024^1` bytes. When parsing this multiple from
/// text it expects `KiB`.
#[derive(Clone, Copy, Debug, Default, PartialEq, Eq, PartialOrd, Ord, Hash)]
pub struct Kibibyte;

impl Multiple for Kibibyte {
    open spec fn as_any(self) -> Any {
        Any::Kibibyte
    }

    open spec fn converted(multiple: Any) -> Any {
        Any::Kibibyte
    }

    fn to_any(self) -> (r: Any) {
        Any::Kibibyte
    }

    fn from_any(nanobytes: u128, _multiple: Any) -> (r: SpecificSize<Kibibyte>) {
        SpecificSize { nanobytes, multiple: Kibibyte }
    }

    fn into_any(size: SpecificSize<Kibibyte>) -> (r: (u128, Any)) {
        (size.nanobytes, Any::Kibibyte)
    }
}

impl From<Kibibyte> for Any {
    fn from(_multiple: Kibibyte) -> (r: Any) {
        Any::Kibibyte
    }
}

impl vstd::std_specs::convert::FromSpecImpl<Kibibyte> for Any {
    open spec fn obeys_from_spec() -> bool {
        true
    }

    open spec fn from_spec(multiple: Kibibyte) -> Any {
        Any::Kibibyte
    }
}

/// Multiple representing a mebibyte.
///
/// Represents a size of `value * 1024^2` bytes. When parsing this multiple from
/// text it expects `MiB`.
#[derive(Clone, Copy, Debug, Default, PartialEq, Eq, PartialOrd, Ord, Hash)]
pub struct Mebibyte;

impl Multiple for Mebibyte {
    open spec fn as_any(self) -> Any {
        Any::Mebibyte
    }

    open spec fn converted(multiple: Any) -> Any {
        Any::Mebibyte
    }

    fn to_any(self) -> (r: Any) {
        Any::Mebibyte
    }

    fn from_any(nanobytes: u128, _multiple: Any) -> (r: SpecificSize<Mebibyte>) {
        SpecificSize { nanobytes, multiple: Mebibyte }
    }

    fn into_any(size: SpecificSize<Mebibyte>) -> (r: (u128, Any)) {
        (size.nanobytes, Any::Mebibyte)
    }
}

impl From<Mebibyte> for Any {
    fn from(_multiple: Mebibyte) -> (r: Any) {
        Any::Mebibyte
    }
}

impl vstd::std_specs::convert::FromSpecImpl<Mebibyte> for Any {
    open spec fn obeys_from_spec() -> bool {
        true
    }

    open spec fn from_spec(multiple: Mebibyte) -> Any {
        Any::Mebibyte
    }
}

/// Multiple representing a gigibyte.
///
/// Represents a size of `value * 1024^3` bytes. When parsing this multiple from
/// text it expects `GiB`.
#[derive(Clone, Copy, Debug, Default, PartialEq, Eq, PartialOrd, Ord, Hash)]
pub struct Gigibyte;

impl Multiple for Gigibyte {
    open spec fn as_any(self) -> Any {
        Any::Gigibyte
    }

    open spec fn converted(multiple: Any) -> Any {
        Any::Gigibyte
    }

    fn to_any(self) -> (r: Any) {
        Any::Gigibyte
    }

    fn from_any(nanobytes: u128, _multiple: Any) -> (r: SpecificSize<Gigibyte>) {
        SpecificSize { nanobytes, multiple: Gigibyte }
    }

    fn into_any(size: SpecificSize<Gigibyte>) -> (r: (u128, Any)) {
        (size.nanobytes, Any::Gigibyte)
    }
}

impl From<Gigibyte> for Any {
    fn from(_multiple: Gigibyte) -> (r: Any) {
        Any::Gigibyte
    }
}

impl vstd::std_specs::convert::FromSpecImpl<Gigibyte> for Any {
    open spec fn obeys_from_spec() -> bool {
        true
    }

    open spec fn from_spec(multiple: Gigibyte) -> Any {
        Any::Gigibyte
    }
}

/// Multiple representing a tebibyte.
///
/// Represents a size of `value * 1024^4` bytes. When parsing this multiple from
/// text it expects `TiB`.
#[derive(Clone, Copy, Debug, Default, PartialEq, Eq, PartialOrd, Ord, Hash)]
pub struct Tebibyte;

impl Multiple for Tebibyte {
    open spec fn as_any(self) -> Any {
        Any::Tebibyte
    }

    open spec fn converted(multiple: Any) -> Any {
        Any::Tebibyte
    }

    fn to_any(self) -> (r: Any) {
        Any::Tebibyte
    }

    fn from_any(nanobytes: u128, _multiple: Any) -> (r: SpecificSize<Tebibyte>) {
        SpecificSize { nanobytes, multiple: Tebibyte }
    }

    fn into_any(size: SpecificSize<Tebibyte>) -> (r: (u128, Any)) {
        (size.nanobytes, Any::Tebibyte)
    }
}

impl From<Tebibyte> for Any {
    fn from(_multiple: Tebibyte) -> (r: Any) {
        Any::Tebibyte
    }
}

impl vstd::std_specs::convert::FromSpecImpl<Tebibyte> for Any {
    open spec fn obeys_from_spec() -> bool {
        true
    }

    open spec fn from_spec(multiple: Tebibyte) -> Any {
        Any::Tebibyte
    }
}

/// Multiple representing a pebibyte.
///
/// Represents a size of `value * 1024^5` bytes. When parsing this multiple from
/// text it expects `PiB`.
#[derive(Clone, Copy, Debug, Default, PartialEq, Eq, PartialOrd, Ord, Hash)]
pub struct Pebibyte;

impl Multiple for Pebibyte {
    open spec fn as_any(self) -> Any {
        Any::Pebibyte
    }

    open spec fn converted(multiple: Any) -> Any {
        Any::Pebibyte
    }

    fn to_any(self) -> (r: Any) {
        Any::Pebibyte
    }

    fn from_any(nanobytes: u128, _multiple: Any) -> (r: SpecificSize<Pebibyte>) {
        SpecificSize { nanobytes, multiple: Pebibyte }
    }

    fn into_any(size: SpecificSize<Pebibyte>) -> (r: (u128, Any)) {
        (size.nanobytes, Any::Pebibyte)
    }
}

impl From<Pebibyte> for Any {
    fn from(_multiple: Pebibyte) -> (r: Any) {
        Any::Pebibyte
    }
}

impl vstd::std_specs::convert::FromSpecImpl<Pebibyte> for Any {
    open spec fn obeys_from_spec() -> bool {
        true
    }

    open spec fn from_spec(multiple: Pebibyte) -> Any {
        Any::Pebibyte
    }
}

/// Multiple representing an exbibyte.
///
/// Represents a size of `value * 1024^6` bytes. When parsing this multiple from
/// text it expects `EiB`.
#[derive(Clone, Copy, Debug, Default, PartialEq, Eq, PartialOrd, Ord, Hash)]
pub struct Exbibyte;

impl Multiple for Exbibyte {
    open spec fn as_any(self) -> Any {
        Any::Exbibyte
    }

    open spec fn converted(multiple: Any) -> Any {
        Any::Exbibyte
    }

    fn to_any(self) -> (r: Any) {
        Any::Exbibyte
    }

    fn from_any(nanobytes: u128, _multiple: Any) -> (r: SpecificSize<Exbibyte>) {
        SpecificSize { nanobytes, multiple: Exbibyte }
    }

    fn into_any(size: SpecificSize<Exbibyte>) -> (r: (u128, Any)) {
        (size.nanobytes, Any::Exbibyte)
    }
}

impl From<Exbibyte> for Any {
    fn from(_multiple: Exbibyte) -> (r: Any) {
        Any::Exbibyte
    }
}

impl vstd::std_specs::convert::FromSpecImpl<Exbibyte> for Any {
    open spec fn obeys_from_spec() -> bool {
        true
    }

    open spec fn from_spec(multiple: Exbibyte) -> Any {
        Any::Exbibyte
    }
}

/// Multiple representing a zebibyte.
///
/// Represents a size of `value * 1024^7` bytes. When parsing this multiple from
/// text it expects `ZiB`.
#[derive(Clone, Copy, Debug, Default, PartialEq, Eq, PartialOrd, Ord, Hash)]
pub struct Zebibyte;

impl Multiple for Zebibyte {
    open spec fn as_any(self) -> Any {
        Any::Zebibyte
    }

    open spec fn converted(multiple: Any) -> Any {
        Any::Zebibyte
    }

    fn to_any(self) -> (r: Any) {
        Any::Zebibyte
    }

    fn from_any(nanobytes: u128, _multiple: Any) -> (r: SpecificSize<Zebibyte>) {
        SpecificSize { nanobytes, multiple: Zebibyte }
    }

    fn into_any(size: SpecificSize<Zebibyte>) -> (r: (u128, Any)) {
        (size.nanobytes, Any::Zebibyte)
    }
}

impl From<Zebibyte> for Any {
    fn from(_multiple: Zebibyte) -> (r: Any) {
        Any::Zebibyte
    }
}

impl vstd::std_specs::convert::FromSpecImpl<Zebibyte> for Any {
    open spec fn obeys_from_spec() -> bool {
        true
    }

    open spec fn from_spec(multiple: Zebibyte) -> Any {
        Any::Zebibyte
    }
}

/// Multiple representing a yobibyte.
///
/// Represents a size of `value * 1024^8` bytes. When parsing this multiple from
/// text it expects `YiB`.
#[derive(Clone, Copy, Debug, Default, PartialEq, Eq, PartialOrd, Ord, Hash)]
pub struct Yobibyte;

impl Multiple for Yobibyte {
    open spec fn as_any(self) -> Any {
        Any::Yobibyte
    }

    open spec fn converted(multiple: Any) -> Any {
        Any::Yobibyte
    }

    fn to_any(self) -> (r: Any) {
        Any::Yobibyte
    }

    fn from_any(nanobytes: u128, _multiple: Any) -> (r: SpecificSize<Yobibyte>) {
        SpecificSize { nanobytes, multiple: Yobibyte }
    }

    fn into_any(size: SpecificSize<Yobibyte>) -> (r: (u128, Any)) {
        (size.nanobytes, Any::Yobibyte)
    }
}

impl From<Yobibyte> for Any {
    fn from(_multiple: Yobibyte) -> (r: Any) {
        Any::Yobibyte
    }
}

impl vstd::std_specs::convert::FromSpecImpl<Yobibyte> for Any {
    open spec fn obeys_from_spec() -> bool {
        true
    }

    open spec fn from_spec(multiple: Yobibyte) -> Any {
        Any::Yobibyte
    }
}

} // verus!
