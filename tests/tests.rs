use std::cmp::Ordering;
use std::fmt::Debug;

use human_size::{
    Any, Byte, Exabyte, Exbibyte, Gigabyte, Gigibyte, Kibibyte, Kilobyte, Mebibyte, Megabyte,
    Multiple, ParsingError, Pebibyte, Petabyte, Size, SpecificSize, Tebibyte, Terabyte, Yobibyte,
    Yottabyte, Zebibyte, Zettabyte,
};

fn parse_ok<M: Multiple + Debug>(input: &str, value: &str, multiple: M) {
    let expected = SpecificSize::new(value, multiple).unwrap();
    let got: Result<SpecificSize<M>, ParsingError> = input.parse();
    assert_eq!(got, Ok(expected), "input: {:?}", input);
}

fn parse_err(input: &str, err: ParsingError) {
    let got: Result<Size, ParsingError> = input.parse();
    assert_eq!(got, Err(err), "input: {:?}", input);
}

#[test]
fn simple_size_parsing() {
    parse_ok("0 B", "0", Byte);
    parse_ok("0B", "0", Byte);

    // Multiples of 1000.
    parse_ok("1.0 kB", "1", Kilobyte);
    parse_ok("123.0 MB", "123", Megabyte);
    parse_ok("100 GB", "100", Gigabyte);
    parse_ok("321 TB", "321", Terabyte);
    parse_ok("10 PB", "10", Petabyte);
    parse_ok("12 EB", "12", Exabyte);
    parse_ok("0.100 ZB", "0.1", Zettabyte);
    parse_ok(".512 YB", "0.512", Yottabyte);

    // Multiples of 1024.
    parse_ok("0.0 KB", "0", Kibibyte);
    parse_ok("1. KiB", "1", Kibibyte);
    parse_ok("1.KiB", "1", Kibibyte);
    parse_ok("100 MiB", "100", Mebibyte);
    parse_ok("100 GiB", "100", Gigibyte);
    parse_ok("123 TiB", "123", Tebibyte);
    parse_ok("512 PiB", "512", Pebibyte);
    parse_ok("312 EiB", "312", Exbibyte);
    parse_ok("1 ZiB", "1", Zebibyte);
    parse_ok("2 YiB", "2", Yobibyte);

    // Same as above, but then using `Any`.
    parse_ok("0 B", "0", Any::Byte);

    parse_ok("1.0 kB", "1", Any::Kilobyte);
    parse_ok("123.0 MB", "123", Any::Megabyte);
    parse_ok("100 GB", "100", Any::Gigabyte);
    parse_ok("100GB", "100", Any::Gigabyte);
    parse_ok("321 TB", "321", Any::Terabyte);
    parse_ok("10 PB", "10", Any::Petabyte);
    parse_ok("12 EB", "12", Any::Exabyte);
    parse_ok("0.100 ZB", "0.1", Any::Zettabyte);
    parse_ok(".512 YB", "0.512", Any::Yottabyte);

    parse_ok("0.0 KB", "0", Any::Kibibyte);
    parse_ok("1. KiB", "1", Any::Kibibyte);
    parse_ok("100 MiB", "100", Any::Mebibyte);
    parse_ok("100 GiB", "100", Any::Gigibyte);
    parse_ok("123 TiB", "123", Any::Tebibyte);
    parse_ok("512 PiB", "512", Any::Pebibyte);
    parse_ok("312 EiB", "312", Any::Exbibyte);
    parse_ok("1 ZiB", "1", Any::Zebibyte);
    parse_ok("2 YiB", "2", Any::Yobibyte);

    // Accept some extra white space.
    parse_ok("   100   B   ", "100", Byte);
    parse_ok("12   MiB   ", "12", Mebibyte);
    parse_ok(" \t\t 100 \n\n  B \n  ", "100", Byte);
}

#[test]
fn parsing_size_conversion() {
    parse_ok("1000 B", "1", Kilobyte);
    parse_ok("12 kB", "12000", Byte);
    parse_ok("1 YiB", "1208925819614629174706176.0", Byte);
    parse_ok("1 YB", "1000000000000000000000000.0", Byte);

    // Within the margin of equality.
    parse_ok("100 MiB", "104.85759999999999", Megabyte);
}

#[test]
fn size_parsing_errors() {
    parse_err("", ParsingError::EmptyInput);

    parse_err("B", ParsingError::MissingValue);
    parse_err("abc MB", ParsingError::MissingValue);

    parse_err("1.0.0 GB", ParsingError::InvalidValue);
    parse_err(". B", ParsingError::InvalidValue);

    parse_err("10", ParsingError::MissingMultiple);

    parse_err("10 abc", ParsingError::InvalidMultiple);
    parse_err("10 B extra", ParsingError::InvalidMultiple);
}

fn display<M: Multiple + Debug>(value: &str, multiple: M, expected: &str) {
    let input = SpecificSize::new(value, multiple).unwrap();
    assert_eq!(input.to_string(), expected, "input: {:?}", input);
}

#[test]
fn displaying_size() {
    display("100", Byte, "100 B");

    // Multiples of 1000.
    display("1.5", Kilobyte, "1.5 kB");
    display("123", Megabyte, "123 MB");
    display("100", Gigabyte, "100 GB");
    display("321", Terabyte, "321 TB");
    display("10", Petabyte, "10 PB");
    display("12", Exabyte, "12 EB");
    display("0.1", Zettabyte, "0.1 ZB");
    display("0.512", Yottabyte, "0.512 YB");

    // Multiples of 1024.
    display("0", Kibibyte, "0 KiB");
    display("1.9999", Kibibyte, "1.9999 KiB");
    display("100", Mebibyte, "100 MiB");
    display("100", Gigibyte, "100 GiB");
    display("123", Tebibyte, "123 TiB");
    display("512", Pebibyte, "512 PiB");
    display("312", Exbibyte, "312 EiB");
    display("1", Zebibyte, "1 ZiB");
    display("2", Yobibyte, "2 YiB");

    // Same but for `Any`.
    display("0", Any::Byte, "0 B");

    display("1.5", Any::Kilobyte, "1.5 kB");
    display("123", Any::Megabyte, "123 MB");
    display("100", Any::Gigabyte, "100 GB");
    display("321", Any::Terabyte, "321 TB");
    display("10", Any::Petabyte, "10 PB");
    display("12", Any::Exabyte, "12 EB");
    display("0.1", Any::Zettabyte, "0.1 ZB");
    display("0.512", Any::Yottabyte, "0.512 YB");

    display("0", Any::Kibibyte, "0 KiB");
    display("1.9999", Any::Kibibyte, "1.9999 KiB");
    display("100", Any::Mebibyte, "100 MiB");
    display("100", Any::Gigibyte, "100 GiB");
    display("123", Any::Tebibyte, "123 TiB");
    display("512", Any::Pebibyte, "512 PiB");
    display("312", Any::Exbibyte, "312 EiB");
    display("1", Any::Zebibyte, "1 ZiB");
    display("2", Any::Yobibyte, "2 YiB");

    // Test provided precision.
    let input = SpecificSize::new("1.1234567890", Byte).unwrap();
    assert_eq!(input.to_string_with_precision(4), "1.1235 B", "input: {:?}", input);
}

fn equivalent<L: Multiple + Debug, R: Multiple + Debug>(
    left_value: &str,
    left_multiple: L,
    right_value: &str,
    right_multiple: R,
) {
    let left = SpecificSize::new(left_value, left_multiple).unwrap();
    let right = SpecificSize::new(right_value, right_multiple).unwrap();
    assert_eq!(left, right);
}

#[test]
fn equivalence_tests() {
    equivalent("1", Byte, "1", Byte);
    equivalent("1", Byte, "1", Any::Byte);

    equivalent("1000", Byte, "1", Kilobyte);
    equivalent("1000", Byte, "1", Any::Kilobyte);
    equivalent("1000000", Byte, "1", Megabyte);
    equivalent("1000000", Byte, "1", Any::Megabyte);
    equivalent("1000000000", Byte, "1", Gigabyte);
    equivalent("1000000000", Byte, "1", Any::Gigabyte);
    equivalent("1000000000000", Byte, "1", Terabyte);
    equivalent("1000000000000", Byte, "1", Any::Terabyte);
    equivalent("1000000000000000", Byte, "1", Petabyte);
    equivalent("1000000000000000", Byte, "1", Any::Petabyte);
    equivalent("1000000000000000000", Byte, "1", Exabyte);
    equivalent("1000000000000000000", Byte, "1", Any::Exabyte);
    equivalent("1000000000000000000000", Byte, "1", Zettabyte);
    equivalent("1000000000000000000000", Byte, "1", Any::Zettabyte);
    equivalent("1000000000000000000000000", Byte, "1", Yottabyte);
    equivalent("1000000000000000000000000", Byte, "1", Any::Yottabyte);

    equivalent("1024", Byte, "1", Kibibyte);
    equivalent("1024", Byte, "1", Any::Kibibyte);
    equivalent("1048576", Byte, "1", Mebibyte);
    equivalent("1048576", Byte, "1", Any::Mebibyte);
    equivalent("1073741824", Byte, "1", Gigibyte);
    equivalent("1073741824", Byte, "1", Any::Gigibyte);
    equivalent("1099511627776", Byte, "1", Tebibyte);
    equivalent("1099511627776", Byte, "1", Any::Tebibyte);
    equivalent("1125899906842624", Byte, "1", Pebibyte);
    equivalent("1125899906842624", Byte, "1", Any::Pebibyte);
    equivalent("1152921504606846976", Byte, "1", Exbibyte);
    equivalent("1152921504606846976", Byte, "1", Any::Exbibyte);
    equivalent("1180591620717411303424", Byte, "1", Zebibyte);
    equivalent("1180591620717411303424", Byte, "1", Any::Zebibyte);
    equivalent("1208925819614629174706176", Byte, "1", Yobibyte);
    equivalent("1208925819614629174706176", Byte, "1", Any::Yobibyte);

    equivalent("1073.741824", Megabyte, "1", Gigibyte);
    equivalent("1073.741824", Megabyte, "1", Any::Gigibyte);
    equivalent("1073.741824", Any::Megabyte, "1", Gigibyte);
    equivalent("1073.741824", Any::Megabyte, "1", Any::Gigibyte);
    equivalent("1", Mebibyte, "1.048576", Megabyte);
    equivalent("1", Mebibyte, "1.048576", Any::Megabyte);
    equivalent("1", Any::Mebibyte, "1.048576", Megabyte);
    equivalent("1", Any::Mebibyte, "1.048576", Any::Megabyte);
}

fn ordering<L: Multiple, R: Multiple>(
    left_value: &str,
    left_multiple: L,
    cmp: Ordering,
    right_value: &str,
    right_multiple: R,
) {
    let left = SpecificSize::new(left_value, left_multiple).unwrap();
    let right = SpecificSize::new(right_value, right_multiple).unwrap();
    assert_eq!(left.partial_cmp(&right), Some(cmp));
}

#[test]
fn ordering_tests() {
    ordering("1", Byte, Ordering::Equal, "1", Byte);
    ordering("2", Byte, Ordering::Greater, "1", Byte);
    ordering("1", Byte, Ordering::Less, "3", Byte);

    ordering("1024", Byte, Ordering::Equal, "1", Kibibyte);
    ordering("1025", Byte, Ordering::Greater, "1", Kibibyte);
    ordering("1023", Byte, Ordering::Less, "1", Kibibyte);

    ordering("1000", Byte, Ordering::Equal, "1", Kilobyte);
    ordering("1001", Byte, Ordering::Greater, "1", Kilobyte);
    ordering("0999", Byte, Ordering::Less, "1", Kilobyte);

    ordering("1", Kibibyte, Ordering::Greater, "1", Kilobyte);
    ordering("1", Kilobyte, Ordering::Less, "1", Kibibyte);
}

#[test]
fn into_tests() {
    let left = SpecificSize::new("1", Byte).unwrap();
    let converted = left.into::<Kilobyte>();
    assert_eq!(converted, SpecificSize::new("0.001", Kilobyte).unwrap());

    let left = SpecificSize::new("1000", Byte).unwrap();
    let converted = left.into::<Kilobyte>();
    assert_eq!(converted, SpecificSize::new("1", Kilobyte).unwrap());
    assert_eq!(converted.to_string(), "1 kB");
}
