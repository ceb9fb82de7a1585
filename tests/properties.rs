use std::cmp::Ordering;

use human_size::{
    Any, Byte, Fraction, InvalidValueError, Kibibyte, Kilobyte, ParsingError, Size, SpecificSize,
    Yobibyte,
};

const UNITS: [Any; 17] = [
    Any::Byte,
    Any::Kilobyte,
    Any::Megabyte,
    Any::Gigabyte,
    Any::Terabyte,
    Any::Petabyte,
    Any::Exabyte,
    Any::Zettabyte,
    Any::Yottabyte,
    Any::Kibibyte,
    Any::Mebibyte,
    Any::Gigibyte,
    Any::Tebibyte,
    Any::Pebibyte,
    Any::Exbibyte,
    Any::Zebibyte,
    Any::Yobibyte,
];

#[test]
fn format_then_parse_round_trip() {
    let values = ["0", "1", "1.5", "0.001", "123.456", "99999", "0.000000001"];
    for unit in UNITS {
        for value in values {
            let size = Size::new(value, unit).unwrap();
            let text = size.to_string();
            let back = Size::from_str(&text).unwrap();
            assert_eq!(back, size, "text: {:?}", text);
            assert_eq!(back.multiple(), unit);
            assert_eq!(back.value(), size.value());
            assert_eq!(back.to_string(), text);
        }
    }
    // One byte in yobibytes needs every digit after the point.
    let tiny = SpecificSize::new("1", Byte).unwrap().into::<Yobibyte>();
    let text = tiny.to_string();
    assert_eq!(
        text,
        "0.00000000000000000000000082718061255302767487140869206996285356581211090087890625 YiB"
    );
    let back: SpecificSize<Yobibyte> = text.parse().unwrap();
    assert_eq!(back.into::<Byte>().to_string(), "1 B");
}

#[test]
fn cross_multiple_equivalence() {
    let thousand_bytes = SpecificSize::new("1000", Byte).unwrap();
    let kibi_bytes = SpecificSize::new("1024", Byte).unwrap();
    let kilobyte = SpecificSize::new("1", Kilobyte).unwrap();
    let kibibyte = SpecificSize::new("1", Kibibyte).unwrap();
    assert!(thousand_bytes == kilobyte);
    assert!(kibi_bytes == kibibyte);
    assert!(kibi_bytes != kilobyte);
}

#[test]
fn kibibyte_is_greater_than_kilobyte() {
    let kibibyte = SpecificSize::new("1", Kibibyte).unwrap();
    let kilobyte = SpecificSize::new("1", Kilobyte).unwrap();
    assert!(kibibyte > kilobyte);
    assert_eq!(kibibyte.partial_cmp(&kilobyte), Some(Ordering::Greater));
}

#[test]
fn parser_failure_cases() {
    let cases = [
        ("", ParsingError::EmptyInput),
        ("   \t ", ParsingError::EmptyInput),
        ("B", ParsingError::MissingValue),
        ("10", ParsingError::MissingMultiple),
        ("1.5.", ParsingError::MissingMultiple),
        ("10 xyz", ParsingError::InvalidMultiple),
        ("10 kb", ParsingError::InvalidMultiple),
        ("1.0.0 GB", ParsingError::InvalidValue),
        ("0.0000000001 B", ParsingError::InvalidValue),
        ("400000000000000000000000000000 B", ParsingError::InvalidValue),
    ];
    for (input, err) in cases {
        assert_eq!(Size::from_str(input), Err(err), "input: {:?}", input);
    }
}

#[test]
fn conversion_identity() {
    for unit in UNITS {
        for target in UNITS {
            for value in ["1", "3.75", "1000", "0.5", "0.000000001"] {
                let size = Size::new(value, unit).unwrap();
                let there = size.convert_to(target);
                assert_eq!(there.multiple(), target);
                let back = there.convert_to(unit);
                assert_eq!(back, size);
                assert_eq!(back.multiple(), unit);
                assert_eq!(back.to_string(), size.to_string());
            }
        }
    }
    let size = SpecificSize::new("2.5", Kibibyte).unwrap();
    let bytes = size.into::<Byte>();
    assert_eq!(bytes.to_string(), "2560 B");
    let again = bytes.into::<Kibibyte>();
    assert_eq!(again, size);
    assert_eq!(again.to_string(), "2.5 KiB");
}

#[test]
fn construction_rejects_non_numbers_and_accepts_zero() {
    for unit in UNITS {
        for text in ["NaN", "inf", "-inf", "", ".", "-1", "1e3", "1,5"] {
            assert_eq!(Size::new(text, unit), Err(InvalidValueError), "text: {:?}", text);
        }
        for text in ["0", "0.0", ".0", "0.", "000"] {
            let zero = Size::new(text, unit).unwrap();
            assert_eq!(zero.value().numerator, 0);
            assert_eq!(zero.to_string(), format!("0 {}", unit.to_string()));
        }
    }
}

#[test]
fn construction_limits() {
    // A non-zero value below one billionth of a byte.
    assert_eq!(SpecificSize::new("0.0000000001", Byte), Err(InvalidValueError));
    // Extra precision is rounded down to a billionth of a byte.
    let size = SpecificSize::new("1.0000000019", Byte).unwrap();
    assert_eq!(size.to_string(), "1.000000001 B");
    // The largest amount is u128::MAX billionths of a byte.
    assert!(SpecificSize::new("340282366920938463463374607431.768211455", Byte).is_ok());
    assert_eq!(
        SpecificSize::new("340282366920938463463374607431.768211456", Byte),
        Err(InvalidValueError)
    );
}

#[test]
fn value_is_exact_fraction() {
    let size = SpecificSize::new("1.5", Kilobyte).unwrap();
    assert_eq!(
        size.value(),
        Fraction { numerator: 1_500_000_000_000, denominator: 1_000_000_000_000 }
    );
    assert_eq!(size.multiple(), Kilobyte);
    assert_eq!(Any::Kibibyte.multiple_of_bytes(), 1024);
    assert_eq!(Any::Yobibyte.multiple_of_bytes(), 1_208_925_819_614_629_174_706_176);
}

#[test]
fn precision_rounds_half_to_even() {
    let cases = [
        ("0.25", 1, "0.2 B"),
        ("0.35", 1, "0.4 B"),
        ("1.5", 0, "2 B"),
        ("2.5", 0, "2 B"),
        ("9.99", 1, "10.0 B"),
        ("9.96", 1, "10.0 B"),
        ("1", 3, "1.000 B"),
        ("0.000000001", 2, "0.00 B"),
    ];
    for (value, precision, expected) in cases {
        let size = SpecificSize::new(value, Byte).unwrap();
        assert_eq!(size.to_string_with_precision(precision), expected, "value: {:?}", value);
    }
    let size = SpecificSize::new("1", Kibibyte).unwrap().into::<Kilobyte>();
    assert_eq!(size.to_string(), "1.024 kB");
    assert_eq!(size.to_string_with_precision(2), "1.02 kB");
}

#[test]
fn multiple_aliases() {
    assert_eq!(Any::from_str("KB"), Ok(Any::Kibibyte));
    assert_eq!(Any::from_str("kB"), Ok(Any::Kilobyte));
    assert_eq!(Any::from_str("kb"), Err(ParsingError::InvalidMultiple));
    assert_eq!(Any::from(Kibibyte), Any::Kibibyte);
}
