use std::cmp::Ordering;

use human_size::{
    Any, Byte, InvalidValueError, Kilobyte, Megabyte, ParsingError, Size, SpecificSize, Terabyte,
};

fn size(value: &str, multiple: Any) -> Size {
    Size::new(value, multiple).unwrap()
}

#[test]
fn size_from_str() {
    let tests = vec![
        ("100 B", Ok(size("100", Any::Byte))),
        ("12 kB", Ok(size("12", Any::Kilobyte))),
        ("25 MB", Ok(size("25", Any::Megabyte))),
        ("1 GB", Ok(size("1", Any::Gigabyte))),
        ("1000 TB", Ok(size("1000", Any::Terabyte))),
        ("12 PB", Ok(size("12", Any::Petabyte))),
        ("10 EB", Ok(size("10", Any::Exabyte))),
        ("12 ZB", Ok(size("12", Any::Zettabyte))),
        ("0 YB", Ok(size("0", Any::Yottabyte))),
        ("99999 KB", Ok(size("99999", Any::Kibibyte))),
        ("1 KiB", Ok(size("1", Any::Kibibyte))),
        ("12 MiB", Ok(size("12", Any::Mebibyte))),
        ("123 GiB", Ok(size("123", Any::Gigibyte))),
        ("129 TiB", Ok(size("129", Any::Tebibyte))),
        ("99 PiB", Ok(size("99", Any::Pebibyte))),
        ("45 EiB", Ok(size("45", Any::Exbibyte))),
        ("12 ZiB", Ok(size("12", Any::Zebibyte))),
        ("2 YiB", Ok(size("2", Any::Yobibyte))),
        ("", Err(ParsingError::EmptyInput)),
        ("10 abc", Err(ParsingError::InvalidMultiple)),
        ("10 B EXTRA", Err(ParsingError::InvalidMultiple)),
    ];

    for test in tests {
        let got = Size::from_str(test.0);
        let want = test.1;
        assert_eq!(got, want, "input: {:?}", test.0);
    }
}

#[test]
fn size_equivalence() {
    let tests = vec![
        (size("1", Any::Byte), size("1", Any::Byte), true),
        (size("1000", Any::Byte), size("1", Any::Kilobyte), true),
        (size("1024", Any::Byte), size("1", Any::Kibibyte), true),
        (size("1000000000", Any::Byte), size("1", Any::Gigabyte), true),
        (size("1073741824", Any::Byte), size("1", Any::Gigibyte), true),
        (size("1024", Any::Byte), size("1", Any::Kilobyte), false),
        (size("1000", Any::Byte), size("1", Any::Kibibyte), false),
    ];

    for test in tests {
        let got = test.0 == test.1;
        let want = test.2;
        assert_eq!(got, want, "input: {:?} and {:?}", test.0, test.1);
    }
}

#[test]
fn size_comparing() {
    let tests = vec![
        (size("1", Any::Byte), size("1", Any::Byte), Some(Ordering::Equal)),
        (size("1000", Any::Byte), size("1", Any::Kilobyte), Some(Ordering::Equal)),
        (size("1024", Any::Byte), size("1", Any::Kibibyte), Some(Ordering::Equal)),
        (size("1000000000", Any::Byte), size("1", Any::Gigabyte), Some(Ordering::Equal)),
        (size("1073741824", Any::Byte), size("1", Any::Gigibyte), Some(Ordering::Equal)),
        (size("1", Any::Byte), size("2", Any::Byte), Some(Ordering::Less)),
        (size("1024", Any::Byte), size("1", Any::Kilobyte), Some(Ordering::Greater)),
        (size("1000", Any::Byte), size("1", Any::Kibibyte), Some(Ordering::Less)),
    ];

    for test in tests {
        let got = test.0.partial_cmp(&test.1);
        let want = test.2;
        assert_eq!(got, want, "input: {:?} and {:?}", test.0, test.1);
    }
}

#[test]
fn size_to_string() {
    let tests = vec![
        (size("100", Any::Byte), "100 B"),
        (size("2", Any::Kilobyte), "2 kB"),
        (size("25", Any::Megabyte), "25 MB"),
        (size("3", Any::Gigabyte), "3 GB"),
        (size("38", Any::Terabyte), "38 TB"),
        (size("100", Any::Zettabyte), "100 ZB"),
        (size("2", Any::Mebibyte), "2 MiB"),
        (size("3", Any::Zebibyte), "3 ZiB"),
        (size("1000", Any::Yobibyte), "1000 YiB"),
    ];

    for test in tests {
        let got = test.0.to_string();
        let want = test.1;
        assert_eq!(got, want, "input: {:?}", test.0);
    }
}

#[test]
fn multiple_from_str() {
    let tests = vec![
        ("B", Ok(Any::Byte)),
        ("kB", Ok(Any::Kilobyte)),
        ("MB", Ok(Any::Megabyte)),
        ("GB", Ok(Any::Gigabyte)),
        ("TB", Ok(Any::Terabyte)),
        ("PB", Ok(Any::Petabyte)),
        ("EB", Ok(Any::Exabyte)),
        ("ZB", Ok(Any::Zettabyte)),
        ("YB", Ok(Any::Yottabyte)),
        ("KB", Ok(Any::Kibibyte)),
        ("KiB", Ok(Any::Kibibyte)),
        ("MiB", Ok(Any::Mebibyte)),
        ("GiB", Ok(Any::Gigibyte)),
        ("TiB", Ok(Any::Tebibyte)),
        ("PiB", Ok(Any::Pebibyte)),
        ("EiB", Ok(Any::Exbibyte)),
        ("ZiB", Ok(Any::Zebibyte)),
        ("YiB", Ok(Any::Yobibyte)),
        ("", Err(ParsingError::InvalidMultiple)),
        ("abc", Err(ParsingError::InvalidMultiple)),
    ];

    for test in tests {
        let got = Any::from_str(test.0);
        let want = test.1;
        assert_eq!(got, want, "input: {:?}", test.0);
    }
}

#[test]
fn multiple_to_string() {
    let tests = vec![
        (Any::Byte, "B"),
        (Any::Kilobyte, "kB"),
        (Any::Megabyte, "MB"),
        (Any::Gigabyte, "GB"),
        (Any::Terabyte, "TB"),
        (Any::Petabyte, "PB"),
        (Any::Exabyte, "EB"),
        (Any::Zettabyte, "ZB"),
        (Any::Yottabyte, "YB"),
        (Any::Kibibyte, "KiB"),
        (Any::Mebibyte, "MiB"),
        (Any::Gigibyte, "GiB"),
        (Any::Tebibyte, "TiB"),
        (Any::Pebibyte, "PiB"),
        (Any::Exbibyte, "EiB"),
        (Any::Zebibyte, "ZiB"),
        (Any::Yobibyte, "YiB"),
    ];

    for test in tests {
        let got = test.0.to_string();
        let want = test.1;
        assert_eq!(got, want, "input: {:?}", test.0);
    }
}

#[test]
fn parsing_error() {
    let tests = vec![
        (ParsingError::EmptyInput, "input is empty"),
        (ParsingError::MissingValue, "no value"),
        (ParsingError::InvalidValue, "invalid value"),
        (ParsingError::MissingMultiple, "no multiple"),
        (ParsingError::InvalidMultiple, "invalid multiple"),
    ];

    for test in tests {
        let got = test.0.to_string();
        let want = test.1;
        assert_eq!(got, want, "input: {:?}", test.0);
    }
    assert_eq!(InvalidValueError.to_string(), "invalid value");
}

#[test]
fn size_serialize() {
    let tests = vec![
        (SpecificSize::new("100", Byte).unwrap().to_string(), "100 B"),
        (SpecificSize::new("3000", Kilobyte).unwrap().to_string(), "3000 kB"),
        (SpecificSize::new("132", Terabyte).unwrap().to_string(), "132 TB"),
        (SpecificSize::new("0", Megabyte).unwrap().to_string(), "0 MB"),
    ];

    for test in tests {
        assert_eq!(test.0, test.1);
        let back: Size = test.0.parse().unwrap();
        assert_eq!(back.to_string(), test.1);
    }
}

#[test]
fn size_deserialize_error() {
    let tests = vec![
        ("", "input is empty"),
        ("B", "no value"),
        ("abc MB", "no value"),
        ("1.0.0 GB", "invalid value"),
        (". B", "invalid value"),
        ("10", "no multiple"),
        ("10 abc", "invalid multiple"),
        ("10 B extra", "invalid multiple"),
    ];

    for test in tests {
        let got: Result<Size, ParsingError> = test.0.parse();
        assert_eq!(got.unwrap_err().to_string(), test.1, "input: {:?}", test.0);
    }
}
