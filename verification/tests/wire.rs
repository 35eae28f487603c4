use alphamon_rs::model::text::{read_text_field, trim, white_space};
use alphamon_rs::model::wire::{
    bytes_equal, fields, find_byte, parse_decimal, parse_u32, read_flag, u16_from_be, u32_from_be,
    Decimal,
};
use alphamon_rs::Error;

fn decimal(negative: bool, mantissa: u64, scale: usize) -> Decimal {
    Decimal { negative, mantissa, scale }
}

fn as_f64(d: &Decimal) -> f64 {
    let magnitude = d.mantissa as f64 / 10f64.powi(d.scale as i32);
    if d.negative {
        -magnitude
    } else {
        magnitude
    }
}

#[test]
fn integer_fields() {
    assert_eq!(parse_u32(b"034"), Ok(34));
    assert_eq!(parse_u32(b"0"), Ok(0));
    assert_eq!(parse_u32(b"+7"), Ok(7));
    assert_eq!(parse_u32(b"4294967295"), Ok(4_294_967_295));
    assert_eq!(parse_u32(b"0000000000000000000000004294967295"), Ok(4_294_967_295));
}

#[test]
fn integer_fields_malformed() {
    let malformed: [&[u8]; 14] = [
        b"", b"+", b"-1", b"-0", b"++1", b"1+", b" 1", b"1 ", b"1.0", b"0x10", b"4294967296",
        b"99999999999999999999999999", b"12a", b"\xff",
    ];
    for field in malformed {
        assert_eq!(parse_u32(field), Err(Error::IntParse));
    }
}

#[test]
fn decimal_fields() {
    assert_eq!(parse_decimal(b"208.4"), Ok(decimal(false, 2084, 1)));
    assert_eq!(parse_decimal(b"072.0"), Ok(decimal(false, 720, 1)));
    assert_eq!(parse_decimal(b"2.05"), Ok(decimal(false, 205, 2)));
    assert_eq!(parse_decimal(b"35"), Ok(decimal(false, 35, 0)));
    assert_eq!(parse_decimal(b"-4.5"), Ok(decimal(true, 45, 1)));
    assert_eq!(parse_decimal(b"+4.5"), Ok(decimal(false, 45, 1)));
    assert_eq!(parse_decimal(b"5."), Ok(decimal(false, 5, 0)));
    assert_eq!(parse_decimal(b".5"), Ok(decimal(false, 5, 1)));
    assert_eq!(parse_decimal(b"-.25"), Ok(decimal(true, 25, 2)));
    assert_eq!(parse_decimal(b"-0"), Ok(decimal(true, 0, 0)));
    assert_eq!(parse_decimal(b"0.000"), Ok(decimal(false, 0, 3)));
    assert_eq!(
        parse_decimal(b"18446744073709551.615"),
        Ok(decimal(false, 18_446_744_073_709_551_615, 3))
    );
}

#[test]
fn decimal_fields_read_as_numbers() {
    assert_eq!(as_f64(&parse_decimal(b"208.4").unwrap()), 208.4);
    assert_eq!(as_f64(&parse_decimal(b"59.9").unwrap()), 59.9);
    assert_eq!(as_f64(&parse_decimal(b"-4.5").unwrap()), -4.5);
    assert_eq!(as_f64(&parse_decimal(b"072.0").unwrap()), 72.0);
}

#[test]
fn decimal_fields_malformed() {
    let malformed: [&[u8]; 18] = [
        b"", b".", b"+", b"-", b"+.", b"1.2.3", b"1..2", b"--1", b"+-1", b"1-", b" 1.0", b"1.0 ",
        b"1,0", b"1e3", b"inf", b"NaN", b"0x1p3", b"\xff.0",
    ];
    for field in malformed {
        assert_eq!(parse_decimal(field), Err(Error::FloatParse));
    }
}

#[test]
fn decimal_fields_too_long_for_64_bits() {
    assert_eq!(parse_decimal(b"18446744073709551616"), Err(Error::FloatParse));
    assert_eq!(parse_decimal(b"1844674407370955161.6"), Err(Error::FloatParse));
    assert_eq!(parse_decimal(b"1.8446744073709551616"), Err(Error::FloatParse));
    assert_eq!(parse_decimal(b"99999999999999999999999999"), Err(Error::FloatParse));
}

#[test]
fn big_endian_fields() {
    assert_eq!(u16_from_be(1, 244), 500);
    assert_eq!(u16_from_be(3, 182), 950);
    assert_eq!(u16_from_be(3, 170), 938);
    assert_eq!(u16_from_be(0, 0), 0);
    assert_eq!(u16_from_be(0xff, 0xff), 0xffff);
    assert_eq!(u16_from_be(0x12, 0x34), 0x1234);
    assert_eq!(u32_from_be(&[0, 0, 5, 68]), Ok(1348));
    assert_eq!(u32_from_be(&[0x12, 0x34, 0x56, 0x78]), Ok(0x1234_5678));
    assert_eq!(u32_from_be(&[0xff, 0xff, 0xff, 0xff]), Ok(0xffff_ffff));
    assert_eq!(u32_from_be(&[0, 0, 5]), Err(Error::InvalidParameterLength));
    assert_eq!(u32_from_be(&[0, 0, 5, 68, 0]), Err(Error::InvalidParameterLength));
    assert_eq!(u32_from_be(&[]), Err(Error::InvalidParameterLength));
}

#[test]
fn flag_octets() {
    assert!(read_flag(b'1'));
    assert!(!read_flag(b'0'));
    assert!(!read_flag(1));
    assert!(!read_flag(b' '));
    assert!(!read_flag(0xff));
}

#[test]
fn fields_between_separators() {
    let expected: [&[u8]; 3] = [b"a", b"bc", b"def"];
    assert_eq!(fields(b"a bc def"), expected);
    let expected: [&[u8]; 1] = [b""];
    assert_eq!(fields(b""), expected);
    let expected: [&[u8]; 1] = [b"abc"];
    assert_eq!(fields(b"abc"), expected);
    let expected: [&[u8]; 4] = [b"", b"a", b"", b""];
    assert_eq!(fields(b" a  "), expected);
    let expected: [&[u8]; 2] = [b"a\tb", b"c\r"];
    assert_eq!(fields(b"a\tb c\r"), expected);
}

#[test]
fn fields_as_the_standard_split() {
    let inputs: [&[u8]; 5] = [
        b"208.4 140.0 208.4 034 59.9 2.05 35.0 00110000",
        b"230.0 008 072.0 50.0",
        b"   ",
        b" x",
        b"x ",
    ];
    for input in inputs {
        let expected: Vec<&[u8]> = input.split(|b| *b == b' ').collect();
        assert_eq!(fields(input), expected);
    }
}

#[test]
fn first_occurrence_of_a_byte() {
    assert_eq!(find_byte(b"abcabc", b'b'), Some(1));
    assert_eq!(find_byte(b"abcabc", b'a'), Some(0));
    assert_eq!(find_byte(b"abcabc", b'd'), None);
    assert_eq!(find_byte(b"", b'a'), None);
}

#[test]
fn byte_strings_compared() {
    assert!(bytes_equal(b"2.05", b"2.05"));
    assert!(bytes_equal(b"", b""));
    assert!(!bytes_equal(b"2.05", b"2.04"));
    assert!(!bytes_equal(b"2.05", b"2.0"));
    assert!(!bytes_equal(b"2.0", b"2.05"));
}

#[test]
fn white_space_characters() {
    for c in ['\t', '\n', '\u{b}', '\u{c}', '\r', ' ', '\u{85}', '\u{a0}', '\u{1680}', '\u{2000}',
        '\u{200a}', '\u{2028}', '\u{2029}', '\u{202f}', '\u{205f}', '\u{3000}']
    {
        assert!(white_space(c));
    }
    for c in ['\0', '\u{8}', '\u{e}', '\u{1f}', '!', 'a', '0', '\u{7f}', '\u{84}', '\u{86}',
        '\u{9f}', '\u{a1}', '\u{180e}', '\u{200b}', '\u{2060}', '\u{feff}', '\u{fffd}']
    {
        assert!(!white_space(c));
    }
}

#[test]
fn white_space_as_the_standard_library_has_it() {
    let mut code: u32 = 0;
    while code <= 0x10ffff {
        if let Some(c) = char::from_u32(code) {
            assert_eq!(white_space(c), c.is_whitespace());
        }
        code += 1;
    }
}

#[test]
fn trimming() {
    assert_eq!(trim("  a b  "), "a b");
    assert_eq!(trim("a"), "a");
    assert_eq!(trim(""), "");
    assert_eq!(trim(" \t\r\n"), "");
    assert_eq!(trim("\u{a0}\u{e9}t\u{e9}\u{3000}"), "\u{e9}t\u{e9}");
    assert_eq!(trim("x \u{fffd}"), "x \u{fffd}");
    for text in ["  a b  ", "\u{2003}q", "q\u{85}", " \0 ", "\u{feff} x"] {
        assert_eq!(trim(text), text.trim());
    }
}

#[test]
fn text_fields() {
    assert_eq!(read_text_field(b"ALPHA OUTBACK  "), "ALPHA OUTBACK");
    assert_eq!(read_text_field(b"   V1.02  "), "V1.02");
    assert_eq!(read_text_field(b""), "");
    assert_eq!(read_text_field(b"a\xffb"), "a\u{fffd}b");
    assert_eq!(read_text_field(b" \xc3\xa9 "), "\u{e9}");
    assert_eq!(read_text_field(b"\xc3"), "\u{fffd}");
}
