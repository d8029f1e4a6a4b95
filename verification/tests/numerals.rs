use llua::numeral::{decimal_run, digit, hex_run, is_space, numeral, signed, skip, DECIMAL_CAP};
use llua::{Number, State, Strict, Type};

#[test]
fn decimal_numerals() {
    assert_eq!(numeral(b"10"), Some(10));
    assert_eq!(numeral(b"0"), Some(0));
    assert_eq!(numeral(b"007"), Some(7));
    assert_eq!(numeral(b"+7"), Some(7));
    assert_eq!(numeral(b"-42"), Some(-42));
    assert_eq!(numeral(b"  -42  "), Some(-42));
    assert_eq!(numeral(b"\t10\n"), Some(10));
    assert_eq!(numeral(b"\x0b\x0c\r 3"), Some(3));
    assert_eq!(numeral(b"9223372036854775807"), Some(i64::MAX));
    assert_eq!(numeral(b"-9223372036854775808"), Some(i64::MIN));
    assert_eq!(numeral(b"-9223372036854775807"), Some(i64::MIN + 1));
}

#[test]
fn a_decimal_numeral_too_large_is_no_integer() {
    assert_eq!(numeral(b"9223372036854775808"), None);
    assert_eq!(numeral(b"-9223372036854775809"), None);
    assert_eq!(numeral(b"9223372036854775810"), None);
    assert_eq!(numeral(b"18446744073709551616"), None);
    assert_eq!(numeral(b"99999999999999999999999999999999999999999"), None);
    assert_eq!(numeral(b"00000000000000000000000000000000000000001"), Some(1));
}

#[test]
fn hexadecimal_numerals_wrap_around() {
    assert_eq!(numeral(b"0x10"), Some(16));
    assert_eq!(numeral(b"0XfF"), Some(255));
    assert_eq!(numeral(b" 0xabcdef "), Some(0xabcdef));
    assert_eq!(numeral(b"0xABCDEF"), Some(0xabcdef));
    assert_eq!(numeral(b"-0x1"), Some(-1));
    assert_eq!(numeral(b"+0x1"), Some(1));
    assert_eq!(numeral(b"0x7fffffffffffffff"), Some(i64::MAX));
    assert_eq!(numeral(b"0x8000000000000000"), Some(i64::MIN));
    assert_eq!(numeral(b"0xffffffffffffffff"), Some(-1));
    assert_eq!(numeral(b"-0xffffffffffffffff"), Some(1));
    assert_eq!(numeral(b"-0x8000000000000000"), Some(i64::MIN));
    assert_eq!(numeral(b"0x10000000000000001"), Some(1));
    assert_eq!(numeral(b"0x123456789abcdef01"), Some(0x23456789abcdef01));
}

#[test]
fn what_is_no_integer_numeral() {
    for text in [
        &b""[..],
        b" ",
        b"-",
        b"+",
        b"0x",
        b"0x ",
        b"x10",
        b"1.5",
        b"10.0",
        b"1e3",
        b".5",
        b"12a",
        b"1 2",
        b"--1",
        b"+-1",
        b"- 1",
        b"0x-1",
        b"0xg",
        b"10\0",
        b"\x0010",
        b"ten",
        b"inf",
        b"nan",
    ] {
        assert_eq!(numeral(text), None, "{:?}", text);
    }
}

#[test]
fn the_parts_of_a_numeral() {
    assert!(is_space(b' ') && is_space(b'\t') && is_space(b'\n') && is_space(b'\r'));
    assert!(is_space(0x0b) && is_space(0x0c));
    assert!(!is_space(b'0') && !is_space(0) && !is_space(8) && !is_space(14));
    assert_eq!(digit(b'7', false), Some(7));
    assert_eq!(digit(b'a', false), None);
    assert_eq!(digit(b'a', true), Some(10));
    assert_eq!(digit(b'F', true), Some(15));
    assert_eq!(digit(b'g', true), None);
    assert_eq!(digit(b'/', true), None);
    assert_eq!(digit(b':', false), None);
    assert_eq!(skip(b"  x ", 0), 2);
    assert_eq!(skip(b"  x ", 2), 2);
    assert_eq!(skip(b"   ", 1), 3);
    assert_eq!(decimal_run(b"a123b", 1), (4, 123));
    assert_eq!(decimal_run(b"a123b", 0), (0, 0));
    assert_eq!(decimal_run(b"9223372036854775808", 0), (19, 0x8000_0000_0000_0000));
    assert_eq!(decimal_run(b"9223372036854775809", 0), (19, DECIMAL_CAP));
    assert_eq!(decimal_run(b"92233720368547758090", 0), (20, DECIMAL_CAP));
    assert_eq!(hex_run(b"ffz", 0), (2, 255));
    assert_eq!(hex_run(b"1ffffffffffffffff", 0), (17, u64::MAX));
    assert_eq!(signed(5, false), 5);
    assert_eq!(signed(5, true), -5);
    assert_eq!(signed(0, true), 0);
    assert_eq!(signed(u64::MAX, false), -1);
    assert_eq!(signed(u64::MAX, true), 1);
    assert_eq!(signed(0x8000_0000_0000_0000, true), i64::MIN);
    assert_eq!(signed(0x8000_0000_0000_0000, false), i64::MIN);
}

#[test]
fn a_string_that_is_a_numeral_reads_as_a_number() {
    let mut s = State::new();
    s.push(b"10".to_vec());
    s.push(b" 0x10 ".to_vec());
    s.push(b"ten".to_vec());
    s.push(b"1.5".to_vec());
    s.push(b"300".to_vec());
    s.push(b"-1".to_vec());
    // the value stays a string
    assert_eq!(s.type_of(1), Type::String);
    assert!(s.is_string(1) && !s.is_integer(1));
    assert!(s.is_number(1) && s.is_number(2) && !s.is_number(3) && !s.is_number(4));
    assert_eq!(s.numeral(1), Some(10));
    assert_eq!(s.to_integerx(1), Some(10));
    assert_eq!(s.to_integerx(2), Some(16));
    assert_eq!(s.to_integerx(3), None);
    assert_eq!(s.to_integer(3), 0);
    assert_eq!(s.to_integer(6), -1);
    assert_eq!(s.to_numberx(1), Some(10.0f64.to_bits()));
    assert_eq!(s.to_numberx(6), Some((-1.0f64).to_bits()));
    assert_eq!(s.to_numberx(3), None);
    assert_eq!(s.to_number(3), 0);
    assert_eq!(s.arg::<Number>(2), Some(Number(16.0f64.to_bits())));
    assert_eq!(s.arg::<i64>(1), Some(10));
    assert_eq!(s.arg::<u8>(5), Some(255));
    assert_eq!(s.arg::<i8>(5), Some(127));
    assert_eq!(s.arg::<u32>(6), Some(0));
    assert_eq!(s.arg::<i32>(6), Some(-1));
    assert_eq!(s.arg::<i32>(3), None);
    assert_eq!(s.arg::<Strict<i64>>(1), None);
    // a numeral with a fraction is left to the reader of floats
    assert_eq!(s.to_numberx(4), None);
    assert_eq!(s.arg::<Vec<u8>>(1), Some(b"10".to_vec()));
    assert_eq!(s.get_top(), 6);
}
