use llua::convert::{FromLua, ToLua};
use llua::convert_multi::{FromLuaMulti, ToLuaMulti};
use llua::{AnyVal, ByteBuf, Error, NilVal, Pushed, Slot, StackRef, State, Strict, TopVal, Type, Value};

fn round_trip<T: ToLua + FromLua + Clone + PartialEq + std::fmt::Debug>(x: T) {
    let mut s = State::new();
    s.push_integer(77);
    s.push(x.clone());
    assert_eq!(s.get_top(), 2);
    assert_eq!(s.arg::<T>(-1), Some(x.clone()));
    assert_eq!(s.arg::<T>(2), Some(x));
    // the cell below is untouched
    assert_eq!(s.value(1), Value::Int(77));
}

#[test]
fn integers_round_trip() {
    for x in [0i8, 1, -1, i8::MIN, i8::MAX] {
        round_trip(x);
    }
    for x in [0i16, 1, -1, i16::MIN, i16::MAX] {
        round_trip(x);
    }
    for x in [0i32, 1, -1, i32::MIN, i32::MAX] {
        round_trip(x);
    }
    for x in [0i64, 1, -1, i64::MIN, i64::MAX] {
        round_trip(x);
    }
    for x in [0isize, 1, -1, isize::MIN, isize::MAX] {
        round_trip(x);
    }
    for x in [0u8, 1, u8::MAX] {
        round_trip(x);
    }
    for x in [0u16, 1, u16::MAX] {
        round_trip(x);
    }
    for x in [0u32, 1, u32::MAX] {
        round_trip(x);
    }
    for x in [0u64, 1, i64::MAX as u64, i64::MAX as u64 + 1, u64::MAX] {
        round_trip(x);
    }
    for x in [0usize, 1, usize::MAX / 2, usize::MAX / 2 + 1, usize::MAX] {
        round_trip(x);
    }
}

#[test]
fn booleans_round_trip() {
    round_trip(true);
    round_trip(false);
}

#[test]
fn byte_strings_round_trip() {
    round_trip(Vec::<u8>::new());
    round_trip(b"hello".to_vec());
    // embedded NUL and bytes that are no UTF-8
    round_trip(vec![0u8, 1, 0, 255, 254, 0]);
    round_trip(vec![0xc3, 0x28, 0xa0, 0xa1, 0xf0, 0x28, 0x8c, 0xbc]);
}

#[test]
fn equal_strings_are_one_string() {
    let mut s = State::new();
    s.push(b"same".to_vec());
    s.push(b"other".to_vec());
    s.push(b"same".to_vec());
    assert!(s.raw_equal(1, 3));
    assert!(!s.raw_equal(1, 2));
    assert_eq!(s.raw_len(1), 4);
    assert_eq!(s.raw_len(2), 5);
}

#[test]
fn an_unsigned_integer_is_pushed_as_the_integer_with_its_bits() {
    let mut s = State::new();
    s.push(u64::MAX);
    assert_eq!(s.value(-1), Value::Int(-1));
    s.push(1u64 << 63);
    assert_eq!(s.value(-1), Value::Int(i64::MIN));
    s.push(200u8);
    assert_eq!(s.value(-1), Value::Int(200));
    s.push(-3i8);
    assert_eq!(s.value(-1), Value::Int(-3));
}

#[test]
fn an_integer_that_does_not_fit_wraps() {
    let mut s = State::new();
    s.push_integer(300);
    assert_eq!(s.arg::<u8>(-1), Some(300i64 as u8));
    assert_eq!(s.arg::<u8>(-1), Some(44));
    assert_eq!(s.arg::<i8>(-1), Some(300i64 as i8));
    s.push_integer(-1);
    assert_eq!(s.arg::<u8>(-1), Some(255));
    assert_eq!(s.arg::<u16>(-1), Some(u16::MAX));
    assert_eq!(s.arg::<u32>(-1), Some(u32::MAX));
    assert_eq!(s.arg::<u64>(-1), Some(u64::MAX));
    assert_eq!(s.arg::<usize>(-1), Some(usize::MAX));
    s.push_integer(i64::MIN);
    assert_eq!(s.arg::<i32>(-1), Some(i64::MIN as i32));
    assert_eq!(s.arg::<i16>(-1), Some(0));
    assert_eq!(s.arg::<isize>(-1), Some(i64::MIN as isize));
    s.push_integer(0x1_8000_0001);
    assert_eq!(s.arg::<i32>(-1), Some(0x1_8000_0001i64 as i32));
    assert_eq!(s.arg::<u32>(-1), Some(0x8000_0001));
    assert_eq!(s.arg::<i16>(-1), Some(1));
}

#[test]
fn a_float_is_read_as_an_integer_by_rounding_towards_zero_and_saturating() {
    let mut s = State::new();
    for x in [
        0.0f64, -0.0, 0.5, -0.5, 1.0, 1.5, -1.5, 2.9999, 127.0, 128.0, 255.9, 256.0, -128.9, -129.0,
        1e10, -1e10, 3e9, 4294967295.0, 4294967296.0, 9.2e18, 9.3e18, -9.3e18, 1.8e19, 1.9e19, 1e300,
        -1e300, f64::INFINITY, f64::NEG_INFINITY, f64::NAN, f64::MIN_POSITIVE, 5e-324, f64::MAX,
        9007199254740992.0, 9007199254740993.0, 4503599627370496.5,
    ] {
        s.set_top(0);
        s.push_number(x.to_bits());
        assert_eq!(s.arg::<i8>(1), Some(x as i8), "{x} as i8");
        assert_eq!(s.arg::<i16>(1), Some(x as i16), "{x} as i16");
        assert_eq!(s.arg::<i32>(1), Some(x as i32), "{x} as i32");
        assert_eq!(s.arg::<i64>(1), Some(x as i64), "{x} as i64");
        assert_eq!(s.arg::<isize>(1), Some(x as isize), "{x} as isize");
        assert_eq!(s.arg::<u8>(1), Some(x as u8), "{x} as u8");
        assert_eq!(s.arg::<u16>(1), Some(x as u16), "{x} as u16");
        assert_eq!(s.arg::<u32>(1), Some(x as u32), "{x} as u32");
        assert_eq!(s.arg::<u64>(1), Some(x as u64), "{x} as u64");
        assert_eq!(s.arg::<usize>(1), Some(x as usize), "{x} as usize");
    }
}

#[test]
fn strict_reads_accept_no_other_type() {
    let mut s = State::new();
    s.push_integer(5);
    s.push_number(5.0f64.to_bits());
    s.push_bool(true);
    s.push_nil();
    s.push(b"5".to_vec());
    assert_eq!(s.arg::<Strict<i32>>(1), Some(Strict(5)));
    assert_eq!(s.arg::<Strict<i32>>(2), None);
    assert_eq!(s.arg::<i32>(2), Some(5));
    assert_eq!(s.arg::<Strict<bool>>(3), Some(Strict(true)));
    assert_eq!(s.arg::<Strict<bool>>(1), None);
    assert_eq!(s.arg::<Strict<bool>>(4), None);
    // read loosely, everything has a truth value
    assert_eq!(s.arg::<bool>(1), Some(true));
    assert_eq!(s.arg::<bool>(4), Some(false));
    assert_eq!(s.arg::<bool>(9), Some(false));
    // a string that is an integer numeral is read as a number, but not
    // strictly
    assert_eq!(s.arg::<i32>(5), Some(5));
    assert_eq!(s.arg::<Strict<i32>>(5), None);
    assert_eq!(s.arg::<Vec<u8>>(1), None);
}

#[test]
fn a_value_of_the_wrong_type_reads_as_absent() {
    let mut s = State::new();
    s.push_bool(true);
    s.push(b"text".to_vec());
    s.new_table();
    assert_eq!(s.arg::<i32>(1), None);
    assert_eq!(s.arg::<i32>(2), None);
    assert_eq!(s.arg::<i32>(3), None);
    assert_eq!(s.arg::<i32>(4), None);
    assert_eq!(s.arg::<Vec<u8>>(3), None);
    assert_eq!(s.arg::<Option<i32>>(2), Some(None));
    assert_eq!(s.arg::<Option<Vec<u8>>>(2), Some(Some(b"text".to_vec())));
    assert!(s.arg::<AnyVal>(7).is_some());
    // nothing was touched
    assert_eq!(s.get_top(), 3);
    assert_eq!(s.type_of(3), Type::Table);
}

#[test]
fn options_and_placeholders() {
    let mut s = State::new();
    s.push(Some(4i32));
    s.push(None::<i32>);
    s.push(NilVal);
    s.push(None::<Vec<u8>>);
    assert_eq!(s.get_top(), 4);
    assert_eq!(s.value(1), Value::Int(4));
    assert_eq!(s.value(2), Value::Nil);
    assert_eq!(s.value(3), Value::Nil);
    assert_eq!(s.value(4), Value::Nil);
    s.push(TopVal);
    assert_eq!(s.get_top(), 4);
    s.push(StackRef(1));
    assert_eq!(s.get_top(), 5);
    assert_eq!(s.value(5), Value::Int(4));
    s.push(Slot::Bool(true));
    assert_eq!(s.value(6), Value::Bool(true));
}

#[test]
fn tuples_round_trip() {
    let mut s = State::new();
    s.push_integer(9);
    let t = (1i32, true, b"ab".to_vec(), -7i64, 255u8);
    assert_eq!(ToLuaMulti::to_lua(t.clone(), &mut s), Ok(5));
    assert_eq!(s.get_top(), 6);
    assert_eq!(<(i32, bool, Vec<u8>, i64, u8) as FromLuaMulti>::from_lua(&s, 2), Some(t));
    assert_eq!(<(i32, bool, Vec<u8>, i64, u8) as FromLuaMulti>::count(), 5);
    // elements go left to right
    assert_eq!(s.value(2), Value::Int(1));
    assert_eq!(s.value(3), Value::Bool(true));
    assert_eq!(s.value(4), Value::Str(b"ab".to_vec()));
    assert_eq!(s.value(5), Value::Int(-7));
    assert_eq!(s.value(6), Value::Int(255));
    assert_eq!(s.value(1), Value::Int(9));
}

#[test]
fn a_tuple_of_twelve_round_trips() {
    let mut s = State::new();
    let t = (1u8, 2u16, 3u32, 4u64, 5usize, 6i8, 7i16, 8i32, 9i64, 10isize, true, b"12".to_vec());
    assert_eq!(ToLuaMulti::to_lua(t.clone(), &mut s), Ok(12));
    assert_eq!(s.get_top(), 12);
    let back = <(u8, u16, u32, u64, usize, i8, i16, i32, i64, isize, bool, Vec<u8>) as FromLuaMulti>::from_lua(&s, 1);
    assert_eq!(back, Some(t));
}

#[test]
fn reading_with_another_arity_fails_cleanly() {
    let mut s = State::new();
    assert_eq!(ToLuaMulti::to_lua((1i32, 2i32), &mut s), Ok(2));
    // one more element than was pushed: the third cell is not there
    assert_eq!(<(i32, i32, i32) as FromLuaMulti>::from_lua(&s, 1), None);
    // fewer elements read what is there
    assert_eq!(<(i32,) as FromLuaMulti>::from_lua(&s, 1), Some((1,)));
    assert_eq!(<() as FromLuaMulti>::from_lua(&s, 1), Some(()));
    // nothing was touched
    assert_eq!(s.get_top(), 2);
    assert_eq!(s.value(1), Value::Int(1));
    assert_eq!(s.value(2), Value::Int(2));
    // checked, the failure cites the first cell that does not fit
    let e = <(i32, i32, i32) as FromLuaMulti>::check(&s, 1).unwrap_err();
    assert_eq!(e, Error::Runtime(b"bad argument #3 (i32 expected, got no value)".to_vec()));
    s.push_bool(true);
    let e = <(i32, Vec<u8>, i32) as FromLuaMulti>::check(&s, 1).unwrap_err();
    assert_eq!(e, Error::Runtime(b"bad argument #2 (bytes expected, got number)".to_vec()));
}

#[test]
fn multi_values_that_push_nothing_or_fail() {
    let mut s = State::new();
    assert_eq!(ToLuaMulti::to_lua((), &mut s), Ok(0));
    assert_eq!(s.get_top(), 0);
    s.push_integer(1);
    s.push_integer(2);
    assert_eq!(ToLuaMulti::to_lua(Pushed(2), &mut s), Ok(2));
    assert_eq!(ToLuaMulti::to_lua(Some(Pushed(1)), &mut s), Ok(1));
    assert_eq!(ToLuaMulti::to_lua(None::<Pushed>, &mut s), Ok(0));
    assert_eq!(s.get_top(), 2);
    let ok: Result<i32, Vec<u8>> = Ok(3);
    assert_eq!(ToLuaMulti::to_lua(ok, &mut s), Ok(1));
    assert_eq!(s.value(-1), Value::Int(3));
    let failed: Result<i32, Vec<u8>> = Err(b"boom".to_vec());
    assert_eq!(ToLuaMulti::to_lua(failed, &mut s), Err(Error::Runtime(b"boom".to_vec())));
    let failed: Result<i32, Vec<u8>> = Err(b"boom".to_vec());
    assert_eq!(failed.to_lua_result(&mut s), Err(Error::Else(b"boom".to_vec())));
    let nested: Result<(i32, i32), Error> = Err(Error::runtime("deep"));
    assert_eq!(ToLuaMulti::to_lua(nested, &mut s), Err(Error::Runtime(b"deep".to_vec())));
    assert_eq!(s.get_top(), 3);
}

#[test]
fn byte_buffers_are_pushed_as_their_bytes() {
    let mut s = State::new();
    let buf = ByteBuf::from_vec(vec![1, 0, 2, 255]);
    assert_eq!(buf.to_vec(), vec![1, 0, 2, 255]);
    s.push(buf);
    assert_eq!(s.value(-1), Value::Str(vec![1, 0, 2, 255]));
    s.push(ByteBuf::from_vec(Vec::new()));
    assert_eq!(s.value(-1), Value::Str(Vec::new()));
    assert_eq!(s.get_top(), 2);
}

#[test]
fn push_result_pushes_or_raises() {
    let mut s = State::new();
    let ok: Result<i32, Vec<u8>> = Ok(5);
    assert_eq!(s.push_result(ok, false), Ok(1));
    assert_eq!(s.value(-1), Value::Int(5));
    let failed: Result<i32, Vec<u8>> = Err(b"nope".to_vec());
    assert_eq!(s.push_result(failed, false), Ok(2));
    assert_eq!(s.value(-2), Value::Bool(false));
    assert_eq!(s.value(-1), Value::Str(b"nope".to_vec()));
    let failed: Result<i32, Vec<u8>> = Err(b"nope".to_vec());
    assert_eq!(s.push_result(failed, true), Err(Error::Runtime(b"nope".to_vec())));
    assert_eq!(s.get_top(), 3);
    let r: Result<i32, Vec<u8>> = Err(b"x".to_vec());
    assert_eq!(s.check_result(r), Err(Error::Runtime(b"x".to_vec())));
    let r: Result<i32, Vec<u8>> = Ok(1);
    assert_eq!(s.check_result(r), Ok(1));
}
