use llua::stack::REGISTRY_INDEX;
use llua::{Error, NilVal, Number, Reference, CRegVal, State, TopVal, Type, Value};

#[test]
fn fields_are_set_and_read_back() {
    let mut s = State::new();
    let t = s.table(0, 0);
    t.setf(&mut s, b"name", b"value".to_vec()).unwrap();
    t.setf(&mut s, b"count", 3i32).unwrap();
    t.seti(&mut s, 1, true).unwrap();
    t.setp(&mut s, 0x40, 9u8);
    assert_eq!(s.get_top(), 1);
    let v = t.getf(&mut s, b"name").unwrap();
    assert_eq!(v.index, 2);
    assert_eq!(s.value(-1), Value::Str(b"value".to_vec()));
    t.getf(&mut s, b"count").unwrap();
    assert_eq!(s.value(-1), Value::Int(3));
    t.geti(&mut s, 1).unwrap();
    assert_eq!(s.value(-1), Value::Bool(true));
    t.raw_geti(&mut s, 2);
    assert_eq!(s.value(-1), Value::Nil);
    t.getp(&mut s, 0x40);
    assert_eq!(s.value(-1), Value::Int(9));
    t.getf(&mut s, b"missing").unwrap();
    assert_eq!(s.value(-1), Value::Nil);
    assert_eq!(s.get_top(), 7);
    // overwriting and removing
    t.setf(&mut s, b"count", 4i32).unwrap();
    assert_eq!(t.getopt::<_, i32>(&mut s, b"count".to_vec()), Ok(Some(4)));
    t.setf(&mut s, b"count", NilVal).unwrap();
    assert_eq!(t.getopt::<_, i32>(&mut s, b"count".to_vec()), Ok(None));
    assert_eq!(s.get_top(), 7);
    assert_eq!(t.getopt::<_, Vec<u8>>(&mut s, b"name".to_vec()), Ok(Some(b"value".to_vec())));
}

#[test]
fn generic_keys_and_values() {
    let mut s = State::new();
    let t = s.table(0, 0);
    assert_eq!(t.set(&mut s, 1i32, b"one".to_vec()), Ok(()));
    assert_eq!(t.set(&mut s, b"k".to_vec(), 2i32), Ok(()));
    assert_eq!(t.set(&mut s, true, false), Ok(()));
    assert_eq!(s.get_top(), 1);
    assert_eq!(t.rawget(&mut s, 1i32), Type::String);
    assert_eq!(t.rawget(&mut s, b"k".to_vec()), Type::Number);
    assert_eq!(t.rawget(&mut s, true), Type::Boolean);
    assert_eq!(s.value(-1), Value::Bool(false));
    assert_eq!(t.rawget(&mut s, false), Type::Nil);
    s.set_top(1);
    let r = t.get(&mut s, 1i32).unwrap();
    assert_eq!(r.index, 2);
    assert_eq!(r.cast::<Vec<u8>>(&s), Some(b"one".to_vec()));
    assert!(!r.is_nil(&s));
    assert!(!r.is_integer(&s));
    assert!(r.to_bool(&s));
    assert_eq!(r.type_of(&s), Type::String);
    // the value that is on top already
    s.push_integer(77);
    assert_eq!(t.set(&mut s, b"top".to_vec(), TopVal), Ok(()));
    assert_eq!(s.get_top(), 2);
    assert_eq!(t.getopt::<_, i32>(&mut s, b"top".to_vec()), Ok(Some(77)));
}

#[test]
fn nil_and_nan_are_refused_as_keys() {
    let mut s = State::new();
    let t = s.table(0, 0);
    assert_eq!(
        t.set(&mut s, NilVal, 1i32),
        Err(Error::Runtime(b"table index is nil".to_vec()))
    );
    assert_eq!(
        t.set(&mut s, Number(f64::NAN.to_bits()), 1i32),
        Err(Error::Runtime(b"table index is NaN".to_vec()))
    );
    assert_eq!(s.get_top(), 1);
    assert_eq!(t.rawlen(&s), 0);
    // reading them is no error
    assert_eq!(t.rawget(&mut s, NilVal), Type::Nil);
}

#[test]
fn a_float_key_that_is_an_integer_is_that_integer() {
    let mut s = State::new();
    let t = s.table(0, 0);
    assert_eq!(t.set(&mut s, Number(2.0f64.to_bits()), b"two".to_vec()), Ok(()));
    assert_eq!(t.getopt::<_, Vec<u8>>(&mut s, 2i32), Ok(Some(b"two".to_vec())));
    assert_eq!(t.set(&mut s, 3i32, b"three".to_vec()), Ok(()));
    assert_eq!(t.getopt::<_, Vec<u8>>(&mut s, Number(3.0f64.to_bits())), Ok(Some(b"three".to_vec())));
    assert_eq!(t.set(&mut s, Number(2.5f64.to_bits()), b"half".to_vec()), Ok(()));
    assert_eq!(t.getopt::<_, Vec<u8>>(&mut s, Number(2.5f64.to_bits())), Ok(Some(b"half".to_vec())));
    assert_eq!(t.getopt::<_, Vec<u8>>(&mut s, 2i32), Ok(Some(b"two".to_vec())));
}

#[test]
fn the_length_of_a_table_is_its_border() {
    let mut s = State::new();
    let t = s.table(0, 0);
    assert_eq!(t.rawlen(&s), 0);
    for i in 1..=5 {
        t.seti(&mut s, i, i * 2).unwrap();
    }
    assert_eq!(t.rawlen(&s), 5);
    t.seti(&mut s, 7, 14i64).unwrap();
    assert_eq!(t.rawlen(&s), 5);
    t.seti(&mut s, 6, 12i64).unwrap();
    assert_eq!(t.rawlen(&s), 7);
    t.seti(&mut s, 3, NilVal).unwrap();
    assert_eq!(t.rawlen(&s), 2);
    // strings have their length, other values none
    s.push_bytes(b"four");
    assert_eq!(s.raw_len(-1), 4);
    s.push_integer(4);
    assert_eq!(s.raw_len(-1), 0);
}

#[test]
fn globals_and_registry() {
    let mut s = State::new();
    s.push_integer(5);
    s.set_global(b"five");
    assert_eq!(s.get_top(), 0);
    assert_eq!(s.get_global(b"five"), Type::Number);
    assert_eq!(s.get_global(b"six"), Type::Nil);
    let g = s.global();
    assert_eq!(g.getopt::<_, i32>(&mut s, b"five".to_vec()), Ok(Some(5)));
    // the registry holds the globals and the main thread
    let reg = s.c_reg();
    assert_eq!(reg.index, REGISTRY_INDEX);
    assert_eq!(s.raw_geti(REGISTRY_INDEX, 2), Type::Table);
    assert!(s.raw_equal(-1, g.index));
    assert_eq!(s.raw_geti(REGISTRY_INDEX, 1), Type::Thread);
}

#[test]
fn metatables() {
    let mut s = State::new();
    s.new_table();
    assert!(!s.get_metatable(1));
    assert_eq!(s.get_top(), 1);
    s.new_table();
    s.push_integer(1);
    s.raw_set_field(-2, b"marker");
    s.set_metatable(1);
    assert_eq!(s.get_top(), 1);
    assert!(s.get_metatable(1));
    assert_eq!(s.raw_get_field(-1, b"marker"), Type::Number);
    s.set_top(1);
    assert_eq!(s.metafield(1, b"marker"), llua::Slot::Int(1));
    assert_eq!(s.metafield(1, b"other"), llua::Slot::Nil);
    assert_eq!(s.get_metatable_by(1, b"marker".to_vec()), Type::Number);
    assert_eq!(s.get_top(), 3);
    s.set_top(1);
    // taking the metatable away
    s.push_nil();
    s.set_metatable(1);
    assert!(!s.get_metatable(1));
    assert_eq!(s.get_metatable_by(1, b"marker".to_vec()), Type::NoValue);
    assert_eq!(s.get_top(), 1);
    // numbers have no metatable
    s.push_integer(3);
    assert!(!s.get_metatable(-1));
}

#[test]
fn references_are_handed_out_and_given_up() {
    let mut s = State::new();
    s.new_table();
    s.push_bytes(b"a");
    let a = s.reference(1);
    s.push_bytes(b"b");
    let b = s.reference(1);
    assert_eq!((a, b), (Reference(1), Reference(2)));
    assert_eq!(s.get_top(), 1);
    s.push_nil();
    let n = s.reference(1);
    assert!(n.is_nil_ref());
    assert_eq!(n.value(), -1);
    assert_eq!(s.raw_geti(1, 2), Type::String);
    s.pop(1);
    s.unreference(1, b);
    assert_eq!(s.raw_geti(1, 2), Type::Nil);
    s.pop(1);
    s.unreference(1, n);
    s.push_bytes(b"c");
    assert_eq!(s.reference(1), Reference(2));
    // in the registry the first keys are taken
    s.push_bytes(b"kept");
    let kept = CRegVal::from_stack(&mut s, -1);
    assert_eq!(kept.creg_ref().0, 3);
    s.push(kept.creg_ref());
    assert_eq!(s.value(-1), Value::Str(b"kept".to_vec()));
    let r = kept.creg_ref();
    kept.release(&mut s);
    s.push(r);
    assert_eq!(s.value(-1), Value::Nil);
    let again = s.creg_ref(5i32);
    assert_eq!(again.0, 3);
}

#[test]
fn indexing_what_is_no_table_is_an_error() {
    let mut s = State::new();
    s.push(5i32);
    s.push(b"text".to_vec());
    let number = || Error::Runtime(b"attempt to index a number value".to_vec());
    let string = || Error::Runtime(b"attempt to index a string value".to_vec());
    assert_eq!(s.index_error(1), number());
    assert_eq!(s.geti(1, 1), Err(number()));
    assert_eq!(s.get_field(1, b"k"), Err(number()));
    assert_eq!(s.get_table(1), Err(number()));
    assert_eq!(s.seti(1, 1), Err(number()));
    assert_eq!(s.set_field(1, b"k"), Err(number()));
    assert_eq!(s.set_table(1), Err(number()));
    assert_eq!(s.get_field(2, b"k"), Err(string()));
    // nothing was pushed or popped on the way
    assert_eq!(s.get_top(), 2);
    assert_eq!(s.to_bytes(2).cloned(), Some(b"text".to_vec()));

    let v = s.val(1);
    assert_eq!(v.geti(&mut s, 1).err(), Some(number()));
    assert_eq!(v.getf(&mut s, b"k").err(), Some(number()));
    assert_eq!(v.get(&mut s, 1i32).err(), Some(number()));
    assert_eq!(v.getopt::<_, i32>(&mut s, 1i32), Err(number()));
    assert_eq!(v.seti(&mut s, 1, true), Err(number()));
    assert_eq!(v.setf(&mut s, b"k", true), Err(number()));
    assert_eq!(v.set(&mut s, 1i32, true), Err(number()));
    assert_eq!(v.set_field(&mut s, b"k"), Err(number()));
    assert_eq!(s.get_top(), 2);
    assert_eq!(s.val(2).getf(&mut s, b"k").err(), Some(string()));
    assert_eq!(
        s.geti(4, 1),
        Err(Error::Runtime(b"attempt to index a no value value".to_vec()))
    );
}

#[test]
fn indexing_a_table_reads_and_writes_it() {
    let mut s = State::new();
    let t = s.table(0, 0);
    s.push(9i32);
    assert_eq!(s.seti(1, 4), Ok(()));
    s.push(b"v".to_vec());
    assert_eq!(s.set_field(1, b"k"), Ok(()));
    s.push(true);
    s.push(false);
    assert_eq!(s.set_table(1), Ok(()));
    assert_eq!(s.get_top(), 1);
    assert_eq!(s.geti(1, 4), Ok(Type::Number));
    assert_eq!(s.get_field(1, b"k"), Ok(Type::String));
    s.push(true);
    assert_eq!(s.get_table(1), Ok(Type::Boolean));
    assert_eq!(s.get_top(), 4);
    assert_eq!(s.to_bool(4), false);
    assert_eq!(s.to_bytes(3).cloned(), Some(b"v".to_vec()));
    assert_eq!(t.getopt::<_, i32>(&mut s, 4i32), Ok(Some(9)));
}

#[test]
fn the_top_of_the_stack_is_kept_in_the_registry() {
    let mut s = State::new();
    s.push(b"kept".to_vec());
    let r = s.creg_ref(TopVal);
    assert_eq!(s.get_top(), 0);
    s.push(r);
    assert_eq!(s.to_bytes(1).cloned(), Some(b"kept".to_vec()));
}

#[test]
fn the_top_of_the_stack_is_a_result_and_a_key() {
    let mut s = State::new();
    s.push(5i32);
    // the value on top is the result: nothing is pushed for it
    assert_eq!(s.push_result::<TopVal, Vec<u8>>(Ok(TopVal), false), Ok(1));
    assert_eq!(s.get_top(), 1);
    assert_eq!(s.push_result::<TopVal, Vec<u8>>(Err(b"no".to_vec()), false), Ok(2));
    assert_eq!(s.get_top(), 3);
    assert_eq!(s.to_bytes(-1).cloned(), Some(b"no".to_vec()));
    assert_eq!(
        s.push_result::<TopVal, Vec<u8>>(Err(b"no".to_vec()), true),
        Err(Error::Runtime(b"no".to_vec()))
    );
    assert_eq!(s.get_top(), 3);

    // a key in the metatable, found by a host value and by nothing new
    let mut s = State::new();
    s.new_table();
    s.new_table();
    s.push(11i32);
    s.raw_set_field(-2, b"k");
    s.set_metatable(1);
    // the metatable stays below what was found
    assert_eq!(s.get_metatable_by(1, b"k".to_vec()), Type::Number);
    assert_eq!(s.get_top(), 3);
    assert_eq!(s.type_of(2), Type::Table);
    assert_eq!(s.to_integerx(-1), Some(11));
    s.pop(2);
    assert_eq!(s.get_metatable_by(1, b"absent".to_vec()), Type::Nil);
    assert_eq!(s.get_top(), 3);
    s.pop(2);
    // the top as the key: the metatable is looked up in the table on top
    // and is replaced by what is found
    assert_eq!(s.get_metatable_by(1, TopVal), Type::Nil);
    assert_eq!(s.get_top(), 2);
    s.push(3i32);
    assert_eq!(s.get_metatable_by(3, 1i32), Type::NoValue);
    assert_eq!(s.get_top(), 3);
}
