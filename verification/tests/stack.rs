use llua::stack::{is_pseudo, upvalue_index, MAX_STACK, MIN_STACK, REGISTRY_INDEX};
use llua::{Slot, State, Type, Value};

fn stack_of(s: &State) -> Vec<Value> {
    (1..=s.get_top()).map(|i| s.value(i)).collect()
}

fn ints(v: &[i64]) -> Vec<Value> {
    v.iter().map(|n| Value::Int(*n)).collect()
}

fn filled(n: i64) -> State {
    let mut s = State::new();
    for i in 1..=n {
        s.push_integer(i * 10);
    }
    s
}

#[test]
fn a_fresh_context_is_empty() {
    let s = State::new();
    assert_eq!(s.get_top(), 0);
    assert_eq!(s.type_of(1), Type::NoValue);
    assert_eq!(s.type_of(-1), Type::NoValue);
    assert_eq!(s.type_of(0), Type::NoValue);
    assert_eq!(s.as_ptr(), 0);
    assert!(s.check_stack(MIN_STACK));
    assert!(s.check_stack(MAX_STACK as i32));
    assert!(!s.check_stack(MAX_STACK as i32 + 1));
}

#[test]
fn indices_count_from_both_ends() {
    let s = filled(3);
    assert_eq!(s.get_top(), 3);
    assert_eq!(s.value(1), Value::Int(10));
    assert_eq!(s.value(3), Value::Int(30));
    assert_eq!(s.value(-1), Value::Int(30));
    assert_eq!(s.value(-3), Value::Int(10));
    assert_eq!(s.value(4), Value::NoValue);
    assert_eq!(s.value(-4), Value::NoValue);
    assert_eq!(s.abs_index(-1), 3);
    assert_eq!(s.abs_index(-3), 1);
    assert_eq!(s.abs_index(2), 2);
    assert_eq!(s.abs_index(REGISTRY_INDEX), REGISTRY_INDEX);
    assert_eq!(s.abs_index(upvalue_index(1)), REGISTRY_INDEX - 1);
}

#[test]
fn pseudo_indices_name_the_registry_and_the_upvalues() {
    let mut s = filled(1);
    assert!(is_pseudo(REGISTRY_INDEX));
    assert!(is_pseudo(upvalue_index(3)));
    assert!(!is_pseudo(-1));
    assert_eq!(upvalue_index(1), REGISTRY_INDEX - 1);
    assert_eq!(s.type_of(REGISTRY_INDEX), Type::Table);
    // no function runs: there are no upvalues
    assert_eq!(s.type_of(upvalue_index(1)), Type::NoValue);
    s.upvalues = vec![Slot::Bool(true), Slot::Int(7)];
    assert_eq!(s.value(upvalue_index(1)), Value::Bool(true));
    assert_eq!(s.value(upvalue_index(2)), Value::Int(7));
    assert_eq!(s.value(upvalue_index(3)), Value::NoValue);
    s.push_value(upvalue_index(2));
    assert_eq!(s.value(-1), Value::Int(7));
}

#[test]
fn set_top_cuts_and_fills() {
    let mut s = filled(4);
    s.set_top(2);
    assert_eq!(stack_of(&s), ints(&[10, 20]));
    s.set_top(4);
    assert_eq!(stack_of(&s), vec![Value::Int(10), Value::Int(20), Value::Nil, Value::Nil]);
    s.set_top(-2);
    assert_eq!(s.get_top(), 3);
    s.set_top(-1);
    assert_eq!(s.get_top(), 3);
    s.set_top(-4);
    assert_eq!(s.get_top(), 0);
}

#[test]
fn pop_drops_from_the_top() {
    let mut s = filled(4);
    s.pop(0);
    assert_eq!(s.get_top(), 4);
    s.pop(3);
    assert_eq!(stack_of(&s), ints(&[10]));
    s.pop(1);
    assert_eq!(s.get_top(), 0);
}

#[test]
fn rotate_moves_the_top_segment() {
    let mut s = filled(5);
    s.rotate(2, 1);
    assert_eq!(stack_of(&s), ints(&[10, 50, 20, 30, 40]));
    s.rotate(2, -1);
    assert_eq!(stack_of(&s), ints(&[10, 20, 30, 40, 50]));
    s.rotate(3, 2);
    assert_eq!(stack_of(&s), ints(&[10, 20, 40, 50, 30]));
    s.rotate(-3, -2);
    assert_eq!(stack_of(&s), ints(&[10, 20, 30, 40, 50]));
    s.rotate(1, 5);
    assert_eq!(stack_of(&s), ints(&[10, 20, 30, 40, 50]));
    s.rotate(5, 0);
    assert_eq!(stack_of(&s), ints(&[10, 20, 30, 40, 50]));
}

#[test]
fn insert_remove_replace_copy() {
    let mut s = filled(4);
    s.insert(2);
    assert_eq!(stack_of(&s), ints(&[10, 40, 20, 30]));
    s.remove(2);
    assert_eq!(stack_of(&s), ints(&[10, 20, 30]));
    s.remove(-1);
    assert_eq!(stack_of(&s), ints(&[10, 20]));
    s.push_integer(99);
    s.replace(1);
    assert_eq!(stack_of(&s), ints(&[99, 20]));
    s.copy(1, 2);
    assert_eq!(stack_of(&s), ints(&[99, 99]));
    s.push_integer(5);
    s.copy(-1, 1);
    assert_eq!(stack_of(&s), ints(&[5, 99, 5]));
    s.push_value(2);
    assert_eq!(stack_of(&s), ints(&[5, 99, 5, 99]));
    s.push_value(9);
    assert_eq!(s.value(-1), Value::Nil);
}

#[test]
fn pushes_of_primitives() {
    let mut s = State::new();
    s.push_nil();
    s.push_bool(true);
    s.push_bool(false);
    s.push_integer(-5);
    s.push_number(1.5f64.to_bits());
    s.push_bytes(b"bytes");
    s.push_string(b"text");
    s.push_light_userdata(0x1000);
    assert!(!s.push_thread());
    s.push_global_table();
    assert_eq!(
        stack_of(&s),
        vec![
            Value::Nil,
            Value::Bool(true),
            Value::Bool(false),
            Value::Int(-5),
            Value::Num(1.5f64.to_bits()),
            Value::Str(b"bytes".to_vec()),
            Value::Str(b"text".to_vec()),
            Value::LightUserdata,
            Value::Thread,
            Value::Table,
        ]
    );
    let types: Vec<Type> = (1..=10).map(|i| s.type_of(i)).collect();
    assert_eq!(
        types,
        vec![
            Type::Nil,
            Type::Boolean,
            Type::Boolean,
            Type::Number,
            Type::Number,
            Type::String,
            Type::String,
            Type::LightUserdata,
            Type::Thread,
            Type::Table,
        ]
    );
}

#[test]
fn type_queries() {
    let mut s = State::new();
    s.push_nil();
    s.push_bool(false);
    s.push_integer(1);
    s.push_number(2.5f64.to_bits());
    s.push_bytes(b"s");
    s.push_light_userdata(8);
    s.new_table();
    s.push_fn(42);
    assert!(s.is_nil(1) && !s.is_nil(2) && !s.is_nil(20));
    assert!(s.is_none(20) && !s.is_none(1));
    assert!(s.is_none_or_nil(1) && s.is_none_or_nil(20) && !s.is_none_or_nil(2));
    assert!(s.is_bool(2) && !s.is_bool(1));
    assert!(s.is_integer(3) && !s.is_integer(4));
    assert!(s.is_number(3) && s.is_number(4) && !s.is_number(5));
    assert!(s.is_string(5) && !s.is_string(3));
    assert!(s.is_light_userdata(6) && s.is_userdata(6));
    assert!(s.is_table(7) && !s.is_table(6));
    assert!(s.is_function(8) && !s.is_function(7));
    assert!(!s.is_thread(8));
    assert_eq!(s.to_native_fn(8), Some(42));
    assert_eq!(s.to_native_fn(7), None);
    assert_eq!(s.to_userdata(6), Some(8));
    assert_eq!(s.to_userdata(7), None);
    assert_eq!(s.to_thread(1), None);
    // truthiness
    let truths: Vec<bool> = (1..=9).map(|i| s.to_bool(i)).collect();
    assert_eq!(truths, vec![false, false, true, true, true, true, true, true, false]);
}

#[test]
fn numbers_are_equal_across_their_representations() {
    let mut s = State::new();
    s.push_integer(1);
    s.push_number(1.0f64.to_bits());
    s.push_number(1.5f64.to_bits());
    s.push_number(0.0f64.to_bits());
    s.push_number((-0.0f64).to_bits());
    s.push_number(f64::NAN.to_bits());
    s.push_integer(0);
    assert!(s.raw_equal(1, 2));
    assert!(s.raw_equal(2, 1));
    assert!(!s.raw_equal(1, 3));
    assert!(s.raw_equal(4, 5));
    assert!(s.raw_equal(4, 7));
    assert!(s.raw_equal(5, 7));
    assert!(!s.raw_equal(6, 6));
    assert!(s.raw_equal(3, 3));
    assert!(!s.raw_equal(1, 20));
    assert!(!s.raw_equal(20, 21));
}

#[test]
fn integers_and_floats_are_read_as_each_other() {
    let mut s = State::new();
    s.push_integer(3);
    s.push_number(3.0f64.to_bits());
    s.push_number(3.5f64.to_bits());
    s.push_bytes(b"3");
    s.push_integer(i64::MAX);
    s.push_integer(-(1 << 53) - 1);
    assert_eq!(s.to_integerx(1), Some(3));
    assert_eq!(s.to_integerx(2), Some(3));
    assert_eq!(s.to_integerx(3), None);
    // a string that is an integer numeral is read as the integer
    assert_eq!(s.to_integerx(4), Some(3));
    assert_eq!(s.to_integer(3), 0);
    assert_eq!(s.to_integer(2), 3);
    assert_eq!(s.to_numberx(1), Some(3.0f64.to_bits()));
    assert_eq!(s.to_numberx(2), Some(3.0f64.to_bits()));
    assert_eq!(s.to_numberx(3), Some(3.5f64.to_bits()));
    assert_eq!(s.to_numberx(4), Some(3.0f64.to_bits()));
    assert_eq!(s.to_number(4), 3.0f64.to_bits());
    assert_eq!(s.to_numberx(9), None);
    assert_eq!(s.to_number(9), 0);
    assert_eq!(s.to_numberx(5), Some((i64::MAX as f64).to_bits()));
    assert_eq!(s.to_numberx(6), Some(((-(1i64 << 53) - 1) as f64).to_bits()));
}
