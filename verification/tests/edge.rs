use llua::diag::{arg_error, type_mismatch};
use llua::dispatch::{next_stage, verdict, write_verdict, Stage, Verdict, WriteVerdict};
use llua::function::{relocation, Relocation};
use llua::mirror::serve;
use llua::object::{block_size, exposure, Exposure};
use llua::protect::finish;
use llua::{Error, Number, Policy, ProtectedCall, State, ThreadStatus, Type, Value};

fn policy(metatable: bool, uservalue: bool, getter: Option<usize>) -> Policy {
    Policy {
        index_metatable: metatable,
        index_uservalue: uservalue,
        index_getter: getter,
        ..Policy::standard()
    }
}

#[test]
fn a_read_looks_at_the_getters_first_and_then_where_the_policy_says() {
    let all = policy(true, true, Some(9));
    assert_eq!(next_stage(all, Stage::Getter), Some(Stage::Method));
    assert_eq!(next_stage(all, Stage::Method), Some(Stage::UserValue));
    assert_eq!(next_stage(all, Stage::UserValue), Some(Stage::Fallback));
    assert_eq!(next_stage(all, Stage::Fallback), None);
    let bare = policy(false, false, None);
    assert_eq!(next_stage(bare, Stage::Getter), None);
    assert_eq!(next_stage(policy(false, true, None), Stage::Getter), Some(Stage::UserValue));
    assert_eq!(next_stage(policy(false, false, Some(1)), Stage::Getter), Some(Stage::Fallback));
    assert_eq!(next_stage(policy(true, false, Some(1)), Stage::Method), Some(Stage::Fallback));
    assert_eq!(next_stage(policy(true, false, None), Stage::Method), None);
}

#[test]
fn the_verdict_on_what_a_read_found() {
    let all = policy(true, true, Some(9));
    // a getter wins over everything; anything else among the getters is passed over
    assert_eq!(verdict(all, Stage::Getter, Type::Function), Verdict::Call);
    assert_eq!(verdict(all, Stage::Getter, Type::Nil), Verdict::Look(Stage::Method));
    assert_eq!(verdict(all, Stage::Getter, Type::Number), Verdict::Look(Stage::Method));
    // what the metatable or the attached table binds is the value, whatever it is
    assert_eq!(verdict(all, Stage::Method, Type::Function), Verdict::Return);
    assert_eq!(verdict(all, Stage::Method, Type::Number), Verdict::Return);
    assert_eq!(verdict(all, Stage::Method, Type::Nil), Verdict::Look(Stage::UserValue));
    assert_eq!(verdict(all, Stage::UserValue, Type::String), Verdict::Return);
    assert_eq!(verdict(all, Stage::UserValue, Type::Nil), Verdict::Look(Stage::Fallback));
    assert_eq!(verdict(all, Stage::Fallback, Type::Nil), Verdict::Call);
    let standard = Policy::standard();
    assert_eq!(verdict(standard, Stage::Getter, Type::Nil), Verdict::Look(Stage::Method));
    assert_eq!(verdict(standard, Stage::Method, Type::Nil), Verdict::Absent);
    assert_eq!(verdict(policy(false, false, None), Stage::Getter, Type::Nil), Verdict::Absent);
}

#[test]
fn the_verdict_on_a_write() {
    let with = policy(true, true, None);
    let without = policy(true, false, None);
    assert_eq!(write_verdict(with, Type::Function, Type::Table), WriteVerdict::Call);
    assert_eq!(write_verdict(without, Type::Function, Type::Nil), WriteVerdict::Call);
    assert_eq!(write_verdict(with, Type::Nil, Type::Table), WriteVerdict::Store);
    assert_eq!(write_verdict(with, Type::Nil, Type::Nil), WriteVerdict::Nothing);
    assert_eq!(write_verdict(without, Type::Nil, Type::Table), WriteVerdict::Nothing);
    assert_eq!(write_verdict(with, Type::Number, Type::Userdata), WriteVerdict::Nothing);
}

#[test]
fn how_an_object_is_exposed() {
    assert_eq!(exposure(0, Type::Nil), Exposure::Make { cache: false });
    assert_eq!(exposure(0, Type::Userdata), Exposure::Make { cache: false });
    assert_eq!(exposure(64, Type::Nil), Exposure::Make { cache: true });
    assert_eq!(exposure(64, Type::Table), Exposure::Make { cache: true });
    assert_eq!(exposure(64, Type::Userdata), Exposure::Reuse);
    let ptr = std::mem::size_of::<usize>();
    assert_eq!(block_size(false, 24, true), 24);
    assert_eq!(block_size(false, 0, true), 0);
    assert_eq!(block_size(true, 24, true), 24 + ptr);
    assert_eq!(block_size(true, usize::MAX - 1, true), usize::MAX);
    assert_eq!(block_size(false, 24, false), ptr);
    assert_eq!(block_size(true, 24, false), ptr);
}

#[test]
fn what_a_relocated_closure_needs() {
    let ptr = std::mem::size_of::<usize>();
    assert_eq!(relocation(0), Relocation::Inline);
    assert_eq!(relocation(ptr), Relocation::Light);
    assert_eq!(relocation(ptr + 1), Relocation::Boxed);
    assert_eq!(Relocation::Inline.upvalues(), 0);
    assert_eq!(Relocation::Light.upvalues(), 1);
    assert_eq!(Relocation::Boxed.upvalues(), 1);
    assert!(!Relocation::Inline.finalized());
    assert!(!Relocation::Light.finalized());
    assert!(Relocation::Boxed.finalized());
}

#[test]
fn primitive_values_cross_as_they_are() {
    let values = vec![
        Value::Int(-3),
        Value::Num(1.5f64.to_bits()),
        Value::Str(b"text\0more".to_vec()),
        Value::Bool(true),
        Value::Nil,
        Value::Table,
        Value::Function,
        Value::NoValue,
        Value::Str(Vec::new()),
    ];
    let s = State::of_values(&values);
    assert_eq!(s.get_top(), 9);
    assert_eq!(s.value(1), Value::Int(-3));
    assert_eq!(s.value(2), Value::Num(1.5f64.to_bits()));
    assert_eq!(s.value(3), Value::Str(b"text\0more".to_vec()));
    assert_eq!(s.value(4), Value::Bool(true));
    // what has no primitive content crosses as nil
    for i in 5..=8 {
        assert_eq!(s.value(i), Value::Nil);
    }
    assert_eq!(s.value(9), Value::Str(Vec::new()));
    assert_eq!(s.values(1).len(), 9);
    assert_eq!(s.values(8), vec![Value::Nil, Value::Str(Vec::new())]);
    assert_eq!(s.values(9), vec![Value::Str(Vec::new())]);
    assert_eq!(s.values(10), Vec::<Value>::new());
    assert_eq!(s.values(20), Vec::<Value>::new());
    assert_eq!(State::of_values(&Vec::new()).get_top(), 0);

    let mut t = State::new();
    t.push_plain(&Value::Int(7));
    t.push_plain(&Value::Userdata);
    t.push_plain(&Value::Str(b"s".to_vec()));
    assert_eq!(t.values(1), vec![Value::Int(7), Value::Nil, Value::Str(b"s".to_vec())]);
}

#[test]
fn a_call_is_served_on_primitive_values() {
    let args = vec![Value::Int(20), Value::Str(b"22".to_vec())];
    // the string is an integer numeral, and is read as a number
    let r = serve::<(i64, i64), i64, _>(&args, 1, |(a, b)| a + b);
    assert_eq!(r, Ok(vec![Value::Int(42)]));
    let r = serve::<(i64, i64), (i64, bool), _>(&args, 1, |(a, b)| (a * b, a < b));
    assert_eq!(r, Ok(vec![Value::Int(440), Value::Bool(true)]));
    let r = serve::<(), (), _>(&args, 1, |()| ());
    assert_eq!(r, Ok(Vec::new()));
    // from the second value on
    let r = serve::<i64, Number, _>(&args, 2, |b| Number((b as f64 / 4.0).to_bits()));
    assert_eq!(r, Ok(vec![Value::Num(5.5f64.to_bits())]));
    let r = serve::<Vec<u8>, Vec<u8>, _>(&args, 2, |mut b| {
        b.push(b'!');
        b
    });
    assert_eq!(r, Ok(vec![Value::Str(b"22!".to_vec())]));
}

#[test]
fn an_argument_of_the_wrong_type_is_reported_with_its_position() {
    let args = vec![Value::Int(20), Value::Bool(true)];
    let r = serve::<(i64, i64), i64, _>(&args, 1, |(a, b)| a + b);
    assert_eq!(
        r,
        Err(Error::Runtime(b"bad argument #2 (i64 expected, got boolean)".to_vec()))
    );
    let r = serve::<(i64, i64, i64), i64, _>(&vec![Value::Int(20)], 1, |(a, b, c)| a + b + c);
    assert_eq!(
        r,
        Err(Error::Runtime(b"bad argument #2 (i64 expected, got no value)".to_vec()))
    );
    // an error of the function itself
    let r = serve::<i64, Result<i64, Vec<u8>>, _>(&args, 1, |_| Err(b"refused".to_vec()));
    assert_eq!(r, Err(Error::Runtime(b"refused".to_vec())));
    let r = serve::<i64, Result<i64, Vec<u8>>, _>(&args, 1, |a| Ok(a + 1));
    assert_eq!(r, Ok(vec![Value::Int(21)]));
}

#[test]
fn a_protected_call_ends_on_primitive_values() {
    let pc = ProtectedCall::below(3, 2);
    assert_eq!((pc.base, pc.nargs), (3, 2));
    let left = vec![Value::Str(b"first".to_vec()), Value::Int(4), Value::Bool(false)];
    assert_eq!(finish::<(i64, bool)>(ThreadStatus::Success, &left), Ok((4, false)));
    assert_eq!(finish::<bool>(ThreadStatus::Success, &left), Ok(false));
    assert_eq!(finish::<()>(ThreadStatus::Success, &left), Ok(()));
    assert_eq!(
        finish::<(i64, i64)>(ThreadStatus::Success, &left),
        Err(b"<type not match>".to_vec())
    );
    let failed = vec![Value::Str(b"boom\nstack traceback:".to_vec())];
    assert_eq!(
        finish::<i64>(ThreadStatus::RuntimeError, &failed),
        Err(b"boom\nstack traceback:".to_vec())
    );
    assert_eq!(finish::<i64>(ThreadStatus::MemoryError, &left), Err(b"<error>".to_vec()));
    assert_eq!(finish::<i64>(ThreadStatus::RuntimeError, &Vec::new()), Err(b"<error>".to_vec()));
}

#[test]
fn the_text_of_a_type_mismatch() {
    assert_eq!(type_mismatch(b"Counter", b"number"), b"Counter expected, got number".to_vec());
    assert_eq!(type_mismatch(b"", b""), b" expected, got ".to_vec());
    assert_eq!(
        arg_error(1, &type_mismatch(b"Counter", b"nil")),
        Error::Runtime(b"bad argument #1 (Counter expected, got nil)".to_vec())
    );
}
