use llua::diag::arg_error;
use llua::dispatch::{finalize, Finalize};
use llua::suspend::{no_marker, reinjection, traced, Reinjection, Resumed};
use llua::{Policy, Userdata};
use llua::error::text;
use llua::protect::TRACEBACK_ENTRY;
use llua::register::{cclosure, topointer, CCLOSURE_ENTRY, TOPOINTER_ENTRY};
use llua::suspend::{AsyncCall, BridgeState, Step};
use llua::{BalanceState, Coroutine, Error, LibEntry, Lua, Outcome, ProtectedCall, RsFn, Slot, State, ThreadStatus, Type, Value};

#[test]
fn errors_and_statuses() {
    assert_eq!(Error::runtime("x"), Error::Runtime(b"x".to_vec()));
    assert_eq!(Error::convert("y"), Error::Convert(b"y".to_vec()));
    assert_eq!(Error::from_debug("z"), Error::Else(b"z".to_vec()));
    assert_eq!(Error::runtime("x").message(), b"x".to_vec());
    assert_eq!(Error::Yield.message(), Vec::<u8>::new());
    assert_eq!(text("ab"), b"ab".to_vec());
    let m = b"msg".to_vec();
    assert_eq!(Error::from_status(ThreadStatus::Success, m.clone()), Ok(()));
    assert_eq!(Error::from_status(ThreadStatus::Yield, m.clone()), Err(Error::Yield));
    assert_eq!(Error::from_status(ThreadStatus::RuntimeError, m.clone()), Err(Error::Runtime(m.clone())));
    assert_eq!(Error::from_status(ThreadStatus::MessageHandlerError, m.clone()), Err(Error::Runtime(m.clone())));
    assert_eq!(Error::from_status(ThreadStatus::FileError, m.clone()), Err(Error::Runtime(m.clone())));
    assert_eq!(Error::from_status(ThreadStatus::SyntaxError, m.clone()), Err(Error::Syntax(m.clone())));
    assert_eq!(Error::from_status(ThreadStatus::MemoryError, m.clone()), Err(Error::Memory(m.clone())));
    assert_eq!(Error::from_status(ThreadStatus::GcError, m.clone()), Err(Error::Gc(m.clone())));

    let mut s = State::new();
    s.push_bytes(b"went wrong");
    assert_eq!(s.to_error(ThreadStatus::Success), Ok(()));
    assert_eq!(s.to_error(ThreadStatus::Yield), Err(Error::Yield));
    assert_eq!(s.to_error(ThreadStatus::SyntaxError), Err(Error::Syntax(b"went wrong".to_vec())));
    assert_eq!(ThreadStatus::Success.check(&s, b"load"), Ok(()));
    ThreadStatus::Success.chk_err(&s);
    assert_eq!(ThreadStatus::RuntimeError.check(&s, b"load"), Err(b"load: went wrong".to_vec()));
    s.push_integer(1);
    assert_eq!(ThreadStatus::Yield.check(&s, b"run"), Err(b"run: ".to_vec()));
    assert_eq!(s.to_error(ThreadStatus::MemoryError), Err(Error::Memory(Vec::new())));
}

#[test]
fn diagnostics() {
    assert_eq!(arg_error(3, b"invalid"), Error::Runtime(b"bad argument #3 (invalid)".to_vec()));
    assert_eq!(arg_error(-1, b""), Error::Runtime(b"bad argument #-1 ()".to_vec()));
    assert_eq!(arg_error(120, b"x"), Error::Runtime(b"bad argument #120 (x)".to_vec()));
    let names: Vec<Vec<u8>> = [
        Type::NoValue, Type::Nil, Type::Boolean, Type::LightUserdata, Type::Number, Type::String,
        Type::Table, Type::Function, Type::Userdata, Type::Thread,
    ].iter().map(|t| State::typename_of(*t)).collect();
    let expected: Vec<Vec<u8>> = [
        &b"no value"[..], b"nil", b"boolean", b"userdata", b"number", b"string", b"table", b"function",
        b"userdata", b"thread",
    ].iter().map(|n| n.to_vec()).collect();
    assert_eq!(names, expected);

    let mut s = State::new();
    s.push_bool(true);
    s.new_table();
    assert_eq!(s.typename_at(1), b"boolean".to_vec());
    assert_eq!(s.typename_at(5), b"no value".to_vec());
    assert_eq!(s.check_type(1, Type::Boolean), Ok(()));
    assert_eq!(
        s.check_type(1, Type::Table),
        Err(Error::Runtime(b"bad argument #1 (table expected, got boolean)".to_vec()))
    );
    assert_eq!(s.val(1).check_type(&s, Type::Boolean), Ok(()));
    assert_eq!(s.check_any(2), Ok(()));
    assert_eq!(s.check_any(3), Err(Error::Runtime(b"bad argument #3 (value expected)".to_vec())));
    assert_eq!(s.check_arg::<bool>(1), Ok(true));
    assert_eq!(
        s.check_arg::<u16>(2),
        Err(Error::Runtime(b"bad argument #2 (u16 expected, got table)".to_vec()))
    );
    assert_eq!(s.val(2).check_cast::<i64>(&s).unwrap_err(), Error::Runtime(b"bad argument #2 (i64 expected, got table)".to_vec()));
    assert_eq!(s.args::<(bool,)>(1), Ok((true,)));
    assert_eq!(s.args::<(bool, bool, i32)>(1), Err(Error::Runtime(b"args not match".to_vec())));
    // a table with a name is called by its name
    s.new_table();
    s.push_bytes(b"Named");
    s.raw_set_field(-2, b"__name");
    s.set_metatable(2);
    assert_eq!(s.described_type(2), b"Named".to_vec());
    assert_eq!(
        s.type_error(2, b"number"),
        Error::Runtime(b"bad argument #2 (number expected, got Named)".to_vec())
    );
    assert_eq!(s.arg_error(1, b"odd"), Error::Runtime(b"bad argument #1 (odd)".to_vec()));
    assert_eq!(s.error_string(b"plain"), Error::Runtime(b"plain".to_vec()));
    assert_eq!(s.raise_error(b"raised".to_vec()), Error::Runtime(b"raised".to_vec()));
    assert_eq!(s.raise_error(Error::Syntax(b"inner".to_vec())), Error::Runtime(b"inner".to_vec()));
}

#[test]
fn options() {
    let mut s = State::new();
    let lst = vec![b"read".to_vec(), b"write".to_vec(), b"append".to_vec(), b"write".to_vec()];
    s.push_bytes(b"write");
    s.push_bytes(b"delete");
    s.push_integer(1);
    s.push_nil();
    assert_eq!(s.check_option(1, None, &lst), Ok(1));
    assert_eq!(s.check_option(1, Some(b"read"), &lst), Ok(1));
    assert_eq!(
        s.check_option(2, None, &lst),
        Err(Error::Runtime(b"bad argument #2 (invalid option 'delete')".to_vec()))
    );
    assert_eq!(
        s.check_option(3, None, &lst),
        Err(Error::Runtime(b"bad argument #3 (string expected, got number)".to_vec()))
    );
    assert_eq!(s.check_option(4, Some(b"append"), &lst), Ok(2));
    assert_eq!(s.check_option(5, Some(b"read"), &lst), Ok(0));
    assert_eq!(
        s.check_option(5, None, &lst),
        Err(Error::Runtime(b"bad argument #5 (string expected, got no value)".to_vec()))
    );
    assert_eq!(
        s.check_option(4, Some(b"other"), &lst),
        Err(Error::Runtime(b"bad argument #4 (invalid option 'other')".to_vec()))
    );
}

#[test]
fn libraries_and_globals() {
    let mut s = State::new();
    let lib = vec![
        LibEntry { name: b"open".to_vec(), func: 600 },
        LibEntry { name: b"close".to_vec(), func: 601 },
    ];
    s.new_lib(&lib);
    assert_eq!(s.get_top(), 1);
    assert_eq!(s.raw_get_field(1, b"open"), Type::Function);
    assert_eq!(s.to_native_fn(-1), Some(600));
    assert_eq!(s.raw_get_field(1, b"close"), Type::Function);
    assert_eq!(s.to_native_fn(-1), Some(601));
    assert_eq!(s.raw_get_field(1, b"other"), Type::Nil);
    s.set_top(0);

    s.init_llua_global();
    assert_eq!(s.get_top(), 0);
    assert_eq!(s.get_global(b"__llua_psize"), Type::Number);
    assert_eq!(s.value(-1), Value::Int(std::mem::size_of::<usize>() as i64));
    s.get_global(b"topointer");
    assert_eq!(s.to_native_fn(-1), Some(TOPOINTER_ENTRY));
    s.get_global(b"cclosure");
    assert_eq!(s.to_native_fn(-1), Some(CCLOSURE_ENTRY));
}

#[test]
fn pointers_and_closures_from_scripts() {
    let mut s = State::new();
    s.push_integer(0x1234);
    assert_eq!(s.to_ffi_pointer(1), Some(0x1234));
    assert_eq!(topointer(&mut s), Ok(Outcome::Return(1)));
    assert_eq!(s.value(-1), Value::Int(0x1234));
    s.set_top(0);
    s.push_nil();
    assert_eq!(s.to_ffi_pointer(1), None);
    assert_eq!(topointer(&mut s), Ok(Outcome::Return(1)));
    assert_eq!(s.value(-1), Value::Nil);
    s.set_top(0);
    s.push_number(4096.75f64.to_bits());
    s.push_light_userdata(0);
    s.push_light_userdata(16);
    s.push_bool(true);
    assert_eq!(s.to_ffi_pointer(1), Some(4096));
    assert_eq!(s.to_ffi_pointer(2), None);
    assert_eq!(s.to_ffi_pointer(3), Some(16));
    assert_eq!(s.to_ffi_pointer(4), None);
    assert_eq!(s.to_ffi_pointer(5), None);

    // cclosure(f, a, b) closes f over a and b
    s.set_top(0);
    s.push_fn(700);
    s.push_integer(1);
    s.push_bytes(b"two");
    assert_eq!(cclosure(&mut s), Ok(Outcome::Return(1)));
    assert_eq!(s.get_top(), 2);
    assert_eq!(s.to_native_fn(2), Some(700));
    let Slot::Function(id) = s.slot(2).unwrap() else { panic!() };
    let ups = s.heap.closure_upvalues(id);
    assert_eq!(ups.len(), 2);
    assert_eq!(ups[0], Slot::Int(1));
    // what is no native function is refused
    s.set_top(0);
    s.push_integer(1);
    assert_eq!(
        cclosure(&mut s),
        Err(Error::Runtime(b"bad argument #1 (cfunction expected, got number)".to_vec()))
    );
}

#[test]
fn balance_guards() {
    let mut s = State::new();
    s.push_integer(1);
    let guard = s.balance();
    assert_eq!(guard, BalanceState { top: 1 });
    assert_eq!(BalanceState::new(&s), guard);
    s.push_integer(2);
    s.push_integer(3);
    guard.restore(&mut s);
    assert_eq!(s.get_top(), 1);
    s.push_integer(2);
    assert_eq!(s.balance_with(guard, "done"), "done");
    assert_eq!(s.get_top(), 1);
    s.pop(1);
    guard.restore(&mut s);
    assert_eq!(s.value(1), Value::Nil);
}

#[test]
fn protected_calls_with_a_message_handler() {
    let mut s = State::new();
    s.push_integer(9);
    s.push(RsFn::new(800));
    let pc = s.xpcall_begin(801, (1i32, b"x".to_vec())).unwrap();
    assert_eq!(pc, ProtectedCall { base: 2, nargs: 2 });
    // handler, function, arguments
    assert_eq!(s.get_top(), 5);
    assert_eq!(s.to_native_fn(2), Some(801));
    assert_eq!(s.to_native_fn(3), Some(800));
    assert_eq!(s.value(4), Value::Int(1));
    // the interpreter ran the function, which returned two values
    s.set_top(2);
    s.push_integer(10);
    s.push_bool(true);
    assert_eq!(s.xpcall_end::<(i32, bool)>(pc, ThreadStatus::Success), Ok((10, true)));
    assert_eq!(s.get_top(), 1);
    assert_eq!(s.value(1), Value::Int(9));

    // results of the wrong type
    s.push(RsFn::new(800));
    let pc = s.pcall_trace_begin(()).unwrap();
    assert_eq!(s.to_native_fn(2), Some(TRACEBACK_ENTRY));
    s.set_top(2);
    s.push_bytes(b"text");
    assert_eq!(s.xpcall_end::<i32>(pc, ThreadStatus::Success), Err(b"<type not match>".to_vec()));
    assert_eq!(s.get_top(), 1);

    // a failure with and without message
    s.push(RsFn::new(800));
    let pc = s.xpcall_begin(801, ()).unwrap();
    s.set_top(2);
    s.push_bytes(b"it failed");
    assert_eq!(s.xpcall_end::<i32>(pc, ThreadStatus::RuntimeError), Err(b"it failed".to_vec()));
    s.push(RsFn::new(800));
    let pc = s.xpcall_begin(801, ()).unwrap();
    s.set_top(2);
    s.push_nil();
    assert_eq!(s.xpcall_end::<i32>(pc, ThreadStatus::MemoryError), Err(b"<error>".to_vec()));
    assert_eq!(s.get_top(), 1);

    // an argument that raises ends the call before it began
    s.push(RsFn::new(800));
    let failing: Result<i32, Vec<u8>> = Err(b"bad arg".to_vec());
    assert_eq!(s.xpcall_begin(801, failing), Err(Error::Runtime(b"bad arg".to_vec())));
    assert_eq!(s.get_top(), 1);
}

#[test]
fn entering_and_leaving_calls() {
    let mut s = State::new();
    s.push_integer(1);
    s.push_integer(2);
    s.push_integer(5);
    s.push_cclosure(900, 2);
    s.push_bytes(b"arg");
    let (frame, entry) = s.enter_call(1, -1).unwrap();
    assert_eq!(entry, 900);
    // the function sees its argument and its upvalues
    assert_eq!(s.get_top(), 1);
    assert_eq!(s.value(1), Value::Str(b"arg".to_vec()));
    assert_eq!(s.upvalues, vec![Slot::Int(2), Slot::Int(5)]);
    assert_eq!(s.value(llua::stack::upvalue_index(2)), Value::Int(5));
    // it returns three values, of which all were asked for
    s.push_integer(7);
    s.push_integer(8);
    assert_eq!(s.leave_call(frame, Ok(3)), ThreadStatus::Success);
    assert_eq!(s.get_top(), 4);
    assert_eq!(s.value(1), Value::Int(1));
    assert_eq!(s.value(2), Value::Str(b"arg".to_vec()));
    assert_eq!(s.value(4), Value::Int(8));
    assert!(s.upvalues.is_empty());
}

#[test]
fn coroutines() {
    let mut s = State::new();
    s.push(RsFn::new(1000));
    let mut co = Coroutine::with_fn(&mut s, -1).unwrap();
    assert_eq!(co.thread, 1);
    assert_eq!(s.get_top(), 1);
    assert_eq!(s.raw_getp(llua::stack::REGISTRY_INDEX, 1), Type::Thread);
    s.pop(1);
    s.push_integer(1);
    assert_eq!(
        Coroutine::with_fn(&mut s, -1).err(),
        Some(Error::Runtime(b"bad argument #-1 (function expected, got number)".to_vec()))
    );
    let other = Coroutine::empty(&mut s);
    assert_eq!(other.thread, 2);
    other.release(&mut s);
    assert_eq!(s.raw_getp(llua::stack::REGISTRY_INDEX, 2), Type::Nil);
    s.set_top(0);
    s.push_bytes(b"moved");
    co.xmove(&mut s, 1);
    assert_eq!(s.get_top(), 0);

    // in the coroutine's own context
    co.swap(&mut s);
    assert_eq!(s.as_ptr(), 1);
    assert!(s.push_thread());
    s.pop(1);
    assert_eq!(s.get_top(), 2);
    assert_eq!(s.to_native_fn(1), Some(1000));
    assert_eq!(s.value(2), Value::Str(b"moved".to_vec()));
    s.pop(1);
    // resume with (1, 2): the function is consumed, and it yields 1
    assert_eq!(co.begin_resume(&mut s, (1i32, 2i32)), Ok(2));
    assert_eq!(s.get_top(), 3);
    s.set_top(0);
    s.push_integer(1);
    let res = co.end_resume::<llua::Value>(&mut s, ThreadStatus::Yield, 1).unwrap();
    assert_eq!(res, Value::Int(1));
    assert_eq!(co.nres, 1);
    // the next resume drops what the last one left
    assert_eq!(co.begin_resume(&mut s, ()), Ok(0));
    assert_eq!(s.get_top(), 0);
    // fewer results than are read are filled with nil; wrong ones fail
    s.push_integer(4);
    assert_eq!(co.end_resume::<(i32, Option<i32>)>(&mut s, ThreadStatus::Success, 1), Ok((4, None)));
    assert_eq!(s.get_top(), 2);
    assert_eq!(co.end_resume::<(i32, i32)>(&mut s, ThreadStatus::Success, 2), Err(Error::ConvertFailed));
    s.push_bytes(b"crashed");
    assert_eq!(
        co.end_resume::<i32>(&mut s, ThreadStatus::RuntimeError, 1),
        Err(Error::Runtime(b"crashed".to_vec()))
    );
    co.swap(&mut s);
    assert_eq!(s.as_ptr(), 0);
    assert_eq!(s.get_top(), 0);
}

#[test]
fn the_bridge_keeps_exactly_what_an_operation_produced() {
    let mut s = State::new();
    s.register_usertype::<llua::TaskWrapper>();
    s.push(RsFn::new(1));
    s.push_integer(5);
    let (mut call, step) = AsyncCall::begin(&s, 1, 1);
    assert_eq!(step, Step::Resume { nargs: 1 });
    assert_eq!(call.state, BridgeState::Running);
    assert_eq!(call.base, 1);
    // the coroutine yields a marker above the frame of its function
    s.set_top(0);
    s.push_bytes(b"frame");
    llua::suspend::yield_task(&mut s, 9);
    assert_eq!(call.resumed(&mut s, ThreadStatus::Yield, 1, b""), Step::Await { task: 9 });
    assert_eq!(call.state, BridgeState::Suspended);
    assert_eq!(s.get_top(), 1);
    // the operation pushes four values and says that two are its results
    for i in 1..=4 {
        s.push_integer(i);
    }
    assert_eq!(call.completed(&mut s, Ok(2)), Step::Resume { nargs: 2 });
    assert_eq!(call.state, BridgeState::Running);
    assert_eq!(s.get_top(), 3);
    assert_eq!(s.value(1), Value::Str(b"frame".to_vec()));
    assert_eq!(s.value(2), Value::Int(3));
    assert_eq!(s.value(3), Value::Int(4));
    // an operation that pushes less than it says is filled with nil
    llua::suspend::yield_task(&mut s, 10);
    assert_eq!(call.resumed(&mut s, ThreadStatus::Yield, 1, b""), Step::Await { task: 10 });
    s.push_integer(1);
    assert_eq!(call.completed(&mut s, Ok(3)), Step::Resume { nargs: 3 });
    assert_eq!(s.get_top(), 6);
    assert_eq!(s.value(4), Value::Int(1));
    assert_eq!(s.value(5), Value::Nil);
    assert_eq!(s.value(6), Value::Nil);
    // an operation that fails ends the call
    llua::suspend::yield_task(&mut s, 11);
    assert_eq!(call.resumed(&mut s, ThreadStatus::Yield, 1, b""), Step::Await { task: 11 });
    assert_eq!(call.completed(&mut s, Err(Error::runtime("timed out"))), Step::Done(Err(Error::Runtime(b"timed out".to_vec()))));
    assert_eq!(call.state, BridgeState::CompletedError);
}

#[test]
fn the_bridge_ends_on_errors_and_on_broken_protocol() {
    let mut s = State::new();
    s.register_usertype::<llua::TaskWrapper>();
    // a yield of something that is no marker
    s.push(RsFn::new(1));
    let (mut call, _) = AsyncCall::begin(&s, 0, 0);
    s.set_top(0);
    s.push_integer(5);
    assert_eq!(
        call.resumed(&mut s, ThreadStatus::Yield, 1, b""),
        Step::Done(Err(Error::Runtime(b"coroutine task expect a TaskWrapper".to_vec())))
    );
    assert_eq!(call.state, BridgeState::CompletedError);
    // a marker that was emptied before
    s.set_top(0);
    s.push(RsFn::new(1));
    let (mut call, _) = AsyncCall::begin(&s, 0, 0);
    s.set_top(0);
    llua::suspend::yield_task(&mut s, 12);
    assert_eq!(llua::suspend::take_task(&mut s, -1), Ok(12));
    assert_eq!(
        call.resumed(&mut s, ThreadStatus::Yield, 1, b""),
        Step::Done(Err(Error::Runtime(b"task is already moved".to_vec())))
    );
    // an error status carries the interpreter's message
    s.set_top(0);
    s.push(RsFn::new(1));
    let (mut call, _) = AsyncCall::begin(&s, 0, 0);
    s.set_top(0);
    s.push_bytes(b"script error");
    assert_eq!(
        call.resumed(&mut s, ThreadStatus::RuntimeError, 1, b"stack traceback:\n\t[C]: in ?"),
        Step::Done(Err(Error::Runtime(b"script error\nstack traceback:\n\t[C]: in ?".to_vec())))
    );
    assert_eq!(call.state, BridgeState::CompletedError);
    // the error is of the kind of the status
    for (status, expected) in [
        (ThreadStatus::MemoryError, Error::Memory(b"script error\ntb".to_vec())),
        (ThreadStatus::SyntaxError, Error::Syntax(b"script error\ntb".to_vec())),
        (ThreadStatus::GcError, Error::Gc(b"script error\ntb".to_vec())),
        (ThreadStatus::MessageHandlerError, Error::Runtime(b"script error\ntb".to_vec())),
        (ThreadStatus::FileError, Error::Runtime(b"script error\ntb".to_vec())),
    ] {
        let (mut call, _) = AsyncCall::start(1, 0, 0);
        assert_eq!(call.resumed(&mut s, status, 1, b"tb"), Step::Done(Err(expected)));
        assert_eq!(call.state, BridgeState::CompletedError);
        assert_eq!(s.get_top(), 1);
    }
    // without an error value the message is the traceback alone
    s.push_integer(1);
    let (mut call, _) = AsyncCall::start(2, 0, 0);
    assert_eq!(
        call.resumed(&mut s, ThreadStatus::MemoryError, 1, b"tb"),
        Step::Done(Err(Error::Memory(b"\ntb".to_vec())))
    );
    s.pop(1);
    // success cuts the stack to the results asked for
    s.set_top(0);
    s.push(RsFn::new(1));
    s.push_integer(1);
    let (mut call, _) = AsyncCall::begin(&s, 1, 3);
    s.set_top(0);
    s.push_integer(7);
    assert_eq!(call.resumed(&mut s, ThreadStatus::Success, 1, b""), Step::Done(Ok(3)));
    assert_eq!(call.state, BridgeState::CompletedOk);
    assert_eq!(s.get_top(), 3);
    assert_eq!(s.value(1), Value::Int(7));
    assert_eq!(s.value(3), Value::Nil);
}

#[test]
fn the_owner_of_an_interpreter() {
    let lua = Lua::new();
    assert_eq!(lua.state().get_top(), 0);
    let lua = Lua::with_open_libs();
    let mut s = lua.into_state();
    s.open_libs();
    assert_eq!(s.get_top(), 0);
    assert_eq!(s.get_global(b"print"), Type::Nil);
}

#[test]
fn a_protected_call_of_a_bridged_function() {
    let mut s = State::new();
    s.push_bytes(b"below");
    s.push(RsFn::new(1));
    s.push(2i32);
    s.push(3i32);
    assert_eq!(s.pcall_with(2, 1, |(a, b): (i32, i32)| a + b), ThreadStatus::Success);
    assert_eq!(s.get_top(), 2);
    assert_eq!(s.value(1), Value::Str(b"below".to_vec()));
    assert_eq!(s.value(2), Value::Int(5));
    // an error of the function
    s.push(RsFn::new(1));
    let status = s.pcall_with(0, 1, |()| -> Result<i32, Vec<u8>> { Err(b"boom".to_vec()) });
    assert_eq!(status, ThreadStatus::RuntimeError);
    assert_eq!(s.get_top(), 3);
    assert_eq!(s.value(3), Value::Str(b"boom".to_vec()));
    // an argument of the wrong type
    s.push(RsFn::new(1));
    s.push_bool(true);
    let status = s.pcall_with(1, 0, |(n,): (i64,)| n);
    assert_eq!(status, ThreadStatus::RuntimeError);
    assert_eq!(s.value(-1), Value::Str(b"bad argument #1 (i64 expected, got boolean)".to_vec()));
    // what is no function
    s.push_nil();
    assert_eq!(s.pcall_with(0, 0, |()| ()), ThreadStatus::RuntimeError);
    assert_eq!(s.value(-1), Value::Str(b"attempt to call a nil value".to_vec()));
    // all results, and none
    s.set_top(0);
    s.push(RsFn::new(1));
    assert_eq!(s.pcall_with(0, -1, |()| (1i32, 2i32, 3i32)), ThreadStatus::Success);
    assert_eq!(s.get_top(), 3);
    s.push(RsFn::new(1));
    assert_eq!(s.pcall_with(0, 0, |()| (1i32, 2i32, 3i32)), ThreadStatus::Success);
    assert_eq!(s.get_top(), 3);
}

#[test]
fn decisions_for_the_edge() {
    let owned = Userdata { meta: None, size: 8, target: 0x10, inline: Some(0x10), uservalue: Slot::Nil };
    let moved = Userdata { inline: Some(0x20), ..owned };
    let borrowed = Userdata { inline: None, ..owned };
    let pointer = Policy { is_pointer: true, ..Policy::standard() };
    assert_eq!(finalize(Policy::standard(), owned), Finalize::Drop(0x10));
    assert_eq!(finalize(Policy::standard(), borrowed), Finalize::Drop(0x10));
    assert_eq!(finalize(pointer, owned), Finalize::Drop(0x10));
    assert_eq!(finalize(pointer, moved), Finalize::Keep);
    assert_eq!(finalize(pointer, borrowed), Finalize::Keep);
    assert_eq!(reinjection(7, 3, 2), Reinjection::Drop { extra: 2 });
    assert_eq!(reinjection(5, 3, 2), Reinjection::Fill { missing: 0 });
    assert_eq!(reinjection(3, 3, 2), Reinjection::Fill { missing: 2 });
    assert_eq!(reinjection(3, 3, 0), Reinjection::Fill { missing: 0 });

    let mut s = State::new();
    s.new_userdata(owned);
    assert_eq!(s.get_userdata_by_size(1, 8), Some(0x10));
    assert_eq!(s.get_userdata_by_size(1, 4), None);
    assert_eq!(s.get_userdata_by_size(2, 8), None);
    s.push_bytes(b"kept");
    let kept = llua::CRegVal::from_stack(&mut s, -1);
    s.set_top(0);
    s.push(kept);
    assert_eq!(s.value(1), Value::Str(b"kept".to_vec()));
}

#[test]
fn the_decisions_of_the_bridge_over_plain_values() {
    use_plain_bridge();
}

fn use_plain_bridge() {
    let (mut call, step) = AsyncCall::start(4, 1, 2);
    assert_eq!(step, Step::Resume { nargs: 1 });
    assert_eq!(call.base, 3);
    assert_eq!(call.on_status(ThreadStatus::Yield), Resumed::Marker);
    assert_eq!(call.on_status(ThreadStatus::Success), Resumed::Finish { top: 4 });
    assert_eq!(call.on_status(ThreadStatus::RuntimeError), Resumed::Failed);
    assert_eq!(call.on_status(ThreadStatus::MemoryError), Resumed::Failed);
    call.suspended(5);
    assert_eq!((call.state, call.mark), (BridgeState::Suspended, 5));
    assert_eq!(call.produced(9, Ok(2)), Ok(Reinjection::Drop { extra: 2 }));
    assert_eq!(call.state, BridgeState::Running);
    assert_eq!(call.resume_with(2), Step::Resume { nargs: 2 });
    call.suspended(5);
    assert_eq!(call.produced(5, Ok(1)), Ok(Reinjection::Fill { missing: 1 }));
    call.suspended(5);
    assert_eq!(call.produced(5, Err(Error::runtime("late"))), Err(Error::Runtime(b"late".to_vec())));
    assert_eq!(call.state, BridgeState::CompletedError);
    let (mut call, _) = AsyncCall::start(1, 0, 0);
    assert_eq!(call.finished(), Step::Done(Ok(0)));
    assert_eq!(call.state, BridgeState::CompletedOk);
    let (mut call, _) = AsyncCall::start(1, 0, 0);
    assert_eq!(call.broken(Error::runtime("no marker")), Step::Done(Err(Error::Runtime(b"no marker".to_vec()))));
    let (mut call, _) = AsyncCall::start(1, 0, 0);
    assert_eq!(
        call.failed(ThreadStatus::SyntaxError, b"near 'x'", b"stack traceback:"),
        Step::Done(Err(Error::Syntax(b"near 'x'\nstack traceback:".to_vec())))
    );
    assert_eq!(call.state, BridgeState::CompletedError);
    assert_eq!(traced(b"a", b"b"), b"a\nb".to_vec());
    assert_eq!(no_marker(), Error::Runtime(b"coroutine task expect a TaskWrapper".to_vec()));
}
