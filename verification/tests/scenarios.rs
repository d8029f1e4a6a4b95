//! End-to-end scenarios, with the test playing the interpreter: it makes
//! the calls that a script would make and runs the host functions that
//! the library asks it to run.

use llua::dispatch;
use llua::function::{call, call_method};
use llua::suspend::{call_async, AsyncCall, BridgeState, Step};
use llua::userdata::{Entries, Policy, UserData};
use llua::iter::iterate;
use llua::{BoxIter, Coroutine, Error, IterMap, IterVec, Outcome, RsFn, Slot, State, ThreadStatus, Type, ValRef, Value};

const ADD: usize = 100;
const FAIL: usize = 101;
const TEST_INIT: usize = 110;
const TEST_INDEX: usize = 111;
const TEST_NEWINDEX: usize = 112;
const TEST_GC: usize = 113;
const TEST_LEN: usize = 114;
const TEST_INC: usize = 115;
const TEST_GET_A: usize = 116;
const TEST_SET_A: usize = 117;
const ECHO_ASYNC: usize = 120;
const SLEEP_ASYNC: usize = 121;
const CONSTANT: usize = 122;
const TOITER: usize = 123;
const ITER_NEXT: usize = 124;
const ITER_GC: usize = 125;

/// The host record of the scenarios: `{a: i32}`.
struct Test {
    addr: usize,
    cached: bool,
}

impl UserData for Test {
    fn spec_tname() -> vstd::seq::Seq<u8> {
        unreachable!()
    }

    fn spec_policy() -> Policy {
        unreachable!()
    }

    fn spec_entries() -> Entries {
        unreachable!()
    }

    fn spec_size() -> usize {
        unreachable!()
    }

    fn spec_methods(_: llua::state::StateView, _: llua::userdata::SpecIndex) -> llua::state::StateView {
        unreachable!()
    }

    fn spec_getter(_: llua::state::StateView, _: llua::userdata::SpecIndex) -> llua::state::StateView {
        unreachable!()
    }

    fn spec_setter(_: llua::state::StateView, _: llua::userdata::SpecIndex) -> llua::state::StateView {
        unreachable!()
    }

    fn spec_key_to_cache(&self) -> usize {
        unreachable!()
    }

    fn spec_address(&self) -> usize {
        unreachable!()
    }

    fn lemma_callbacks(_: llua::state::StateView, _: llua::userdata::SpecIndex) {
        unreachable!()
    }

    fn tname() -> Vec<u8> {
        b"Test".to_vec()
    }

    fn policy() -> Policy {
        Policy::standard()
    }

    fn entries() -> Entries {
        Entries {
            init: TEST_INIT,
            index: TEST_INDEX,
            newindex: TEST_NEWINDEX,
            gc: TEST_GC,
            len: TEST_LEN,
        }
    }

    fn size() -> usize {
        4
    }

    fn methods(s: &mut State, mt: &ValRef) {
        mt.register(s, b"inc".to_vec(), RsFn::new(TEST_INC)).unwrap();
    }

    fn getter(s: &mut State, fields: &ValRef) {
        fields.register(s, b"a".to_vec(), RsFn::new(TEST_GET_A)).unwrap();
    }

    fn setter(s: &mut State, fields: &ValRef) {
        fields.register(s, b"a".to_vec(), RsFn::new(TEST_SET_A)).unwrap();
    }

    fn key_to_cache(&self) -> usize {
        if self.cached {
            self.addr
        } else {
            0
        }
    }

    fn address(&self) -> usize {
        self.addr
    }
}

/// The host side of the scenarios: the records, by address, and the
/// pending operations, by handle.
struct Host {
    records: Vec<i32>,
    tasks: Vec<(i32, Vec<Slot>)>,
    iters: Vec<std::ops::Range<i32>>,
}

impl Host {
    fn new() -> Host {
        Host { records: Vec::new(), tasks: Vec::new(), iters: Vec::new() }
    }

    fn record(&mut self, a: i32) -> usize {
        self.records.push(a);
        self.records.len()
    }

    /// Runs the native function with the entry point `entry`.
    fn run(&mut self, entry: usize, s: &mut State) -> Result<Outcome, Error> {
        match entry {
            ADD => call::<(i32, i32), i32, _>(s, |(a, b)| a + b),
            FAIL => call::<(), Result<i32, Vec<u8>>, _>(s, |()| Err(b"boom".to_vec())),
            CONSTANT => call::<(), i32, _>(s, |()| 0x11223344),
            TOITER => {
                let iters = &mut self.iters;
                call::<(), BoxIter, _>(s, |()| {
                    iters.push(0..3);
                    BoxIter::new(ITER_NEXT, 16, iters.len(), ITER_GC)
                })
            },
            ITER_NEXT => {
                let at = llua::function::recover(s, 16).unwrap();
                let item = self.iters[at - 1].next();
                iterate(s, item)
            },
            TEST_INDEX => {
                let d = dispatch::index(s, Test::policy());
                self.dispatched(s, d)
            },
            TEST_NEWINDEX => match dispatch::newindex(s, Test::policy()) {
                Ok(d) => self.dispatched(s, d),
                Err(e) => Err(e),
            },
            TEST_GET_A => {
                let records = &self.records;
                call_method::<Test, (), i32, _>(s, |this, ()| records[this - 1])
            },
            TEST_INC => {
                let records = &mut self.records;
                call_method::<Test, (), (), _>(s, |this, ()| records[this - 1] += 1)
            },
            TEST_SET_A => {
                let records = &mut self.records;
                call_method::<Test, (i32,), (), _>(s, |this, (val,)| records[this - 1] = val)
            },
            ECHO_ASYNC => {
                let tasks = &mut self.tasks;
                call_async::<(i32,), _>(s, |(n,)| {
                    tasks.push((2, vec![Slot::Int(0), Slot::Int(n as i64)]));
                    tasks.len()
                })
            },
            SLEEP_ASYNC => {
                let tasks = &mut self.tasks;
                call_async::<(), _>(s, |()| {
                    tasks.push((0, vec![]));
                    tasks.len()
                })
            },
            _ => Err(Error::runtime("no such native function")),
        }
    }

    /// Does what a dispatcher asked for.
    fn dispatched(&mut self, s: &mut State, d: dispatch::Dispatch) -> Result<Outcome, Error> {
        match d {
            dispatch::Dispatch::Return(n) => Ok(Outcome::Return(n)),
            dispatch::Dispatch::Call { nargs, nresults } => {
                match self.pcall(s, nargs, nresults) {
                    ThreadStatus::Success => Ok(Outcome::Return(nresults)),
                    _ => Err(Error::Runtime(s.to_bytes(-1).cloned().unwrap_or_default())),
                }
            },
        }
    }

    /// A protected call of the function below the top `nargs` cells.
    fn pcall(&mut self, s: &mut State, nargs: i32, nresults: i32) -> ThreadStatus {
        match s.enter_call(nargs, nresults) {
            Ok((frame, entry)) => {
                let outcome = match self.run(entry, s) {
                    Ok(Outcome::Return(n)) => Ok(n),
                    Ok(Outcome::Yield(_)) => Err(Error::runtime("attempt to yield")),
                    Err(e) => Err(e),
                };
                s.leave_call(frame, outcome)
            },
            Err(_) => ThreadStatus::RuntimeError,
        }
    }

    /// What a script gets for `obj.key`, where `obj` is an opaque object.
    fn index(&mut self, s: &mut State, obj: i32, key: &[u8]) -> Value {
        let obj = s.abs_index(obj);
        let handler = s.metafield(obj, b"__index");
        s.push_slot(handler);
        s.push_value(obj);
        s.push_bytes(key);
        assert_eq!(self.pcall(s, 2, 1), ThreadStatus::Success);
        let v = s.value(-1);
        s.pop(1);
        v
    }

    /// What a script does for `obj.key = value`.
    fn newindex(&mut self, s: &mut State, obj: i32, key: &[u8], value: i64) {
        let obj = s.abs_index(obj);
        let handler = s.metafield(obj, b"__newindex");
        s.push_slot(handler);
        s.push_value(obj);
        s.push_bytes(key);
        s.push_integer(value);
        assert_eq!(self.pcall(s, 3, 0), ThreadStatus::Success);
    }

    /// What a script does for `obj:name()`.
    fn method(&mut self, s: &mut State, obj: i32, name: &[u8]) {
        let obj = s.abs_index(obj);
        let handler = s.metafield(obj, b"__index");
        s.push_slot(handler);
        s.push_value(obj);
        s.push_bytes(name);
        assert_eq!(self.pcall(s, 2, 1), ThreadStatus::Success);
        assert_eq!(s.type_of(-1), Type::Function);
        s.push_value(obj);
        assert_eq!(self.pcall(s, 1, 0), ThreadStatus::Success);
    }
}

#[test]
fn synchronous_round_trip() {
    let mut host = Host::new();
    let mut s = State::new();
    // add = <native>; add(2, 3)
    s.push(RsFn::new(ADD));
    s.set_global(b"add");
    s.get_global(b"add");
    s.push(2i32);
    s.push(3i32);
    assert_eq!(host.pcall(&mut s, 2, 1), ThreadStatus::Success);
    assert_eq!(s.get_top(), 1);
    assert_eq!(s.value(-1), Value::Int(5));
}

#[test]
fn argument_of_wrong_type_is_reported_with_its_position() {
    let mut host = Host::new();
    let mut s = State::new();
    s.push(RsFn::new(ADD));
    s.push(2i32);
    s.push(b"three".to_vec());
    assert_eq!(host.pcall(&mut s, 2, 1), ThreadStatus::RuntimeError);
    assert_eq!(s.get_top(), 1);
    assert_eq!(
        s.to_bytes(-1).unwrap().as_slice(),
        b"bad argument #2 (i32 expected, got string)"
    );
}

#[test]
fn propagated_error() {
    let mut host = Host::new();
    let mut s = State::new();
    s.push_integer(7);
    s.push(RsFn::new(FAIL));
    let status = host.pcall(&mut s, 0, 1);
    assert_ne!(status, ThreadStatus::Success);
    assert!(status.is_err());
    let message = s.to_bytes(-1).unwrap().clone();
    assert!(message.windows(4).any(|w| w == b"boom"));
    // what lay below the call is untouched
    assert_eq!(s.get_top(), 2);
    assert_eq!(s.value(1), Value::Int(7));
    assert_eq!(s.to_error(status).unwrap_err(), Error::Runtime(b"boom".to_vec()));
}

#[test]
fn calling_what_is_no_function_fails() {
    let mut host = Host::new();
    let mut s = State::new();
    s.push_integer(1);
    s.push_integer(2);
    assert_eq!(host.pcall(&mut s, 1, 0), ThreadStatus::RuntimeError);
    assert_eq!(s.to_bytes(-1).unwrap().as_slice(), b"attempt to call a number value");
}

#[test]
fn results_are_adjusted_to_what_was_asked_for() {
    let mut host = Host::new();
    let mut s = State::new();
    s.push(RsFn::new(ADD));
    s.push(20i32);
    s.push(22i32);
    assert_eq!(host.pcall(&mut s, 2, 3), ThreadStatus::Success);
    assert_eq!(s.get_top(), 3);
    assert_eq!(s.value(1), Value::Int(42));
    assert_eq!(s.value(2), Value::Nil);
    assert_eq!(s.value(3), Value::Nil);
    s.set_top(0);
    s.push(RsFn::new(ADD));
    s.push(1i32);
    s.push(1i32);
    assert_eq!(host.pcall(&mut s, 2, 0), ThreadStatus::Success);
    assert_eq!(s.get_top(), 0);
}

#[test]
fn userdata() {
    let mut host = Host::new();
    let mut s = State::new();
    let addr = host.record(0);
    s.push(Test { addr, cached: false });
    let uv = s.val(-1);
    assert_eq!(uv.type_of(&s), Type::Userdata);
    s.push_value(uv.index);
    s.set_global(b"uv");

    // test = function() return 0x11223344 end
    s.push(RsFn::new(CONSTANT));
    s.set_global(b"test");
    s.get_global(b"test");
    assert_eq!(host.pcall(&mut s, 0, 1), ThreadStatus::Success);
    assert_eq!(s.value(-1), Value::Int(0x11223344));
    s.pop(1);

    // local iter = toiter(); assert(iter() == 0) ...
    s.push(RsFn::new(TOITER));
    s.set_global(b"toiter");
    s.get_global(b"toiter");
    assert_eq!(host.pcall(&mut s, 0, 1), ThreadStatus::Success);
    for expected in [Value::Int(0), Value::Int(1), Value::Int(2), Value::Nil] {
        s.push_value(-1);
        assert_eq!(host.pcall(&mut s, 0, 1), ThreadStatus::Success);
        assert_eq!(s.value(-1), expected);
        s.pop(1);
    }
    s.pop(1);

    // assert(uv.a == 0)
    s.get_global(b"uv");
    assert_eq!(host.index(&mut s, -1, b"a"), Value::Int(0));
    // uv:inc(); assert(uv.a == 1)
    host.method(&mut s, -1, b"inc");
    assert_eq!(host.index(&mut s, -1, b"a"), Value::Int(1));
    // uv.a = 3; assert(uv.a == 3)
    host.newindex(&mut s, -1, b"a", 3);
    assert_eq!(host.index(&mut s, -1, b"a"), Value::Int(3));
    assert_eq!(host.records[addr - 1], 3);
    s.pop(1);

    // the same host object, exposed twice with caching, is one object
    let shared = host.record(123);
    s.push(Test { addr: shared, cached: true });
    s.set_global(b"uv");
    s.push(Test { addr: shared, cached: true });
    s.set_global(b"uv1");
    s.get_global(b"uv");
    s.get_global(b"uv1");
    // assert(uv == uv1)
    assert!(s.raw_equal(-1, -2));
    // assert(uv.a == 123)
    assert_eq!(host.index(&mut s, -1, b"a"), Value::Int(123));
}

#[test]
fn opaque_object_method_and_field() {
    let mut host = Host::new();
    let mut s = State::new();
    let addr = host.record(0);
    s.push(Test { addr, cached: false });
    assert_eq!(host.index(&mut s, 1, b"a"), Value::Int(0));
    host.method(&mut s, 1, b"inc");
    assert_eq!(host.index(&mut s, 1, b"a"), Value::Int(1));
    host.newindex(&mut s, 1, b"a", 3);
    assert_eq!(host.index(&mut s, 1, b"a"), Value::Int(3));
    // a key that nothing serves reads as nothing
    assert_eq!(host.index(&mut s, 1, b"missing"), Value::Nil);
    // the stack is balanced after all of it
    assert_eq!(s.get_top(), 1);
}

#[test]
fn identity_without_caching_gives_two_objects() {
    let mut host = Host::new();
    let mut s = State::new();
    let addr = host.record(5);
    s.push(Test { addr, cached: false });
    s.push(Test { addr, cached: false });
    assert_eq!(s.get_top(), 2);
    assert_eq!(s.type_of(1), Type::Userdata);
    assert_eq!(s.type_of(2), Type::Userdata);
    assert!(!s.raw_equal(1, 2));
    // both stand for the same host value
    assert_eq!(s.to_userdata(1), Some(addr));
    assert_eq!(s.to_userdata(2), Some(addr));
}

#[test]
fn identity_with_caching_gives_one_object() {
    let mut host = Host::new();
    let mut s = State::new();
    let a = host.record(5);
    let b = host.record(6);
    s.push(Test { addr: a, cached: true });
    s.push(Test { addr: b, cached: true });
    s.push(Test { addr: a, cached: true });
    assert_eq!(s.get_top(), 3);
    assert!(s.raw_equal(1, 3));
    assert!(!s.raw_equal(1, 2));
}

#[test]
fn getter_takes_precedence_over_a_method_of_the_same_name() {
    let mut host = Host::new();
    let mut s = State::new();
    let addr = host.record(9);
    s.push(Test { addr, cached: false });
    // bind a method named like the getter: metatable.a = <inc>
    assert!(s.get_metatable(1));
    s.push(RsFn::new(TEST_INC));
    s.raw_set_field(-2, b"a");
    s.pop(1);
    // reading the key still gives what the getter gives
    assert_eq!(host.index(&mut s, 1, b"a"), Value::Int(9));
    assert_eq!(host.records[addr - 1], 9);
    // while a key without getter is served by the metatable
    s.push_slot(s.metafield(1, b"__index"));
    s.push_value(1);
    s.push_bytes(b"inc");
    assert_eq!(host.pcall(&mut s, 2, 1), ThreadStatus::Success);
    assert_eq!(s.type_of(-1), Type::Function);
}

/// Drives an asynchronous call of the function on the stack of `s`, as
/// the host's executor would, and counts the suspensions.
fn drive(host: &mut Host, s: &mut State, script: &mut dyn FnMut(&mut Host, &mut State, usize) -> (ThreadStatus, i32), nargs: i32, nresult: i32) -> (Result<i32, Error>, usize) {
    let (mut call, mut step) = AsyncCall::begin(s, nargs, nresult);
    let mut yields = 0;
    let mut resumes = 0;
    loop {
        match step {
            Step::Resume { nargs: _ } => {
                let (status, nres) = script(host, s, resumes);
                resumes += 1;
                step = call.resumed(s, status, nres, b"");
            },
            Step::Await { task } => {
                assert_eq!(call.state, BridgeState::Suspended);
                yields += 1;
                let (produced, values) = host.tasks[task - 1].clone();
                for v in values {
                    s.push_slot(v);
                }
                step = call.completed(s, Ok(produced));
            },
            Step::Done(r) => {
                return (r, yields);
            },
        }
    }
}

#[test]
fn llua_async() {
    let mut host = Host::new();
    let mut s = State::new();
    s.register_usertype::<llua::TaskWrapper>();
    // The coroutine's stack: the chunk and its argument.
    s.push(RsFn::new(ECHO_ASYNC));
    s.push(333i32);
    // print(echo_async(...)); sleep_async(0.2); print(echo_async(2));
    // print(echo_async(3)); return 1, 2
    let mut printed: Vec<Vec<Value>> = Vec::new();
    let mut script = |host: &mut Host, s: &mut State, resume: usize| -> (ThreadStatus, i32) {
        let next = match resume {
            0 => {
                s.remove(1);
                ECHO_ASYNC
            },
            1 => {
                printed.push(vec![s.value(-2), s.value(-1)]);
                s.set_top(0);
                SLEEP_ASYNC
            },
            2 => {
                assert_eq!(s.get_top(), 0);
                s.push(2i32);
                ECHO_ASYNC
            },
            3 => {
                printed.push(vec![s.value(-2), s.value(-1)]);
                s.set_top(0);
                s.push(3i32);
                ECHO_ASYNC
            },
            _ => {
                printed.push(vec![s.value(-2), s.value(-1)]);
                s.set_top(0);
                s.push(1i32);
                s.push(2i32);
                return (ThreadStatus::Success, 2);
            },
        };
        match host.run(next, s) {
            Ok(Outcome::Yield(k)) => (ThreadStatus::Yield, k),
            _ => (ThreadStatus::RuntimeError, 0),
        }
    };
    let (result, yields) = drive(&mut host, &mut s, &mut script, 1, 2);
    assert_eq!(result, Ok(2));
    assert_eq!(yields, 4);
    assert_eq!(printed[0], vec![Value::Int(0), Value::Int(333)]);
    assert_eq!(printed[1], vec![Value::Int(0), Value::Int(2)]);
    assert_eq!(printed[2], vec![Value::Int(0), Value::Int(3)]);
    // the final results are what the script returned
    let ret = <(i32, i32) as llua::FromLuaMulti>::from_lua(&s, s.abs_index(-2)).unwrap();
    assert_eq!(ret, (1, 2));
}

#[test]
fn async_suspend_and_resume() {
    // echo_async(1); sleep; echo_async(2): the two echoes suspend the
    // script, and what it returns at last is what the second one gave
    let mut host = Host::new();
    let mut s = State::new();
    s.register_usertype::<llua::TaskWrapper>();
    s.push(RsFn::new(ECHO_ASYNC));
    s.push(1i32);
    let mut echoes = 0;
    let mut script = |host: &mut Host, s: &mut State, resume: usize| -> (ThreadStatus, i32) {
        let next = match resume {
            0 => {
                s.remove(1);
                echoes += 1;
                ECHO_ASYNC
            },
            1 => {
                assert_eq!((s.value(-2), s.value(-1)), (Value::Int(0), Value::Int(1)));
                s.set_top(0);
                SLEEP_ASYNC
            },
            2 => {
                s.push(2i32);
                echoes += 1;
                ECHO_ASYNC
            },
            _ => {
                s.remove(1);
                return (ThreadStatus::Success, 2);
            },
        };
        match host.run(next, s) {
            Ok(Outcome::Yield(k)) => (ThreadStatus::Yield, k),
            _ => (ThreadStatus::RuntimeError, 0),
        }
    };
    let (result, yields) = drive(&mut host, &mut s, &mut script, 1, 2);
    assert_eq!(result, Ok(2));
    assert_eq!(echoes, 2);
    assert_eq!(yields, 3);
    assert_eq!(s.get_top(), 2);
    assert_eq!(s.value(1), Value::Int(0));
    assert_eq!(s.value(2), Value::Int(2));
}

#[test]
fn async_yields_twice() {
    // echo_async(1), then return: the echo and nothing else suspends
    let mut host = Host::new();
    let mut s = State::new();
    s.register_usertype::<llua::TaskWrapper>();
    s.push(RsFn::new(ECHO_ASYNC));
    s.push(1i32);
    let mut script = |host: &mut Host, s: &mut State, resume: usize| -> (ThreadStatus, i32) {
        match resume {
            0 => {
                s.remove(1);
                match host.run(ECHO_ASYNC, s) {
                    Ok(Outcome::Yield(k)) => (ThreadStatus::Yield, k),
                    _ => (ThreadStatus::RuntimeError, 0),
                }
            },
            1 => {
                s.set_top(0);
                s.push(2i32);
                match host.run(ECHO_ASYNC, s) {
                    Ok(Outcome::Yield(k)) => (ThreadStatus::Yield, k),
                    _ => (ThreadStatus::RuntimeError, 0),
                }
            },
            _ => {
                // return what the second echo gave
                s.remove(1);
                (ThreadStatus::Success, 2)
            },
        }
    };
    let (result, yields) = drive(&mut host, &mut s, &mut script, 1, 2);
    assert_eq!(result, Ok(2));
    assert_eq!(yields, 2);
    assert_eq!(s.value(1), Value::Int(0));
    assert_eq!(s.value(2), Value::Int(2));
}

#[test]
fn coroutine() {
    // a chunk that yields its first argument
    let mut s = State::new();
    s.push(RsFn::new(ADD));
    let mut co = Coroutine::with_fn(&mut s, -1).unwrap();
    co.swap(&mut s);
    assert_eq!(co.begin_resume(&mut s, (1i32, 2i32)), Ok(2));
    // the interpreter runs the chunk, which yields 1
    s.set_top(0);
    s.push_integer(1);
    let res = co.end_resume::<Value>(&mut s, ThreadStatus::Yield, 1).unwrap();
    assert_eq!(res, Value::Int(1));
    co.swap(&mut s);
}

#[test]
fn lists_and_maps_become_tables() {
    let mut s = State::new();
    s.push(IterVec(vec![b"a".to_vec(), b"b".to_vec(), b"c".to_vec()]));
    assert_eq!(s.get_top(), 1);
    assert_eq!(s.raw_len(1), 3);
    for (i, expected) in [b"a", b"b", b"c"].iter().enumerate() {
        s.raw_geti(1, i as i64 + 1);
        assert_eq!(s.value(-1), Value::Str(expected.to_vec()));
        s.pop(1);
    }
    s.push(IterVec(Vec::<i32>::new()));
    assert_eq!(s.raw_len(2), 0);
    s.push(IterMap(vec![(b"x".to_vec(), 1i32), (b"y".to_vec(), 2), (b"x".to_vec(), 3)]));
    assert_eq!(s.get_top(), 3);
    assert_eq!(s.raw_get_field(3, b"x"), Type::Number);
    assert_eq!(s.value(-1), Value::Int(3));
    assert_eq!(s.raw_get_field(3, b"y"), Type::Number);
    assert_eq!(s.value(-1), Value::Int(2));
    s.set_top(3);
    // a pair with a nil key is left out
    s.push(IterMap(vec![(None, 1i32), (Some(7i32), 2)]));
    assert_eq!(s.get_top(), 4);
    s.raw_geti(4, 7);
    assert_eq!(s.value(-1), Value::Int(2));
}
