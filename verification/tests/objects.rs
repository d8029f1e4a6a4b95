use llua::dispatch::{gc, index, len, newindex, Dispatch, Finalize};
use llua::function::{recover, relocation, Relocation};
use llua::object::{cache_userdata, clear_cached, expose, expose_pointer, get_cached, get_weak_meta, init_userdata, WEAK_META_KEY};
use llua::stack::REGISTRY_INDEX;
use llua::suspend::{take_task, yield_task};
use llua::userdata::{init_metatable, Entries, Policy, SpecIndex, UserData};
use llua::state::StateView;
use llua::{Error, MethodRegistry, MethodRegistryMut, Outcome, RsFn, Slot, State, TaskWrapper, Type, UserRef, Userdata, ValRef, Value};

/// A host type that configures everything but pointer mode.
struct Rich(usize);

/// A host type in pointer mode, without cache.
struct Ptr(usize);

impl UserData for Rich {
    fn spec_tname() -> vstd::seq::Seq<u8> {
        unreachable!()
    }

    fn spec_policy() -> Policy {
        unreachable!()
    }

    fn spec_entries() -> Entries {
        unreachable!()
    }

    fn spec_size() -> usize {
        unreachable!()
    }

    fn spec_methods(_: StateView, _: SpecIndex) -> StateView {
        unreachable!()
    }

    fn spec_getter(_: StateView, _: SpecIndex) -> StateView {
        unreachable!()
    }

    fn spec_setter(_: StateView, _: SpecIndex) -> StateView {
        unreachable!()
    }

    fn spec_key_to_cache(&self) -> usize {
        unreachable!()
    }

    fn spec_address(&self) -> usize {
        unreachable!()
    }

    fn lemma_callbacks(_: StateView, _: SpecIndex) {
        unreachable!()
    }

    fn tname() -> Vec<u8> {
        b"Rich".to_vec()
    }

    fn policy() -> Policy {
        Policy {
            index_metatable: true,
            index_uservalue: true,
            index_getter: Some(900),
            raw_len: true,
            is_pointer: false,
            weak_ref_cache: true,
        }
    }

    fn entries() -> Entries {
        Entries { init: 200, index: 201, newindex: 202, gc: 203, len: 204 }
    }

    fn size() -> usize {
        24
    }

    fn methods(s: &mut State, mt: &ValRef) {
        MethodRegistry::new(mt).register(s, b"both".to_vec(), RsFn::new(210)).unwrap();
        MethodRegistryMut::new(mt).register(s, b"method".to_vec(), RsFn::new(211)).unwrap();
    }

    fn getter(s: &mut State, fields: &ValRef) {
        fields.register(s, b"both".to_vec(), RsFn::new(220)).unwrap();
        fields.register(s, b"field".to_vec(), RsFn::new(221)).unwrap();
    }

    fn setter(s: &mut State, fields: &ValRef) {
        fields.register(s, b"field".to_vec(), RsFn::new(230)).unwrap();
    }

    fn key_to_cache(&self) -> usize {
        self.0
    }

    fn address(&self) -> usize {
        self.0
    }
}

impl UserData for Ptr {
    fn spec_tname() -> vstd::seq::Seq<u8> {
        unreachable!()
    }

    fn spec_policy() -> Policy {
        unreachable!()
    }

    fn spec_entries() -> Entries {
        unreachable!()
    }

    fn spec_size() -> usize {
        unreachable!()
    }

    fn spec_methods(_: StateView, _: SpecIndex) -> StateView {
        unreachable!()
    }

    fn spec_getter(_: StateView, _: SpecIndex) -> StateView {
        unreachable!()
    }

    fn spec_setter(_: StateView, _: SpecIndex) -> StateView {
        unreachable!()
    }

    fn spec_key_to_cache(&self) -> usize {
        unreachable!()
    }

    fn spec_address(&self) -> usize {
        unreachable!()
    }

    fn lemma_callbacks(_: StateView, _: SpecIndex) {
        unreachable!()
    }

    fn tname() -> Vec<u8> {
        b"Ptr".to_vec()
    }

    fn policy() -> Policy {
        Policy { is_pointer: true, weak_ref_cache: false, ..Policy::standard() }
    }

    fn entries() -> Entries {
        Entries { init: 300, index: 301, newindex: 302, gc: 303, len: 304 }
    }

    fn size() -> usize {
        8
    }

    fn methods(_: &mut State, _: &ValRef) {
    }

    fn getter(_: &mut State, _: &ValRef) {
    }

    fn setter(_: &mut State, _: &ValRef) {
    }

    fn key_to_cache(&self) -> usize {
        0
    }

    fn address(&self) -> usize {
        self.0
    }
}

/// The frame of a dispatcher for the object at index 1 of `s`: the
/// object, then the given cells, with the accessors of `which` as the
/// first upvalue.
fn dispatcher_frame(s: &State, which: &[u8], cells: &[Slot]) -> State {
    let mut d = State::new();
    let handler = s.metafield(1, which);
    let obj = s.slot(1).unwrap();
    let f = match handler {
        Slot::Function(f) => f,
        other => panic!("no dispatcher: {other:?}"),
    };
    // the heap is shared: the caller swaps it in
    d.upvalues = s.heap.closure_upvalues(f);
    d.push_slot(obj);
    for c in cells {
        d.push_slot(*c);
    }
    d
}

/// Runs `work` in the frame of a dispatcher of the object at index 1.
fn in_frame<R>(s: &mut State, which: &[u8], cells: &[Slot], work: impl FnOnce(&mut State) -> R) -> (R, Vec<Value>) {
    let mut d = dispatcher_frame(s, which, cells);
    std::mem::swap(&mut d.heap, &mut s.heap);
    let r = work(&mut d);
    let left: Vec<Value> = (1..=d.get_top()).map(|i| d.value(i)).collect();
    std::mem::swap(&mut d.heap, &mut s.heap);
    (r, left)
}

fn key(s: &mut State, k: &[u8]) -> Slot {
    s.push_bytes(k);
    let v = s.slot(-1).unwrap();
    s.pop(1);
    v
}

#[test]
fn the_metatable_is_built_once() {
    let mut s = State::new();
    s.get_or_init_metatable::<Rich>();
    assert_eq!(s.get_top(), 1);
    assert_eq!(s.type_of(1), Type::Table);
    s.get_or_init_metatable::<Rich>();
    assert!(s.raw_equal(1, 2));
    // it is kept under the identity of the initializer and under its name
    assert_eq!(s.raw_getp(REGISTRY_INDEX, 200), Type::Table);
    assert!(s.raw_equal(1, 3));
    assert_eq!(s.raw_get_field(REGISTRY_INDEX, b"Rich"), Type::Table);
    assert!(s.raw_equal(1, 4));
    s.set_top(1);
    // what it holds
    assert_eq!(s.raw_get_field(1, b"__name"), Type::String);
    assert_eq!(s.value(-1), Value::Str(b"Rich".to_vec()));
    assert_eq!(s.raw_get_field(1, b"__gc"), Type::Function);
    assert_eq!(s.to_native_fn(-1), Some(203));
    assert_eq!(s.raw_get_field(1, b"__len"), Type::Function);
    assert_eq!(s.to_native_fn(-1), Some(204));
    assert_eq!(s.raw_get_field(1, b"__index"), Type::Function);
    assert_eq!(s.to_native_fn(-1), Some(201));
    assert_eq!(s.raw_get_field(1, b"__newindex"), Type::Function);
    assert_eq!(s.to_native_fn(-1), Some(202));
    assert_eq!(s.raw_get_field(1, b"method"), Type::Function);
    assert_eq!(s.to_native_fn(-1), Some(211));
    s.set_top(1);
    // another type has another metatable
    let other = s.metatable::<Ptr>();
    assert_eq!(other.index, 2);
    assert!(!s.raw_equal(1, 2));
    assert_eq!(s.raw_get_field(2, b"__len"), Type::Nil);
    s.set_top(0);
    s.register_usertype::<TaskWrapper>();
    assert_eq!(s.get_top(), 0);
    assert_eq!(s.raw_getp(REGISTRY_INDEX, llua::suspend::TASK_INIT), Type::Table);
}

#[test]
fn filling_a_metatable_leaves_the_stack_alone() {
    let mut s = State::new();
    s.push_integer(1);
    let mt = s.table(0, 0);
    init_metatable::<Ptr>(&mut s, &mt);
    assert_eq!(s.get_top(), 2);
    assert_eq!(s.raw_get_field(2, b"__name"), Type::String);
    assert_eq!(s.raw_get_field(2, b"__len"), Type::Nil);
}

#[test]
fn index_dispatch_order() {
    let mut s = State::new();
    s.push(Rich(0x10));
    // the attached table binds "both", "method" and "extra"
    assert_eq!(s.get_uservalue(1), Type::Table);
    for k in [&b"both"[..], b"method", b"extra"] {
        s.push_bytes(b"from the attached table");
        s.raw_set_field(-2, k);
    }
    s.set_top(1);

    // (a) a getter wins over the method and the attached table
    let k = key(&mut s, b"both");
    let (d, left) = in_frame(&mut s, b"__index", &[k], |d| index(d, Rich::policy()));
    assert_eq!(d, Dispatch::Call { nargs: 2, nresults: 1 });
    assert_eq!(left.len(), 5);
    assert_eq!(left[2], Value::Function);
    assert_eq!(left[3], Value::Userdata);
    assert_eq!(left[4], Value::Str(b"both".to_vec()));
    let (entry, _) = in_frame(&mut s, b"__index", &[k], |d| {
        index(d, Rich::policy());
        d.to_native_fn(-3)
    });
    assert_eq!(entry, Some(220));

    // (b) a method wins over the attached table
    let k = key(&mut s, b"method");
    let (r, _) = in_frame(&mut s, b"__index", &[k], |d| (index(d, Rich::policy()), d.to_native_fn(-1)));
    assert_eq!(r, (Dispatch::Return(1), Some(211)));

    // (c) the attached table serves what neither has
    let k = key(&mut s, b"extra");
    let (d, left) = in_frame(&mut s, b"__index", &[k], |d| index(d, Rich::policy()));
    assert_eq!(d, Dispatch::Return(1));
    assert_eq!(left.last(), Some(&Value::Str(b"from the attached table".to_vec())));

    // (d) the fallback getter is asked last
    let k = key(&mut s, b"nowhere");
    let (r, left) = in_frame(&mut s, b"__index", &[k], |d| (index(d, Rich::policy()), d.to_native_fn(-3)));
    assert_eq!(r, (Dispatch::Call { nargs: 2, nresults: 1 }, Some(900)));
    assert_eq!(left[left.len() - 2], Value::Userdata);
    assert_eq!(left[left.len() - 1], Value::Str(b"nowhere".to_vec()));

    // without fallback, nothing is found
    let plain = Policy { index_getter: None, ..Rich::policy() };
    let (d, _) = in_frame(&mut s, b"__index", &[k], |d| index(d, plain));
    assert_eq!(d, Dispatch::Return(0));

    // a policy that skips the metatable goes on to the attached table
    let skipping = Policy { index_metatable: false, ..Rich::policy() };
    let k = key(&mut s, b"method");
    let (d, left) = in_frame(&mut s, b"__index", &[k], |d| index(d, skipping));
    assert_eq!(d, Dispatch::Return(1));
    assert_eq!(left.last(), Some(&Value::Str(b"from the attached table".to_vec())));
}

#[test]
fn newindex_dispatch() {
    let mut s = State::new();
    s.push(Rich(0x20));
    // a setter is called with the object, the value and the key
    let k = key(&mut s, b"field");
    let (r, left) = in_frame(&mut s, b"__newindex", &[k, Slot::Int(5)], |d| (newindex(d, Rich::policy()), d.to_native_fn(-4)));
    assert_eq!(r, (Ok(Dispatch::Call { nargs: 3, nresults: 0 }), Some(230)));
    assert_eq!(&left[left.len() - 3..], &[Value::Userdata, Value::Int(5), Value::Str(b"field".to_vec())]);
    // anything else goes to the attached table
    let k = key(&mut s, b"free");
    let (r, _) = in_frame(&mut s, b"__newindex", &[k, Slot::Int(6)], |d| newindex(d, Rich::policy()));
    assert_eq!(r, Ok(Dispatch::Return(0)));
    assert_eq!(s.get_uservalue(1), Type::Table);
    assert_eq!(s.raw_get_field(-1, b"free"), Type::Number);
    assert_eq!(s.value(-1), Value::Int(6));
    s.set_top(1);
    // which takes no nil key
    let (r, _) = in_frame(&mut s, b"__newindex", &[Slot::Nil, Slot::Int(6)], |d| newindex(d, Rich::policy()));
    assert_eq!(r, Err(Error::Runtime(b"table index is nil".to_vec())));
    // and is left alone where the policy has no attached tables
    let plain = Policy { index_uservalue: false, ..Rich::policy() };
    let k = key(&mut s, b"dropped");
    let (r, _) = in_frame(&mut s, b"__newindex", &[k, Slot::Int(7)], |d| newindex(d, plain));
    assert_eq!(r, Ok(Dispatch::Return(0)));
    assert_eq!(s.get_uservalue(1), Type::Table);
    assert_eq!(s.raw_get_field(-1, b"dropped"), Type::Nil);
}

#[test]
fn finalization() {
    let mut s = State::new();
    // an ordinary object is dropped in place
    s.push(Rich(0x30));
    assert_eq!(gc::<Rich>(&s), Ok(Finalize::Drop(0x30)));
    // as another type it is refused
    assert_eq!(
        gc::<TaskWrapper>(&s),
        Err(Error::Runtime(b"bad argument #1 (llua::TaskWrapper expected, got Rich)".to_vec()))
    );
    // in pointer mode, a body in the object's own block is dropped
    s.set_top(0);
    s.push(Ptr(0x40));
    assert_eq!(gc::<Ptr>(&s), Ok(Finalize::Drop(0x40)));
    // an indirection to a body that the host owns is not
    s.set_top(0);
    expose_pointer::<Ptr>(&mut s, Some((0, 0x50)));
    assert_eq!(gc::<Ptr>(&s), Ok(Finalize::Keep));
    assert_eq!(s.arg::<UserRef<Ptr>>(1).map(|r| r.address), Some(0x50));
    // a null reference is nil
    expose_pointer::<Ptr>(&mut s, None);
    assert_eq!(s.value(-1), Value::Nil);
    // what is no object at all
    s.set_top(0);
    s.push_integer(1);
    assert_eq!(
        gc::<Ptr>(&s),
        Err(Error::Runtime(b"bad argument #1 (userdata expected, got number)".to_vec()))
    );
    assert_eq!(
        gc::<Rich>(&s),
        Err(Error::Runtime(b"bad argument #1 (Rich expected, got number)".to_vec()))
    );
}

#[test]
fn length_and_block_sizes() {
    let mut s = State::new();
    s.push(Rich(0x60));
    assert_eq!(s.raw_len(1), 24);
    assert_eq!(len(&mut s), Dispatch::Return(1));
    assert_eq!(s.value(-1), Value::Int(24));
    s.set_top(0);
    s.push(Ptr(0x70));
    assert_eq!(s.raw_len(1), 8 + std::mem::size_of::<usize>());
    s.set_top(0);
    expose_pointer::<Ptr>(&mut s, Some((0, 0x70)));
    assert_eq!(s.raw_len(1), std::mem::size_of::<usize>());
}

#[test]
fn typed_reads_of_objects() {
    let mut s = State::new();
    s.push(Rich(0x80));
    s.push(Ptr(0x90));
    s.push_light_userdata(0x80);
    assert_eq!(s.arg::<UserRef<Rich>>(1).map(|r| r.address), Some(0x80));
    assert!(s.arg::<UserRef<Rich>>(2).is_none());
    assert!(s.arg::<UserRef<Rich>>(3).is_none());
    assert!(s.arg::<UserRef<Rich>>(4).is_none());
    assert_eq!(s.arg::<UserRef<Ptr>>(2).map(|r| r.address), Some(0x90));
    assert_eq!(s.test_userdata_meta_(1, 200), Some(0x80));
    assert_eq!(s.test_userdata_meta(1, 300), None);
    assert_eq!(s.check_userdata::<Rich>(1), Ok(0x80));
    assert_eq!(
        s.check_userdata::<Rich>(2),
        Err(Error::Runtime(b"bad argument #2 (Rich expected, got Ptr)".to_vec()))
    );
    assert_eq!(
        s.check_userdata::<Rich>(3),
        Err(Error::Runtime(b"bad argument #3 (Rich expected, got light userdata)".to_vec()))
    );
    assert_eq!(
        s.check_userdata::<Rich>(4),
        Err(Error::Runtime(b"bad argument #4 (Rich expected, got no value)".to_vec()))
    );
}

#[test]
fn the_cache_protocol() {
    let mut s = State::new();
    s.push_integer(1);
    // nothing is cached yet: the metatable, the cache and the key are left
    assert!(!get_cached::<Rich>(&mut s, 0xa0));
    assert_eq!(s.get_top(), 4);
    assert_eq!(s.type_of(2), Type::Table);
    assert_eq!(s.type_of(3), Type::Table);
    assert_eq!(s.to_userdata(4), Some(0xa0));
    // the cache is the metatable of the metatable, and it is weak
    assert!(s.get_metatable(2));
    assert!(s.raw_equal(-1, 3));
    s.pop(1);
    assert!(s.get_metatable(3));
    assert_eq!(s.raw_get_field(-1, b"__mode"), Type::String);
    assert_eq!(s.value(-1), Value::Str(b"v".to_vec()));
    assert_eq!(s.raw_getp(REGISTRY_INDEX, WEAK_META_KEY), Type::Table);
    assert!(s.raw_equal(-1, -3));
    s.set_top(4);
    // an object is made and kept
    s.new_userdata(Userdata { meta: None, size: 1, target: 0xa0, inline: Some(0xa0), uservalue: Slot::Nil });
    init_userdata::<Rich>(&mut s);
    assert_eq!(s.get_uservalue(-1), Type::Table);
    s.pop(1);
    cache_userdata(&mut s, 0xa0);
    assert_eq!(s.get_top(), 2);
    assert_eq!(s.type_of(2), Type::Userdata);
    // now it is found
    assert!(get_cached::<Rich>(&mut s, 0xa0));
    assert_eq!(s.get_top(), 3);
    assert!(s.raw_equal(2, 3));
    // another address is not
    assert!(!get_cached::<Rich>(&mut s, 0xb0));
    s.set_top(3);
    // and after clearing neither is this one
    clear_cached::<Rich>(&mut s, 0xa0);
    assert_eq!(s.get_top(), 3);
    assert!(!get_cached::<Rich>(&mut s, 0xa0));
    s.set_top(0);
    // the weak metatable is one table
    get_weak_meta(&mut s);
    get_weak_meta(&mut s);
    assert!(s.raw_equal(1, 2));
}

#[test]
fn exposing_by_hand() {
    let mut s = State::new();
    expose::<Rich>(&mut s, 0xc0, 0xc8, true);
    expose::<Rich>(&mut s, 0xc0, 0xd0, true);
    expose::<Rich>(&mut s, 0, 0xc8, true);
    assert_eq!(s.get_top(), 3);
    // the key decides the identity, not the address
    assert!(s.raw_equal(1, 2));
    assert!(!s.raw_equal(1, 3));
    assert_eq!(s.to_userdata(2), Some(0xc8));
    assert_eq!(s.to_userdata(3), Some(0xc8));
}

#[test]
fn a_pending_operation_is_taken_out_once() {
    let mut s = State::new();
    s.register_usertype::<TaskWrapper>();
    assert_eq!(yield_task(&mut s, 7), Outcome::Yield(1));
    assert_eq!(s.get_top(), 1);
    assert_eq!(s.type_of(1), Type::Userdata);
    assert_eq!(take_task(&mut s, -1), Ok(7));
    assert_eq!(take_task(&mut s, -1), Err(Error::Runtime(b"task is already moved".to_vec())));
    assert_eq!(take_task(&mut s, -1), Err(Error::Runtime(b"task is already moved".to_vec())));
    // the marker itself is still there
    assert_eq!(s.get_top(), 1);
    // what is no marker
    s.push_integer(1);
    assert_eq!(
        take_task(&mut s, -1),
        Err(Error::Runtime(b"coroutine task expect a TaskWrapper".to_vec()))
    );
    s.push(Rich(0xe0));
    assert_eq!(
        take_task(&mut s, -1),
        Err(Error::Runtime(b"coroutine task expect a TaskWrapper".to_vec()))
    );
    // the host-side marker behaves the same
    let mut w = TaskWrapper(Some(3));
    assert_eq!(w.take(), Ok(3));
    assert_eq!(w.take(), Err(Error::Runtime(b"task is already moved".to_vec())));
    assert_eq!(w, TaskWrapper(None));
}

#[test]
fn closures_are_relocated_by_their_size() {
    let word = std::mem::size_of::<usize>();
    assert_eq!(relocation(0), Relocation::Inline);
    assert_eq!(relocation(word), Relocation::Light);
    assert_eq!(relocation(1), Relocation::Boxed);
    assert_eq!(relocation(word + 1), Relocation::Boxed);
    assert_eq!(relocation(64), Relocation::Boxed);

    let mut s = State::new();
    // nothing captured: the entry point is all
    let f = RsFn::new(500);
    assert_eq!(f.wrapper(), 500);
    s.push(f);
    assert_eq!(s.to_native_fn(1), Some(500));
    let Slot::Function(id) = s.slot(1).unwrap() else { panic!() };
    assert!(s.heap.closure_upvalues(id).is_empty());
    // one word captured: a raw address as upvalue
    s.push(RsFn::closure(501, word, 0xfeed, 0));
    let Slot::Function(id) = s.slot(2).unwrap() else { panic!() };
    assert_eq!(s.heap.closure_upvalues(id), vec![Slot::LightUserdata(0xfeed)]);
    // more captured: a boxed environment with a finalizer
    s.push(RsFn::closure(502, 3 * word, 0xbeef, 599));
    assert_eq!(s.get_top(), 3);
    let Slot::Function(id) = s.slot(3).unwrap() else { panic!() };
    let ups = s.heap.closure_upvalues(id);
    assert_eq!(ups.len(), 1);
    let Slot::Userdata(u) = ups[0] else { panic!() };
    let boxed = s.heap.get_userdata(u).unwrap();
    assert_eq!((boxed.target, boxed.size), (0xbeef, 3 * word));
    s.push_slot(ups[0]);
    assert!(s.get_metatable(-1));
    assert_eq!(s.raw_get_field(-1, b"__gc"), Type::Function);
    assert_eq!(s.to_native_fn(-1), Some(599));

    // the running function recovers what was captured
    for (i, size, env) in [(1, 0, None), (2, word, Some(0xfeed)), (3, 3 * word, Some(0xbeef))] {
        let Slot::Function(id) = s.slot(i).unwrap() else { panic!() };
        let mut frame = State::new();
        std::mem::swap(&mut frame.heap, &mut s.heap);
        frame.upvalues = frame.heap.closure_upvalues(id);
        assert_eq!(recover(&frame, size), env);
        std::mem::swap(&mut frame.heap, &mut s.heap);
    }
}

#[test]
fn plain_objects() {
    let mut s = State::new();
    s.push(llua::UserDataWrapper(Rich(0xf0), false));
    s.push(llua::UserDataWrapper(Rich(0xf0), true));
    assert_eq!(s.get_top(), 2);
    assert_eq!(s.type_of(1), Type::Userdata);
    assert!(!s.raw_equal(1, 2));
    // without metatable it is no object of the type
    assert!(!s.get_metatable(1));
    assert!(s.arg::<UserRef<Rich>>(1).is_none());
    assert_eq!(s.arg::<UserRef<Rich>>(2).map(|r| r.address), Some(0xf0));
    // it has no attached table and no place in the cache
    assert_eq!(s.get_uservalue(2), Type::Nil);
    assert!(!get_cached::<Rich>(&mut s, 0xf0));
}

#[test]
fn readiness_is_checked_at_run_time() {
    let mut s = State::new();
    s.push_integer(1);
    assert!(llua::object::prepare::<Rich>(&mut s));
    assert_eq!(s.get_top(), 1);
    assert_eq!(s.raw_getp(REGISTRY_INDEX, 200), Type::Table);
    s.pop(1);
    // what the registry holds for the type is no table
    s.push_integer(5);
    s.raw_setp(REGISTRY_INDEX, 300);
    assert!(!llua::object::prepare::<Ptr>(&mut s));
    assert_eq!(s.get_top(), 1);
}
