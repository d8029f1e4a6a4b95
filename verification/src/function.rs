//! Native function bridging: how a host function becomes a function of
//! the interpreter, and how a call of one is carried out.
//!
//! A host function takes the arguments of a call as one multi-value and
//! gives the results as another. The bridge reads the arguments from the
//! stack, each at its position, calls the host function and hands the
//! results over. An error is not raised by a non-local exit: it is
//! returned, up to the boundary of the protected call, which leaves its
//! message on the stack.

use vstd::prelude::*;
use vstd::string::StringSliceAdditionalSpecFns;
use crate::convert::{lemma_pushed_slot, FromLua, ToLua};
use crate::convert_multi::{ErrorText, FromLuaMulti, ToLuaMulti, MAX_COUNT, MULTI_ROOM};
use crate::error::{Error, ErrorView};
use crate::heap::Userdata;
use crate::object::UserRef;
use crate::slot::Slot;
use crate::stack::{upvalue_index, Index, MAX_STACK, MIN_STACK, MULTRET, REGISTRY_INDEX};
use crate::state::{State, StateView};
use crate::status::ThreadStatus;
use crate::userdata::{
    lemma_closed, lemma_field_step, lemma_heap_extends, lemma_heap_extends_trans,
    lemma_pushed_table, UserData,
};

verus! {

/// How a native function ends when it does not fail.
#[derive(Clone, Copy, Debug, PartialEq, Eq, Structural)]
pub enum Outcome {
    /// It returns the top `n` cells as its results.
    Return(i32),
    /// It yields the top `n` cells to whoever resumed the coroutine.
    Yield(i32),
}

/// The index of the first argument of a plain native function.
pub const FIRST_ARG: Index = 1;

/// The index of the receiver of a native method; its arguments follow
/// from the next index on.
pub const RECEIVER: Index = 1;

/// Bridges a call of a plain host function: the arguments are read from
/// index 1 on, the function is called with them, and its results are
/// handed over.
pub fn call<T: FromLuaMulti, R: ToLuaMulti, F: FnOnce(T) -> R>(s: &mut State, f: F) -> (r: Result<
    Outcome,
    Error,
>)
    requires
        old(s).wf(),
        old(s)@.has_room(MULTI_ROOM as int),
        forall|t: T| call_requires(f, (t,)),
        forall|t: T, x: R| call_ensures(f, (t,), x) ==> x.spec_pushable_multi(old(s)@),
    ensures
        final(s).wf(),
        match r {
            Ok(o) => exists|t: T, x: R|
                {
                    &&& T::spec_from_lua_multi(old(s)@, 1) == Some(t.deep_view())
                    &&& #[trigger] call_ensures(f, (t,), x)
                    &&& x.spec_raises().is_none()
                    &&& o matches Outcome::Return(n) && n == x.spec_count()
                    &&& final(s)@ == x.spec_pushed_multi(old(s)@)
                },
            Err(e) => {
                &&& final(s)@ == old(s)@
                &&& match T::spec_check_error(old(s)@, 1) {
                    Some(a) => e@ == a,
                    None => exists|t: T, x: R|
                        {
                            &&& T::spec_from_lua_multi(old(s)@, 1) == Some(t.deep_view())
                            &&& #[trigger] call_ensures(f, (t,), x)
                            &&& x.spec_raises().is_some()
                            &&& e@ == ErrorView::Runtime(x.spec_raises().unwrap())
                        },
                }
            },
        },
{
    call_from::<T, R, F>(s, FIRST_ARG, f)
}

/// Bridges a call of a host function whose arguments follow something
/// that is read otherwise, such as a receiver: the arguments are read
/// from index `first` on, the function is called with them, and its
/// results are handed over.
pub fn call_from<T: FromLuaMulti, R: ToLuaMulti, F: FnOnce(T) -> R>(
    s: &mut State,
    first: Index,
    f: F,
) -> (r: Result<Outcome, Error>)
    requires
        old(s).wf(),
        old(s)@.has_room(MULTI_ROOM as int),
        1 <= first <= MAX_STACK,
        forall|t: T| call_requires(f, (t,)),
        forall|t: T, x: R| call_ensures(f, (t,), x) ==> x.spec_pushable_multi(old(s)@),
    ensures
        final(s).wf(),
        match r {
            Ok(o) => exists|t: T, x: R|
                {
                    &&& T::spec_from_lua_multi(old(s)@, first as int) == Some(t.deep_view())
                    &&& #[trigger] call_ensures(f, (t,), x)
                    &&& x.spec_raises().is_none()
                    &&& o matches Outcome::Return(n) && n == x.spec_count()
                    &&& final(s)@ == x.spec_pushed_multi(old(s)@)
                },
            Err(e) => {
                &&& final(s)@ == old(s)@
                &&& match T::spec_check_error(old(s)@, first as int) {
                    Some(a) => e@ == a,
                    None => exists|t: T, x: R|
                        {
                            &&& T::spec_from_lua_multi(old(s)@, first as int) == Some(t.deep_view())
                            &&& #[trigger] call_ensures(f, (t,), x)
                            &&& x.spec_raises().is_some()
                            &&& e@ == ErrorView::Runtime(x.spec_raises().unwrap())
                        },
                }
            },
        },
{
    // a multi-value stands for few cells: their indices are in range
    let _cells = T::count();
    let args = match T::check(s, first) {
        Ok(t) => t,
        Err(e) => {
            return Err(e);
        },
    };
    let ghost t0 = args;
    let x = f(args);
    let ghost x0 = x;
    match x.to_lua(s) {
        Ok(n) => {
            proof {
                assert(call_ensures(f, (t0,), x0));
            }
            Ok(Outcome::Return(n))
        },
        Err(e) => {
            proof {
                assert(call_ensures(f, (t0,), x0));
            }
            Err(e)
        },
    }
}

/// Bridges a call of a host function that also looks at the context: it
/// is called with the context and the arguments read from index 1 on.
pub fn call_with_state<T: FromLuaMulti, R: ToLuaMulti, F: FnOnce(&State, T) -> R>(
    s: &mut State,
    f: F,
) -> (r: Result<Outcome, Error>)
    requires
        old(s).wf(),
        old(s)@.has_room(MULTI_ROOM as int),
        forall|t: T| call_requires(f, (old(s), t)),
        forall|t: T, x: R| call_ensures(f, (old(s), t), x) ==> x.spec_pushable_multi(old(s)@),
    ensures
        final(s).wf(),
        match r {
            Ok(o) => exists|t: T, x: R|
                {
                    &&& T::spec_from_lua_multi(old(s)@, 1) == Some(t.deep_view())
                    &&& #[trigger] call_ensures(f, (old(s), t), x)
                    &&& x.spec_raises().is_none()
                    &&& o matches Outcome::Return(n) && n == x.spec_count()
                    &&& final(s)@ == x.spec_pushed_multi(old(s)@)
                },
            Err(e) => {
                &&& final(s)@ == old(s)@
                &&& match T::spec_check_error(old(s)@, 1) {
                    Some(a) => e@ == a,
                    None => exists|t: T, x: R|
                        {
                            &&& T::spec_from_lua_multi(old(s)@, 1) == Some(t.deep_view())
                            &&& #[trigger] call_ensures(f, (old(s), t), x)
                            &&& x.spec_raises().is_some()
                            &&& e@ == ErrorView::Runtime(x.spec_raises().unwrap())
                        },
                }
            },
        },
{
    // a multi-value stands for few cells: their indices are in range
    let _cells = T::count();
    let args = match T::check(s, FIRST_ARG) {
        Ok(t) => t,
        Err(e) => {
            return Err(e);
        },
    };
    let ghost t0 = args;
    let x = f(&*s, args);
    let ghost x0 = x;
    match x.to_lua(s) {
        Ok(n) => {
            proof {
                assert(call_ensures(f, (old(s), t0), x0));
            }
            Ok(Outcome::Return(n))
        },
        Err(e) => {
            proof {
                assert(call_ensures(f, (old(s), t0), x0));
            }
            Err(e)
        },
    }
}

/// The error for the first of the receiver and the arguments of a method
/// that is not of its type; `None` where all are.
pub open spec fn spec_method_error<U: UserData, T: FromLuaMulti>(s: StateView) -> Option<
    ErrorView,
> {
    if <UserRef<U> as FromLua>::spec_from_lua(s, 1).is_none() {
        Some(s.type_error(1, U::spec_tname()))
    } else {
        T::spec_check_error(s, 2)
    }
}

/// Bridges a call of a host method: the receiver is the opaque object of
/// the host type `U` at index 1, the arguments are read from index 2 on,
/// and the host function is called with the receiver's host address and
/// the arguments.
pub fn call_method<U: UserData, T: FromLuaMulti, R: ToLuaMulti, F: FnOnce(usize, T) -> R>(
    s: &mut State,
    f: F,
) -> (r: Result<Outcome, Error>)
    requires
        old(s).wf(),
        old(s)@.has_room(MULTI_ROOM as int),
        forall|a: usize, t: T| call_requires(f, (a, t)),
        forall|a: usize, t: T, x: R| call_ensures(f, (a, t), x) ==> x.spec_pushable_multi(old(s)@),
    ensures
        final(s).wf(),
        match r {
            Ok(o) => exists|t: T, x: R|
                {
                    &&& <UserRef<U> as FromLua>::spec_from_lua(old(s)@, 1).is_some()
                    &&& T::spec_from_lua_multi(old(s)@, 2) == Some(t.deep_view())
                    &&& #[trigger] call_ensures(
                        f,
                        (<UserRef<U> as FromLua>::spec_from_lua(old(s)@, 1).unwrap(), t),
                        x,
                    )
                    &&& x.spec_raises().is_none()
                    &&& o matches Outcome::Return(n) && n == x.spec_count()
                    &&& final(s)@ == x.spec_pushed_multi(old(s)@)
                },
            Err(e) => {
                &&& final(s)@ == old(s)@
                &&& match spec_method_error::<U, T>(old(s)@) {
                    Some(a) => e@ == a,
                    None => exists|t: T, x: R|
                        {
                            &&& T::spec_from_lua_multi(old(s)@, 2) == Some(t.deep_view())
                            &&& #[trigger] call_ensures(
                                f,
                                (<UserRef<U> as FromLua>::spec_from_lua(old(s)@, 1).unwrap(), t),
                                x,
                            )
                            &&& x.spec_raises().is_some()
                            &&& e@ == ErrorView::Runtime(x.spec_raises().unwrap())
                        },
                }
            },
        },
{
    // a multi-value stands for few cells: their indices are in range
    let _cells = T::count();
    let this = match s.check_arg::<UserRef<U>>(RECEIVER) {
        Ok(u) => u,
        Err(e) => {
            return Err(e);
        },
    };
    let args = match T::check(s, RECEIVER + 1) {
        Ok(t) => t,
        Err(e) => {
            return Err(e);
        },
    };
    let ghost t0 = args;
    let ghost a0 = this.address;
    let x = f(this.address, args);
    let ghost x0 = x;
    match x.to_lua(s) {
        Ok(n) => {
            proof {
                assert(a0 == <UserRef<U> as FromLua>::spec_from_lua(old(s)@, 1).unwrap());
                assert(call_ensures(
                    f,
                    (<UserRef<U> as FromLua>::spec_from_lua(old(s)@, 1).unwrap(), t0),
                    x0,
                ));
            }
            Ok(Outcome::Return(n))
        },
        Err(e) => {
            proof {
                assert(a0 == <UserRef<U> as FromLua>::spec_from_lua(old(s)@, 1).unwrap());
                assert(call_ensures(
                    f,
                    (<UserRef<U> as FromLua>::spec_from_lua(old(s)@, 1).unwrap(), t0),
                    x0,
                ));
            }
            Err(e)
        },
    }
}

impl State {
    /// Hands a multi-value over and returns the number of values handed
    /// over, or the error to raise.
    pub fn pushx<T: ToLuaMulti>(&mut self, t: T) -> (r: Result<i32, Error>)
        requires
            old(self).wf(),
            old(self)@.has_room(MULTI_ROOM as int),
            t.spec_pushable_multi(old(self)@),
        ensures
            final(self).wf(),
            match r {
                Ok(n) => {
                    &&& t.spec_raises().is_none()
                    &&& n == t.spec_count()
                    &&& final(self)@ == t.spec_pushed_multi(old(self)@)
                },
                Err(e) => {
                    &&& t.spec_raises().is_some()
                    &&& e@ == ErrorView::Runtime(t.spec_raises().unwrap())
                    &&& final(self)@ == old(self)@
                },
            },
    {
        t.to_lua(self)
    }

    /// Hands a multi-value over and returns the count as a value that
    /// stands for what is pushed already.
    pub fn pushed<T: ToLuaMulti>(&mut self, t: T) -> (r: Result<crate::convert::Pushed, Error>)
        requires
            old(self).wf(),
            old(self)@.has_room(MULTI_ROOM as int),
            t.spec_pushable_multi(old(self)@),
        ensures
            final(self).wf(),
            match r {
                Ok(n) => {
                    &&& t.spec_raises().is_none()
                    &&& n.0 == t.spec_count()
                    &&& final(self)@ == t.spec_pushed_multi(old(self)@)
                },
                Err(e) => {
                    &&& t.spec_raises().is_some()
                    &&& e@ == ErrorView::Runtime(t.spec_raises().unwrap())
                    &&& final(self)@ == old(self)@
                },
            },
    {
        match t.to_lua(self) {
            Ok(n) => Ok(crate::convert::Pushed(n)),
            Err(e) => Err(e),
        }
    }

    /// The error that raising the message `e` in the interpreter is.
    pub fn error_string(&self, e: &[u8]) -> (r: Error)
        ensures
            r@ == ErrorView::Runtime(e@),
    {
        Error::Runtime(crate::heap::bytes_to_vec(e))
    }

    /// The error that raising `e` in the interpreter is: a runtime error
    /// with the text that describes `e`.
    pub fn raise_error<E: ErrorText>(&self, e: E) -> (r: Error)
        ensures
            r@ == ErrorView::Runtime(e.spec_error_text()),
    {
        Error::Runtime(e.error_text())
    }

    /// Passes a success through and turns a failure into the error to
    /// raise.
    pub fn check_result<T, E: ErrorText>(&self, r: Result<T, E>) -> (res: Result<T, Error>)
        ensures
            match (r, res) {
                (Ok(a), Ok(b)) => a == b,
                (Err(e), Err(x)) => x@ == ErrorView::Runtime(e.spec_error_text()),
                _ => false,
            },
    {
        match r {
            Ok(v) => Ok(v),
            Err(e) => Err(self.raise_error(e)),
        }
    }

    /// Pushes the result of a fallible host operation. A success is pushed
    /// and counts as one value. A failure is raised if `raise` is set; otherwise
    /// `false` and the text that describes the failure are pushed, as two
    /// values.
    pub fn push_result<T: ToLua, E: ErrorText>(&mut self, r: Result<T, E>, raise: bool) -> (res:
        Result<i32, Error>)
        requires
            old(self).wf(),
            old(self)@.has_room(MIN_STACK as int),
            r matches Ok(v) ==> v.spec_pushable(old(self)@),
        ensures
            final(self).wf(),
            match r {
                Ok(v) => res == Ok::<i32, Error>(1) && final(self)@ == v.spec_pushed(old(self)@),
                Err(e) => if raise {
                    &&& res matches Err(x) && x@ == ErrorView::Runtime(e.spec_error_text())
                    &&& final(self)@ == old(self)@
                } else {
                    &&& res == Ok::<i32, Error>(2)
                    &&& final(self)@ == old(self)@.pushed(Slot::Bool(false)).pushed_bytes(
                        e.spec_error_text(),
                    )
                },
            },
    {
        match r {
            Ok(v) => {
                self.push(v);
                Ok(1)
            },
            Err(e) => {
                if raise {
                    Err(self.raise_error(e))
                } else {
                    self.push_bool(false);
                    let t = e.error_text();
                    self.push_bytes(t.as_slice());
                    Ok(2)
                }
            },
        }
    }
}

/// Where the captured environment of a host closure is kept once the
/// closure is a function of the interpreter.
#[derive(Clone, Copy, Debug, PartialEq, Eq, Structural)]
pub enum Relocation {
    /// The closure captures nothing: the entry point is all there is.
    Inline,
    /// The environment is one pointer wide: it is the function's upvalue,
    /// as a raw address.
    Light,
    /// The environment is boxed into an opaque object with a finalizer,
    /// which is the function's upvalue.
    Boxed,
}

/// The size of a pointer in bytes.
pub open spec fn spec_pointer_size() -> usize {
    if usize::BITS == 32 {
        4
    } else {
        8
    }
}

/// Where an environment of `size` bytes is kept.
pub open spec fn spec_relocation(size: usize) -> Relocation {
    if size == 0 {
        Relocation::Inline
    } else if size == spec_pointer_size() {
        Relocation::Light
    } else {
        Relocation::Boxed
    }
}

/// Where an environment of `size` bytes is kept.
pub fn relocation(size: usize) -> (r: Relocation)
    ensures
        r == spec_relocation(size),
{
    let ptr: usize = if usize::BITS == 32 {
        4
    } else {
        8
    };
    if size == 0 {
        Relocation::Inline
    } else if size == ptr {
        Relocation::Light
    } else {
        Relocation::Boxed
    }
}

impl Relocation {
    /// The number of upvalues that the function of the interpreter gets.
    pub open spec fn spec_upvalues(self) -> int {
        if self is Inline {
            0
        } else {
            1
        }
    }

    /// The number of upvalues that the function of the interpreter gets:
    /// none where nothing is captured, and otherwise one, which holds the
    /// environment or its box.
    pub fn upvalues(self) -> (n: i32)
        ensures
            n == self.spec_upvalues(),
    {
        match self {
            Relocation::Inline => 0,
            _ => 1,
        }
    }

    /// Whether the environment gets a finalizer.
    pub open spec fn spec_finalized(self) -> bool {
        self is Boxed
    }

    /// Whether the environment gets a finalizer: it does where it is
    /// boxed.
    pub fn finalized(self) -> (b: bool)
        ensures
            b == self.spec_finalized(),
    {
        matches!(self, Relocation::Boxed)
    }
}

/// A host function or closure that is to become a function of the
/// interpreter.
#[derive(Clone, Copy, Debug, PartialEq, Eq, Structural)]
pub struct RsFn {
    /// The identity of the entry point that bridges calls of it.
    pub entry: usize,
    /// The size in bytes of what the closure captures.
    pub size: usize,
    /// What the closure captures where that is one pointer wide, and the
    /// host address of what it captures where it is larger.
    pub env: usize,
    /// The identity of the entry point that finalizes a boxed environment.
    pub gc: usize,
}

impl RsFn {
    /// A host function that captures nothing.
    pub fn new(entry: usize) -> (f: RsFn)
        ensures
            f == (RsFn { entry, size: 0, env: 0, gc: 0 }),
    {
        RsFn { entry, size: 0, env: 0, gc: 0 }
    }

    /// A host closure that captures `size` bytes, found at or held in
    /// `env`; `gc` finalizes what it captures.
    pub fn closure(entry: usize, size: usize, env: usize, gc: usize) -> (f: RsFn)
        ensures
            f == (RsFn { entry, size, env, gc }),
    {
        RsFn { entry, size, env, gc }
    }

    /// The entry point of a host function that captures nothing: it can
    /// be handed to the interpreter as it is.
    pub fn wrapper(&self) -> (e: usize)
        requires
            self.size == 0,
        ensures
            e == self.entry,
    {
        self.entry
    }
}

impl StateView {
    /// The context after an opaque object without metatable is pushed.
    pub open spec fn pushed_userdata(self, u: Userdata) -> StateView {
        self.with_heap(self.heap.with_new_userdata(u)).pushed(
            Slot::Userdata(self.heap.userdata.len() as usize),
        )
    }
}

/// The record of the opaque object that boxes the environment of `f`.
pub open spec fn spec_boxed(f: RsFn) -> Userdata {
    Userdata { meta: None, size: f.size, target: f.env, inline: Some(f.env), uservalue: Slot::Nil }
}

/// The context after the environment of `f` is boxed and pushed: an opaque
/// object whose metatable holds only the finalizer.
pub open spec fn spec_boxed_pushed(pre: StateView, f: RsFn) -> StateView {
    let s1 = pre.pushed_userdata(spec_boxed(f));
    let t = s1.heap.tables.len() as usize;
    let s2 = s1.pushed_table().pushed_fn(f.gc).raw_set_field(t, "__gc".spec_bytes());
    s2.with_meta(s1.peek(0), Some(t)).popped(1)
}

impl ToLua for RsFn {
    open spec fn spec_is_top() -> bool {
        false
    }

    open spec fn spec_pushable(&self, pre: StateView) -> bool {
        pre.heap.wf() && pre.heap.tables.len() < usize::MAX && pre.heap.userdata.len()
            < usize::MAX
    }

    open spec fn spec_pushed(&self, pre: StateView) -> StateView {
        match spec_relocation(self.size) {
            Relocation::Inline => pre.pushed_fn(self.entry),
            Relocation::Light => pre.pushed(Slot::LightUserdata(self.env)).closed(self.entry, 1),
            Relocation::Boxed => spec_boxed_pushed(pre, *self).closed(self.entry, 1),
        }
    }

    proof fn lemma_pushed(&self, pre: StateView) {
        lemma_relocated(pre, *self);
    }

    fn is_top() -> (b: bool) {
        false
    }

    fn to_lua(self, s: &mut State) {
        proof {
            lemma_relocated(s@, self);
        }
        let place = relocation(self.size);
        match place {
            Relocation::Inline => {
                s.push_fn(self.entry);
            },
            Relocation::Light => {
                s.push_light_userdata(self.env);
                s.push_cclosure(self.entry, place.upvalues());
            },
            Relocation::Boxed => {
                s.new_userdata(
                    Userdata {
                        meta: None,
                        size: self.size,
                        target: self.env,
                        inline: Some(self.env),
                        uservalue: Slot::Nil,
                    },
                );
                s.new_table();
                s.push_fn(self.gc);
                s.raw_set_field(-2, "__gc".as_bytes());
                s.set_metatable(-2);
                s.push_cclosure(self.entry, place.upvalues());
            },
        }
    }
}

/// Relocating a host closure pushes one cell, which holds a function with
/// the closure's entry point, and only extends the context. Where the
/// closure captures anything, what it captures is recovered from the
/// function's first upvalue.
pub proof fn lemma_relocated(pre: StateView, f: RsFn)
    requires
        f.spec_pushable(pre),
    ensures
        ({
            let fin = f.spec_pushed(pre);
            let id = fin.heap.closures.len() - 1;
            &&& fin.extends(pre)
            &&& fin.top() == pre.top() + 1
            &&& fin.heap.closures.len() >= 1
            &&& fin.peek(0) == Slot::Function(id as usize)
            &&& fin.heap.closures[id].entry == f.entry
            &&& fin.heap.closures[id].upvalues.len() == spec_relocation(f.size).spec_upvalues()
            &&& spec_recovered(fin.heap.closures[id].upvalues, fin.heap, f.size) == (if f.size
                == 0 {
                None
            } else {
                Some(f.env)
            })
        }),
{
    let fin = f.spec_pushed(pre);
    match spec_relocation(f.size) {
        Relocation::Inline => {
            crate::userdata::NativeFn(f.entry).lemma_pushed(pre);
        },
        Relocation::Light => {
            let a = pre.pushed(Slot::LightUserdata(f.env));
            lemma_pushed_slot(pre, Slot::LightUserdata(f.env));
            lemma_closed(a, f.entry);
            lemma_heap_extends_trans(pre.heap, a.heap, fin.heap);
            assert(fin.stack.subrange(0, pre.stack.len() as int) =~= pre.stack);
            assert(a.stack.subrange(a.top() - 1, a.top()) =~= seq![Slot::LightUserdata(f.env)]);
        },
        Relocation::Boxed => {
            let s1 = pre.pushed_userdata(spec_boxed(f));
            let u = pre.heap.userdata.len() as usize;
            lemma_heap_extends(pre.heap, s1.heap);
            let t = s1.heap.tables.len() as usize;
            lemma_pushed_table(s1);
            let s1t = s1.pushed_table();
            crate::userdata::NativeFn(f.gc).lemma_pushed(s1t);
            lemma_field_step(s1t, s1t.pushed_fn(f.gc), t, "__gc".spec_bytes());
            let s2 = s1t.pushed_fn(f.gc).raw_set_field(t, "__gc".spec_bytes());
            let s3 = s2.with_meta(s1.peek(0), Some(t)).popped(1);
            lemma_heap_extends(s2.heap, s3.heap);
            lemma_heap_extends_trans(pre.heap, s1.heap, s1t.heap);
            lemma_heap_extends_trans(pre.heap, s1t.heap, s2.heap);
            lemma_heap_extends_trans(pre.heap, s2.heap, s3.heap);
            assert(s3.stack =~= pre.stack.push(Slot::Userdata(u)));
            lemma_closed(s3, f.entry);
            lemma_heap_extends_trans(pre.heap, s3.heap, fin.heap);
            assert(fin.stack.subrange(0, pre.stack.len() as int) =~= pre.stack);
            assert(s3.stack.subrange(s3.top() - 1, s3.top()) =~= seq![Slot::Userdata(u)]);
            assert(s3.heap.userdata[u as int].target == f.env);
        },
    }
}

/// What a running function recovers as its environment from its first
/// upvalue: nothing for a closure that captures nothing, and otherwise
/// the raw address that the upvalue is or stands for.
pub open spec fn spec_recovered(upvalues: Seq<Slot>, heap: crate::heap::HeapView, size: usize)
    -> Option<usize> {
    if size == 0 || upvalues.len() == 0 {
        None
    } else {
        match upvalues[0] {
            Slot::LightUserdata(p) => Some(p),
            Slot::Userdata(u) => match heap.get_userdata(u) {
                Some(o) => Some(o.target),
                None => None,
            },
            _ => None,
        }
    }
}

/// Recovers the environment of the running function, which was made from
/// a host closure that captures `size` bytes.
pub fn recover(s: &State, size: usize) -> (r: Option<usize>)
    requires
        s.wf(),
    ensures
        r == spec_recovered(s@.upvalues, s@.heap, size),
{
    if size == 0 {
        None
    } else {
        s.to_userdata(upvalue_index(1))
    }
}

} // verus!
