//! Typed value references: an index into the stack of a context, through
//! which the value there is read and, where it is a table, accessed.

use vstd::prelude::*;
use crate::convert::{FromLua, ToLua};
use crate::error::Error;
use crate::heap::Heap;
use crate::slot::Slot;
use crate::stack::{upvalue_index, Index, MAX_UPVALUES, MIN_STACK, REGISTRY_INDEX};
use crate::state::{State, StateView};
use crate::error::ErrorView;
use crate::state_tables::{spec_index_error, spec_key_error, spec_key_ok};
use crate::status::Type;

verus! {

/// The primitive content of a value, or its kind where it has none.
#[derive(Debug, PartialEq, Eq)]
pub enum Value {
    NoValue,
    Nil,
    Int(i64),
    /// A floating-point number, by its binary64 bits.
    Num(u64),
    Str(Vec<u8>),
    Bool(bool),
    LightUserdata,
    Table,
    Function,
    Userdata,
    Thread,
}

/// The mathematical content of a [`Value`].
pub enum ValueView {
    NoValue,
    Nil,
    Int(i64),
    Num(u64),
    Str(Seq<u8>),
    Bool(bool),
    LightUserdata,
    Table,
    Function,
    Userdata,
    Thread,
}

impl DeepView for Value {
    type V = ValueView;

    open spec fn deep_view(&self) -> ValueView {
        match self {
            Value::NoValue => ValueView::NoValue,
            Value::Nil => ValueView::Nil,
            Value::Int(i) => ValueView::Int(*i),
            Value::Num(b) => ValueView::Num(*b),
            Value::Str(s) => ValueView::Str(s@),
            Value::Bool(b) => ValueView::Bool(*b),
            Value::LightUserdata => ValueView::LightUserdata,
            Value::Table => ValueView::Table,
            Value::Function => ValueView::Function,
            Value::Userdata => ValueView::Userdata,
            Value::Thread => ValueView::Thread,
        }
    }
}

impl StateView {
    /// The primitive content of what `i` refers to.
    pub open spec fn value_view(self, i: int) -> ValueView {
        match self.slot_at(i) {
            None => ValueView::NoValue,
            Some(Slot::Nil) => ValueView::Nil,
            Some(Slot::Int(n)) => ValueView::Int(n),
            Some(Slot::Num(b)) => ValueView::Num(b),
            Some(Slot::Str(id)) => match self.heap.string(id) {
                Some(b) => ValueView::Str(b),
                None => ValueView::Str(Seq::empty()),
            },
            Some(Slot::Bool(b)) => ValueView::Bool(b),
            Some(Slot::LightUserdata(_)) => ValueView::LightUserdata,
            Some(Slot::Table(_)) => ValueView::Table,
            Some(Slot::Function(_)) => ValueView::Function,
            Some(Slot::Userdata(_)) => ValueView::Userdata,
            Some(Slot::Thread(_)) => ValueView::Thread,
        }
    }

    /// Whether `idx` is the absolute index of a cell, or a pseudo-index:
    /// an index that keeps its meaning when the stack grows.
    pub open spec fn is_absolute(self, idx: int) -> bool {
        1 <= idx <= self.top() || idx <= REGISTRY_INDEX
    }
}

/// What an absolute index refers to stays what it is when the context is
/// extended; a table stays a table.
pub proof fn lemma_extends_ref(a: StateView, b: StateView, idx: int)
    requires
        b.extends(a),
        a.is_absolute(idx),
    ensures
        b.is_absolute(idx),
        b.slot_at(idx) == a.slot_at(idx),
        a.table_at(idx).is_some() ==> b.table_at(idx) == a.table_at(idx),
        a.userdata_at(idx).is_some() ==> b.userdata_at(idx) == a.userdata_at(idx),
{
    if 1 <= idx <= a.top() {
        assert(b.stack.subrange(0, a.stack.len() as int)[idx - 1] == a.stack[idx - 1]);
    }
}

/// A reference to a value by its place in a context.
#[derive(Clone, Copy, Debug, PartialEq, Eq, Structural)]
pub struct ValRef {
    /// The absolute index of the value.
    pub index: Index,
}

impl ValRef {
    /// Refers to what `index` refers to now; the reference keeps its
    /// meaning when the stack grows.
    pub fn new(state: &State, index: Index) -> (r: ValRef)
        requires
            state.wf(),
        ensures
            r.index == state@.abs_index(index as int),
            state@.in_stack(index as int) || index <= REGISTRY_INDEX ==> state@.is_absolute(
                r.index as int,
            ) && state@.slot_at(r.index as int) == state@.slot_at(index as int),
    {
        ValRef { index: state.abs_index(index) }
    }

    /// The classification of the value.
    pub fn type_of(&self, state: &State) -> (t: Type)
        requires
            state.wf(),
        ensures
            t == state@.type_at(self.index as int),
    {
        state.type_of(self.index)
    }

    /// Whether the value is nil.
    pub fn is_nil(&self, state: &State) -> (r: bool)
        requires
            state.wf(),
        ensures
            r == (state@.slot_at(self.index as int) == Some(Slot::Nil)),
    {
        state.is_nil(self.index)
    }

    /// Whether the value is a number held as an integer.
    pub fn is_integer(&self, state: &State) -> (r: bool)
        requires
            state.wf(),
        ensures
            r == (state@.slot_at(self.index as int) matches Some(Slot::Int(_))),
    {
        state.is_integer(self.index)
    }

    /// The truth value of the value.
    pub fn to_bool(&self, state: &State) -> (r: bool)
        requires
            state.wf(),
        ensures
            r == state@.value_at(self.index as int).spec_truthy(),
    {
        state.to_bool(self.index)
    }

    /// Checks that the value has the classification `ty`; a type error
    /// otherwise.
    pub fn check_type(&self, state: &State, ty: Type) -> (r: Result<(), Error>)
        requires
            state.wf(),
        ensures
            match r {
                Ok(()) => state@.type_at(self.index as int) == ty,
                Err(e) => state@.type_at(self.index as int) != ty && e@ == state@.type_error(
                    self.index as int,
                    crate::diag::spec_typename(ty),
                ),
            },
    {
        state.check_type(self.index, ty)
    }

    /// Reads the value as a host value; `None` where it is of another
    /// type.
    pub fn cast<T: FromLua>(&self, state: &State) -> (r: Option<T>)
        requires
            state.wf(),
        ensures
            r.deep_view() == T::spec_from_lua(state@, self.index as int),
    {
        state.arg(self.index)
    }

    /// Reads the value as a host value; a type error where it is of
    /// another type.
    pub fn check_cast<T: FromLua>(&self, state: &State) -> (r: Result<T, Error>)
        requires
            state.wf(),
        ensures
            match r {
                Ok(v) => T::spec_from_lua(state@, self.index as int) == Some(v.deep_view()),
                Err(e) => T::spec_from_lua(state@, self.index as int).is_none() && e@
                    == state@.type_error(self.index as int, T::spec_tname()),
            },
    {
        state.check_arg(self.index)
    }

    /// Pushes what the table binds to the integer `i` and refers to it.
    pub fn raw_geti(&self, state: &mut State, i: i64) -> (r: ValRef)
        requires
            old(state).wf(),
            old(state)@.has_room(1),
            old(state)@.table_at(self.index as int).is_some(),
        ensures
            final(state)@ == old(state)@.pushed(
                old(state)@.lookup(old(state)@.table_at(self.index as int).unwrap(), Slot::Int(i)),
            ),
            r.index == final(state)@.top(),
            final(state).wf(),
    {
        state.raw_geti(self.index, i);
        state.val(-1)
    }

    /// Pushes what the table binds to the integer `i` and refers to it.
    /// Where the value is no table, the result is the error to raise, and
    /// nothing is pushed.
    pub fn geti(&self, state: &mut State, i: i64) -> (r: Result<ValRef, Error>)
        requires
            old(state).wf(),
            old(state)@.has_room(1),
        ensures
            final(state).wf(),
            match old(state)@.table_at(self.index as int) {
                Some(t) => {
                    &&& final(state)@ == old(state)@.pushed(old(state)@.lookup(t, Slot::Int(i)))
                    &&& (r matches Ok(v) && v.index == final(state)@.top())
                },
                None => {
                    &&& (r matches Err(e) && e@ == spec_index_error(
                        old(state)@.type_at(self.index as int),
                    ))
                    &&& final(state)@ == old(state)@
                },
            },
    {
        match state.geti(self.index, i) {
            Ok(_) => Ok(state.val(-1)),
            Err(e) => Err(e),
        }
    }

    /// Binds the integer `i` to the host value `v` in the table. Where
    /// the value is no table, the result is the error to raise, and
    /// nothing is pushed.
    pub fn seti<V: ToLua>(&self, state: &mut State, i: i64, v: V) -> (r: Result<(), Error>)
        requires
            old(state).wf(),
            old(state)@.has_room(MIN_STACK as int),
            old(state)@.is_absolute(self.index as int),
            V::spec_is_top() ==> old(state)@.top() >= 1,
            v.spec_pushable(old(state)@),
        ensures
            final(state).wf(),
            match old(state)@.table_at(self.index as int) {
                Some(t) => r.is_ok() && final(state)@ == v.spec_pushed(old(state)@).stored(
                    t,
                    Slot::Int(i),
                    v.spec_pushed(old(state)@).peek(0),
                ).popped(1),
                None => {
                    &&& (r matches Err(e) && e@ == spec_index_error(
                        old(state)@.type_at(self.index as int),
                    ))
                    &&& final(state)@ == old(state)@
                },
            },
    {
        if state.table_at(self.index).is_none() {
            return Err(state.index_error(self.index));
        }
        proof {
            v.lemma_pushed(state@);
            lemma_extends_ref(state@, v.spec_pushed(state@), self.index as int);
        }
        v.to_lua(state);
        state.raw_seti(self.index, i);
        Ok(())
    }

    /// Pushes what the table binds to the string `k` and refers to it.
    /// Where the value is no table, the result is the error to raise, and
    /// nothing is pushed.
    pub fn getf(&self, state: &mut State, k: &[u8]) -> (r: Result<ValRef, Error>)
        requires
            old(state).wf(),
            old(state)@.has_room(1),
        ensures
            final(state).wf(),
            match old(state)@.table_at(self.index as int) {
                Some(t) => {
                    &&& final(state)@ == old(state)@.interned(k@).pushed(
                        old(state)@.interned(k@).lookup(t, old(state)@.str_key(k@)),
                    )
                    &&& (r matches Ok(v) && v.index == final(state)@.top())
                },
                None => {
                    &&& (r matches Err(e) && e@ == spec_index_error(
                        old(state)@.type_at(self.index as int),
                    ))
                    &&& final(state)@ == old(state)@
                },
            },
    {
        match state.get_field(self.index, k) {
            Ok(_) => Ok(state.val(-1)),
            Err(e) => Err(e),
        }
    }

    /// Pushes the host value `k` and replaces it by what the table binds
    /// to it; returns the classification of that value.
    pub fn rawget<K: ToLua>(&self, state: &mut State, k: K) -> (t: Type)
        requires
            old(state).wf(),
            old(state)@.has_room(MIN_STACK as int),
            old(state)@.is_absolute(self.index as int),
            old(state)@.table_at(self.index as int).is_some(),
            K::spec_is_top() ==> old(state)@.top() >= 1,
            k.spec_pushable(old(state)@),
        ensures
            final(state)@ == k.spec_pushed(old(state)@).popped(1).pushed(
                k.spec_pushed(old(state)@).lookup(
                    old(state)@.table_at(self.index as int).unwrap(),
                    k.spec_pushed(old(state)@).peek(0),
                ),
            ),
            t == final(state)@.peek(0).spec_type_of(),
            final(state).wf(),
    {
        proof {
            k.lemma_pushed(state@);
            lemma_extends_ref(state@, k.spec_pushed(state@), self.index as int);
        }
        state.push(k);
        state.raw_get(self.index)
    }

    /// The raw length of the value.
    pub fn rawlen(&self, state: &State) -> (n: usize)
        requires
            state.wf(),
        ensures
            match state@.table_at(self.index as int) {
                Some(t) => state@.heap.tables[t as int].is_border(n as int),
                None => n == state@.raw_len_of(state@.value_at(self.index as int)),
            },
    {
        state.raw_len(self.index)
    }

    /// Binds the string `k` to the value on top of the stack, and pops
    /// it. Where the value is no table, the result is the error to raise,
    /// and the stack is left as it was.
    pub fn set_field(&self, state: &mut State, k: &[u8]) -> (r: Result<(), Error>)
        requires
            old(state).wf(),
            old(state)@.top() >= 1,
        ensures
            final(state).wf(),
            match old(state)@.table_at(self.index as int) {
                Some(t) => r.is_ok() && final(state)@ == old(state)@.interned(k@).stored(
                    t,
                    old(state)@.str_key(k@),
                    old(state)@.peek(0),
                ).popped(1),
                None => {
                    &&& (r matches Err(e) && e@ == spec_index_error(
                        old(state)@.type_at(self.index as int),
                    ))
                    &&& final(state)@ == old(state)@
                },
            },
    {
        state.set_field(self.index, k)
    }

    /// The context after `setf` binds the string `k` to the host value
    /// `v` in table `t`.
    pub open spec fn spec_setf<V: ToLua>(pre: StateView, t: usize, k: Seq<u8>, v: V) -> StateView {
        let s1 = v.spec_pushed(pre);
        s1.interned(k).stored(t, s1.str_key(k), s1.peek(0)).popped(1)
    }

    /// Binds the string `k` to the host value `v` in the table. Where the
    /// value is no table, the result is the error to raise, and nothing
    /// is pushed.
    pub fn setf<V: ToLua>(&self, state: &mut State, k: &[u8], v: V) -> (r: Result<(), Error>)
        requires
            old(state).wf(),
            old(state)@.has_room(MIN_STACK as int),
            old(state)@.is_absolute(self.index as int),
            V::spec_is_top() ==> old(state)@.top() >= 1,
            v.spec_pushable(old(state)@),
        ensures
            final(state).wf(),
            match old(state)@.table_at(self.index as int) {
                Some(t) => r.is_ok() && final(state)@ == Self::spec_setf(old(state)@, t, k@, v),
                None => {
                    &&& (r matches Err(e) && e@ == spec_index_error(
                        old(state)@.type_at(self.index as int),
                    ))
                    &&& final(state)@ == old(state)@
                },
            },
    {
        if state.table_at(self.index).is_none() {
            return Err(state.index_error(self.index));
        }
        proof {
            v.lemma_pushed(state@);
            lemma_extends_ref(state@, v.spec_pushed(state@), self.index as int);
        }
        state.push(v);
        state.raw_set_field(self.index, k);
        Ok(())
    }

    /// Pushes what the table binds to the raw address `p` and refers to
    /// it.
    pub fn getp(&self, state: &mut State, p: usize) -> (r: ValRef)
        requires
            old(state).wf(),
            old(state)@.has_room(1),
            old(state)@.table_at(self.index as int).is_some(),
        ensures
            final(state)@ == old(state)@.pushed(
                old(state)@.lookup(
                    old(state)@.table_at(self.index as int).unwrap(),
                    Slot::LightUserdata(p),
                ),
            ),
            r.index == final(state)@.top(),
            final(state).wf(),
    {
        state.raw_getp(self.index, p);
        state.val(-1)
    }

    /// Binds the raw address `k` to the host value `v` in the table.
    pub fn setp<V: ToLua>(&self, state: &mut State, k: usize, v: V)
        requires
            old(state).wf(),
            old(state)@.has_room(MIN_STACK as int),
            old(state)@.is_absolute(self.index as int),
            old(state)@.table_at(self.index as int).is_some(),
            V::spec_is_top() ==> old(state)@.top() >= 1,
            v.spec_pushable(old(state)@),
        ensures
            final(state)@ == v.spec_pushed(old(state)@).stored(
                old(state)@.table_at(self.index as int).unwrap(),
                Slot::LightUserdata(k),
                v.spec_pushed(old(state)@).peek(0),
            ).popped(1),
            final(state).wf(),
    {
        proof {
            v.lemma_pushed(state@);
            lemma_extends_ref(state@, v.spec_pushed(state@), self.index as int);
        }
        v.to_lua(state);
        state.raw_setp(self.index, k);
    }

    /// The key and the value that `set` hands to the table, and the
    /// context in which it does: both are on top of the stack, the key
    /// below the value.
    pub open spec fn spec_set_ready<K: ToLua, V: ToLua>(pre: StateView, k: K, v: V) -> StateView {
        if V::spec_is_top() {
            let s1 = k.spec_pushed(pre);
            if K::spec_is_top() {
                s1
            } else {
                s1.with_stack(s1.stack.drop_last().insert(s1.top() - 2, s1.stack.last()))
            }
        } else {
            v.spec_pushed(k.spec_pushed(pre))
        }
    }

    /// What `set` does: the context it leaves and the error it gives, if
    /// it gives one. A value that is no table gives the error for
    /// indexing it and leaves the context as it was; a key that is nil or
    /// NaN gives the error for the key, and only pops the key and the
    /// value.
    pub open spec fn spec_set<K: ToLua, V: ToLua>(pre: StateView, index: int, k: K, v: V) -> (
        StateView,
        Option<ErrorView>,
    ) {
        match pre.table_at(index) {
            None => (pre, Some(spec_index_error(pre.type_at(index)))),
            Some(t) => {
                let ready = Self::spec_set_ready(pre, k, v);
                if spec_key_ok(ready.peek(1)) {
                    (ready.stored(t, ready.peek(1), ready.peek(0)).popped(2), None)
                } else {
                    (ready.popped(2), Some(spec_key_error(ready.peek(1))))
                }
            },
        }
    }

    /// Binds the host value `k` to the host value `v` in the table. Where
    /// `v` stands for the top of the stack, the value there is bound and
    /// consumed. A nil or NaN key is an error, which leaves the table as
    /// it was; a value that is no table is an error, which leaves the
    /// stack as it was.
    pub fn set<K: ToLua, V: ToLua>(&self, state: &mut State, k: K, v: V) -> (r: Result<
        (),
        Error,
    >)
        requires
            old(state).wf(),
            old(state)@.has_room(2 * MIN_STACK),
            old(state)@.is_absolute(self.index as int),
            V::spec_is_top() ==> old(state)@.top() >= 1,
            K::spec_is_top() ==> old(state)@.top() >= (if V::spec_is_top() {
                2int
            } else {
                1int
            }),
            V::spec_is_top() ==> self.index < old(state)@.top(),
            k.spec_pushable(old(state)@),
            v.spec_pushable(k.spec_pushed(old(state)@)),
        ensures
            final(state)@ == Self::spec_set(old(state)@, self.index as int, k, v).0,
            match r {
                Ok(()) => Self::spec_set(old(state)@, self.index as int, k, v).1.is_none(),
                Err(e) => Self::spec_set(old(state)@, self.index as int, k, v).1 == Some(e@),
            },
            final(state).wf(),
    {
        if state.table_at(self.index).is_none() {
            return Err(state.index_error(self.index));
        }
        proof {
            k.lemma_pushed(state@);
            lemma_extends_ref(state@, k.spec_pushed(state@), self.index as int);
        }
        if V::is_top() {
            state.push(k);
            if !K::is_top() {
                state.insert(-2);
            }
        } else {
            proof {
                v.lemma_pushed(k.spec_pushed(state@));
                lemma_extends_ref(
                    k.spec_pushed(state@),
                    v.spec_pushed(k.spec_pushed(state@)),
                    self.index as int,
                );
            }
            state.push(k);
            state.push(v);
        }
        state.raw_set(self.index)
    }

    /// The context after `get` has pushed the host value `k` and replaced
    /// it by what table `t` binds to it.
    pub open spec fn spec_got<K: ToLua>(pre: StateView, t: usize, k: K) -> StateView {
        let p = k.spec_pushed(pre);
        p.popped(1).pushed(p.lookup(t, p.peek(0)))
    }

    /// Pushes the host value `k` and replaces it by what the table binds
    /// to it; refers to that value. Where the value is no table, the
    /// result is the error to raise, and nothing is pushed.
    pub fn get<K: ToLua>(&self, state: &mut State, k: K) -> (r: Result<ValRef, Error>)
        requires
            old(state).wf(),
            old(state)@.has_room(MIN_STACK as int),
            old(state)@.is_absolute(self.index as int),
            K::spec_is_top() ==> old(state)@.top() >= 1,
            k.spec_pushable(old(state)@),
        ensures
            final(state).wf(),
            match old(state)@.table_at(self.index as int) {
                Some(t) => {
                    &&& final(state)@ == Self::spec_got(old(state)@, t, k)
                    &&& (r matches Ok(v) && v.index == final(state)@.top())
                },
                None => {
                    &&& (r matches Err(e) && e@ == spec_index_error(
                        old(state)@.type_at(self.index as int),
                    ))
                    &&& final(state)@ == old(state)@
                },
            },
    {
        if state.table_at(self.index).is_none() {
            return Err(state.index_error(self.index));
        }
        proof {
            k.lemma_pushed(state@);
            lemma_extends_ref(state@, k.spec_pushed(state@), self.index as int);
        }
        state.push(k);
        state.raw_get(self.index);
        Ok(state.val(-1))
    }

    /// Reads what the table binds to the host value `k` as a host value,
    /// leaving the stack as high as it was. Where the value is no table,
    /// the result is the error to raise, and the stack is left as it was.
    pub fn getopt<K: ToLua, V: FromLua>(&self, state: &mut State, k: K) -> (r: Result<
        Option<V>,
        Error,
    >)
        requires
            old(state).wf(),
            old(state)@.has_room(MIN_STACK as int),
            old(state)@.is_absolute(self.index as int),
            K::spec_is_top() ==> old(state)@.top() >= 1,
            k.spec_pushable(old(state)@),
        ensures
            final(state).wf(),
            match old(state)@.table_at(self.index as int) {
                Some(t) => {
                    &&& (r matches Ok(v) && v.deep_view() == V::spec_from_lua(
                        Self::spec_got(old(state)@, t, k),
                        -1,
                    ))
                    &&& final(state)@ == Self::spec_got(old(state)@, t, k).popped(1)
                },
                None => {
                    &&& (r matches Err(e) && e@ == spec_index_error(
                        old(state)@.type_at(self.index as int),
                    ))
                    &&& final(state)@ == old(state)@
                },
            },
    {
        match self.get(state, k) {
            Ok(_) => {
                let res = V::from_lua(state, -1);
                state.pop(1);
                Ok(res)
            },
            Err(e) => Err(e),
        }
    }
}

impl State {
    /// A reference to what `i` refers to.
    pub fn val(&self, i: Index) -> (r: ValRef)
        requires
            self.wf(),
        ensures
            r.index == self@.abs_index(i as int),
            self@.in_stack(i as int) || i <= REGISTRY_INDEX ==> self@.is_absolute(r.index as int)
                && self@.slot_at(r.index as int) == self@.slot_at(i as int),
    {
        ValRef::new(self, i)
    }

    /// A reference to the `i`-th upvalue of the running function.
    pub fn upval(&self, i: Index) -> (r: ValRef)
        requires
            self.wf(),
            0 <= i <= MAX_UPVALUES,
        ensures
            r.index == REGISTRY_INDEX - i,
            self@.is_absolute(r.index as int),
    {
        ValRef::new(self, upvalue_index(i))
    }

    /// A reference to the registry.
    pub fn c_reg(&self) -> (r: ValRef)
        requires
            self.wf(),
        ensures
            r.index == REGISTRY_INDEX,
            self@.is_absolute(r.index as int),
            self@.table_at(r.index as int) == Some(crate::heap::REGISTRY),
    {
        self.val(REGISTRY_INDEX)
    }

    /// Pushes the table of globals and refers to it.
    pub fn global(&mut self) -> (r: ValRef)
        requires
            old(self).wf(),
            old(self)@.has_room(1),
        ensures
            final(self)@ == old(self)@.pushed(Slot::Table(crate::heap::GLOBALS)),
            r.index == final(self)@.top(),
            final(self)@.is_absolute(r.index as int),
            final(self)@.table_at(r.index as int) == Some(crate::heap::GLOBALS),
            final(self).wf(),
    {
        self.push_global_table();
        self.val(-1)
    }

    /// Pushes a new empty table and refers to it.
    pub fn table(&mut self, narr: i32, nrec: i32) -> (r: ValRef)
        requires
            old(self).wf(),
            old(self)@.has_room(1),
        ensures
            final(self)@ == old(self)@.with_heap(old(self)@.heap.with_new_table()).pushed(
                Slot::Table(old(self)@.heap.tables.len() as usize),
            ),
            r.index == final(self)@.top(),
            final(self)@.is_absolute(r.index as int),
            final(self)@.table_at(r.index as int) == Some(
                old(self)@.heap.tables.len() as usize,
            ),
            final(self).wf(),
    {
        self.create_table(narr, nrec);
        self.val(-1)
    }

    /// The primitive content of what `i` refers to.
    pub fn value(&self, i: Index) -> (v: Value)
        requires
            self.wf(),
        ensures
            v.deep_view() == self@.value_view(i as int),
    {
        match self.slot(i) {
            None => Value::NoValue,
            Some(Slot::Nil) => Value::Nil,
            Some(Slot::Int(n)) => Value::Int(n),
            Some(Slot::Num(b)) => Value::Num(b),
            Some(Slot::Str(id)) => match self.heap.string(id) {
                Some(b) => Value::Str(crate::heap::bytes_to_vec(b.as_slice())),
                None => Value::Str(Vec::new()),
            },
            Some(Slot::Bool(b)) => Value::Bool(b),
            Some(Slot::LightUserdata(_)) => Value::LightUserdata,
            Some(Slot::Table(_)) => Value::Table,
            Some(Slot::Function(_)) => Value::Function,
            Some(Slot::Userdata(_)) => Value::Userdata,
            Some(Slot::Thread(_)) => Value::Thread,
        }
    }
}

impl FromLua for Value {
    open spec fn spec_tname() -> Seq<u8> {
        vstd::string::StringSliceAdditionalSpecFns::spec_bytes("value")
    }

    open spec fn spec_from_lua(s: StateView, i: int) -> Option<ValueView> {
        Some(s.value_view(i))
    }

    fn tname() -> (n: Vec<u8>) {
        crate::error::text("value")
    }

    fn from_lua(s: &State, i: Index) -> (r: Option<Self>) {
        Some(s.value(i))
    }
}

} // verus!
