//! References: values kept in a table, most often the registry, under
//! integer keys that the table hands out.

use vstd::prelude::*;
use crate::convert::{lemma_pushed_slot, ToLua};
use crate::heap::REGISTRY;
use crate::slot::Slot;
use crate::stack::{Index, MIN_STACK, REGISTRY_INDEX};
use crate::state::{State, StateView};
use crate::value::{lemma_extends_ref, ValRef};

verus! {

/// A reference handed out by `reference`.
#[derive(Clone, Copy, Debug, PartialEq, Eq, Hash, Structural)]
pub struct Reference(pub i32);

/// The integer of the reference that stands for nil.
pub const REFNIL: i32 = -1;

/// The integer of the reference that stands for no reference.
pub const NOREF: i32 = -1;

impl Reference {
    /// Whether this is the reference that stands for nil.
    pub fn is_nil_ref(self) -> (r: bool)
        ensures
            r == (self.0 == -1),
    {
        self.0 == -1
    }

    /// Whether this is the reference that stands for no reference.
    pub fn is_no_ref(self) -> (r: bool)
        ensures
            r == (self.0 == -1),
    {
        self.0 == -1
    }

    /// The integer of the reference.
    pub fn value(self) -> (v: i32)
        ensures
            v == self.0,
    {
        self.0
    }
}

/// A reference into the registry.
#[derive(Clone, Copy, Debug, PartialEq, Eq, Hash, Structural)]
pub struct CRegRef(pub i32);

/// A value that is kept in the registry for as long as this handle is
/// not released.
#[derive(Debug, PartialEq, Eq)]
pub struct CRegVal {
    index: CRegRef,
}

impl CRegVal {
    /// The reference under which the value is kept.
    pub closed spec fn spec_creg_ref(&self) -> CRegRef {
        self.index
    }

    /// The reference under which the value is kept.
    pub fn creg_ref(&self) -> (r: CRegRef)
        ensures
            r == self.spec_creg_ref(),
    {
        self.index
    }

    /// Keeps what `i` refers to in the registry. The stack is left as it
    /// was.
    pub fn from_stack(s: &mut State, i: Index) -> (r: CRegVal)
        requires
            old(s).wf(),
            old(s)@.has_room(1),
        ensures
            final(s)@ == spec_referenced(old(s)@.pushed(old(s)@.value_at(i as int)), REGISTRY),
            r.spec_creg_ref().0 == spec_reference(
                old(s)@.pushed(old(s)@.value_at(i as int)),
                REGISTRY,
            ),
            final(s)@.stack == old(s)@.stack,
            final(s).wf(),
    {
        s.push_value(i);
        proof {
            lemma_pushed_slot(old(s)@, old(s)@.value_at(i as int));
        }
        let r = s.reference(REGISTRY_INDEX);
        proof {
            assert(s@.stack =~= old(s)@.stack);
        }
        CRegVal { index: CRegRef(r.0) }
    }

    /// Gives up the value: the registry forgets it.
    pub fn release(self, s: &mut State)
        requires
            old(s).wf(),
        ensures
            final(s)@ == spec_unreferenced(old(s)@, REGISTRY, self.spec_creg_ref().0 as int),
            final(s).wf(),
    {
        s.unreference(REGISTRY_INDEX, Reference(self.index.0));
    }
}

/// Whether `n` is the reference that table `t` hands out next: the keys
/// `1..n` are taken and `n` is free.
pub open spec fn spec_next_reference(s: StateView, t: usize, n: int) -> bool {
    s.heap.tables[t as int].is_border(n - 1)
}

/// The reference that keeping the value on top of the stack in table `t`
/// gives: -1 for nil, and otherwise the first integer key from 1 on that
/// the table does not bind, or -1 where that is no 32-bit integer.
pub open spec fn spec_reference(s: StateView, t: usize) -> int {
    if s.peek(0) == Slot::Nil {
        -1
    } else {
        let n = choose|n: int| spec_next_reference(s, t, n);
        if n <= i32::MAX {
            n
        } else {
            -1
        }
    }
}

/// The context after the value on top of the stack is kept in table `t`:
/// the value is popped and, unless it is nil, bound to the reference.
pub open spec fn spec_referenced(s: StateView, t: usize) -> StateView {
    let r = spec_reference(s, t);
    if r >= 0 {
        s.stored(t, Slot::Int(r as i64), s.peek(0)).popped(1)
    } else {
        s.popped(1)
    }
}

/// The context after the reference `r` of table `t` is given up.
pub open spec fn spec_unreferenced(s: StateView, t: usize, r: int) -> StateView {
    if r >= 0 {
        s.stored(t, Slot::Int(r as i64), Slot::Nil)
    } else {
        s
    }
}

/// A table hands out one reference next: the length of its array part
/// plus one.
pub proof fn lemma_next_reference_unique(s: StateView, t: usize, a: int, b: int)
    requires
        spec_next_reference(s, t, a),
        spec_next_reference(s, t, b),
    ensures
        a == b,
{
    let tv = s.heap.tables[t as int];
    if a < b {
        assert(tv.filled_to(b - 1));
        assert(tv.get(Slot::Int(a as i64)) != Slot::Nil);
    }
    if b < a {
        assert(tv.filled_to(a - 1));
        assert(tv.get(Slot::Int(b as i64)) != Slot::Nil);
    }
}

impl State {
    /// Pops the value on top of the stack and keeps it in the table at `t`;
    /// returns the reference under which it is kept. Nil is not kept: its
    /// reference is the one that stands for nil.
    pub fn reference(&mut self, t: Index) -> (r: Reference)
        requires
            old(self).wf(),
            old(self)@.top() >= 1,
            old(self)@.table_at(t as int).is_some(),
        ensures
            r.0 == spec_reference(old(self)@, old(self)@.table_at(t as int).unwrap()),
            final(self)@ == spec_referenced(old(self)@, old(self)@.table_at(t as int).unwrap()),
            r.0 >= 0 ==> spec_next_reference(
                old(self)@,
                old(self)@.table_at(t as int).unwrap(),
                r.0 as int,
            ) && old(self)@.lookup(old(self)@.table_at(t as int).unwrap(), Slot::Int(r.0 as i64))
                == Slot::Nil,
            final(self).wf(),
    {
        let tb = self.table_at(t).unwrap();
        let v = self.stack.get(-1).unwrap();
        self.stack.pop(1);
        if v.is_nil() {
            return Reference(REFNIL);
        }
        let border = self.heap.table_border(tb);
        proof {
            let n = choose|n: int| spec_next_reference(old(self)@, tb, n);
            assert(spec_next_reference(old(self)@, tb, border + 1));
            lemma_next_reference_unique(old(self)@, tb, n, border + 1);
        }
        if border >= 0x7fff_ffff {
            return Reference(NOREF);
        }
        let r: i32 = border as i32 + 1;
        self.heap.table_set(tb, Slot::Int(r as i64), v);
        Reference(r)
    }

    /// Gives up the reference `reference` of the table at `t`.
    pub fn unreference(&mut self, t: Index, reference: Reference)
        requires
            old(self).wf(),
            old(self)@.table_at(t as int).is_some(),
        ensures
            final(self)@ == spec_unreferenced(
                old(self)@,
                old(self)@.table_at(t as int).unwrap(),
                reference.0 as int,
            ),
            final(self).wf(),
    {
        if reference.0 >= 0 {
            let tb = self.table_at(t).unwrap();
            self.heap.table_set(tb, Slot::Int(reference.0 as i64), Slot::Nil);
        }
    }

    /// Keeps the host value `val` in the registry. The stack is left as it
    /// was.
    pub fn creg_ref<V: ToLua>(&mut self, val: V) -> (r: CRegRef)
        requires
            old(self).wf(),
            old(self)@.has_room(MIN_STACK as int),
            val.spec_pushable(old(self)@),
            V::spec_is_top() ==> old(self)@.top() >= 1,
        ensures
            r.0 == spec_reference(val.spec_pushed(old(self)@), REGISTRY),
            final(self)@ == spec_referenced(val.spec_pushed(old(self)@), REGISTRY),
            final(self).wf(),
    {
        proof {
            val.lemma_pushed(self@);
            lemma_extends_ref(self@, val.spec_pushed(self@), REGISTRY_INDEX as int);
        }
        val.to_lua(self);
        let r = self.reference(REGISTRY_INDEX);
        CRegRef(r.0)
    }
}

impl ValRef {
    /// Keeps the host value `v` in the table and returns its reference.
    pub fn reference<V: ToLua>(&self, state: &mut State, v: V) -> (r: Reference)
        requires
            old(state).wf(),
            old(state)@.has_room(MIN_STACK as int),
            old(state)@.is_absolute(self.index as int),
            old(state)@.table_at(self.index as int).is_some(),
            v.spec_pushable(old(state)@),
            V::spec_is_top() ==> old(state)@.top() >= 1,
        ensures
            r.0 == spec_reference(
                v.spec_pushed(old(state)@),
                old(state)@.table_at(self.index as int).unwrap(),
            ),
            final(state)@ == spec_referenced(
                v.spec_pushed(old(state)@),
                old(state)@.table_at(self.index as int).unwrap(),
            ),
            final(state).wf(),
    {
        proof {
            v.lemma_pushed(state@);
            lemma_extends_ref(state@, v.spec_pushed(state@), self.index as int);
        }
        v.to_lua(state);
        state.reference(self.index)
    }

    /// Gives up the reference `r` of the table.
    pub fn unreference(&self, state: &mut State, r: Reference)
        requires
            old(state).wf(),
            old(state)@.table_at(self.index as int).is_some(),
        ensures
            final(state)@ == spec_unreferenced(
                old(state)@,
                old(state)@.table_at(self.index as int).unwrap(),
                r.0 as int,
            ),
            final(state).wf(),
    {
        state.unreference(self.index, r);
    }
}

impl ToLua for CRegVal {
    open spec fn spec_is_top() -> bool {
        false
    }

    open spec fn spec_pushable(&self, pre: StateView) -> bool {
        pre.heap.tables.len() >= 1
    }

    open spec fn spec_pushed(&self, pre: StateView) -> StateView {
        pre.pushed(pre.lookup(REGISTRY, Slot::Int(self.spec_creg_ref().0 as i64)))
    }

    proof fn lemma_pushed(&self, pre: StateView) {
        lemma_pushed_slot(pre, pre.lookup(REGISTRY, Slot::Int(self.spec_creg_ref().0 as i64)));
    }

    fn is_top() -> (b: bool) {
        false
    }

    fn to_lua(self, s: &mut State) {
        s.raw_geti(REGISTRY_INDEX, self.index.0 as i64);
    }
}

impl ToLua for CRegRef {
    open spec fn spec_is_top() -> bool {
        false
    }

    open spec fn spec_pushable(&self, pre: StateView) -> bool {
        pre.heap.tables.len() >= 1
    }

    open spec fn spec_pushed(&self, pre: StateView) -> StateView {
        pre.pushed(pre.lookup(REGISTRY, Slot::Int(self.0 as i64)))
    }

    proof fn lemma_pushed(&self, pre: StateView) {
        lemma_pushed_slot(pre, pre.lookup(REGISTRY, Slot::Int(self.0 as i64)));
    }

    fn is_top() -> (b: bool) {
        false
    }

    fn to_lua(self, s: &mut State) {
        s.raw_geti(REGISTRY_INDEX, self.0 as i64);
    }
}

} // verus!
