//! The metamethods of opaque objects: the dispatch of reads and writes
//! of a key, finalization, and length.
//!
//! A dispatcher runs with the object at index 1, the key at index 2 and,
//! for a write, the value at index 3; its first upvalue is the table of
//! getters or setters of the object's type. Where a host function has to
//! be called, the dispatcher leaves the function and its arguments on top
//! of the stack and says so; the caller makes the call.

use vstd::prelude::*;
use crate::error::Error;
use crate::heap::Userdata;
use crate::slot::Slot;
use crate::stack::{upvalue_index, MIN_STACK, REGISTRY_INDEX};
use crate::state::{State, StateView};
use crate::state_tables::{spec_key_error, spec_key_ok};
use crate::status::Type;
use crate::userdata::{Policy, UserData};

verus! {

/// What a dispatcher asks of its caller.
#[derive(Clone, Copy, Debug, PartialEq, Eq, Structural)]
pub enum Dispatch {
    /// Call the function that lies below the top `nargs` cells with those
    /// cells as arguments, for `nresults` results, and return those.
    Call { nargs: i32, nresults: i32 },
    /// Return the top `n` cells.
    Return(i32),
}

/// Where the value for a key is found.
pub enum IndexChoice {
    /// The type has a getter for the key: the getter is to be called.
    Getter(Slot),
    /// The metatable binds the key: a method.
    Method(Slot),
    /// The table attached to the object binds the key.
    UserValue(Slot),
    /// The type's fallback getter is to be called.
    Fallback(usize),
    /// Nothing is found.
    Absent,
}

impl StateView {
    /// The table of getters or setters that the running dispatcher is
    /// closed over.
    pub open spec fn accessors(self) -> Option<usize> {
        self.table_at(REGISTRY_INDEX - 1)
    }

    /// What the metatable of `obj` binds to `key`; nil where `obj` has no
    /// metatable.
    pub open spec fn method_of(self, obj: Slot, key: Slot) -> Slot {
        match self.meta_of(obj) {
            Some(m) => self.lookup(m, key),
            None => Slot::Nil,
        }
    }

    /// The value attached to `obj`; nil where `obj` is no opaque object.
    pub open spec fn uservalue_of(self, obj: Slot) -> Slot {
        match obj {
            Slot::Userdata(u) => match self.heap.get_userdata(u) {
                Some(o) => o.uservalue,
                None => Slot::Nil,
            },
            _ => Slot::Nil,
        }
    }

    /// The table attached to `obj`, if a table is attached to it.
    pub open spec fn uservalue_table(self, obj: Slot) -> Option<usize> {
        match self.uservalue_of(obj) {
            Slot::Table(t) => if t < self.heap.tables.len() {
                Some(t)
            } else {
                None
            },
            _ => None,
        }
    }

    /// What the table attached to `obj` binds to `key`; nil where no table
    /// is attached.
    pub open spec fn field_of(self, obj: Slot, key: Slot) -> Slot {
        match self.uservalue_table(obj) {
            Some(t) => self.lookup(t, key),
            None => Slot::Nil,
        }
    }
}

/// Where the read of a key is served from, in the order that scripts rely
/// on: the type's getter for the key, then a method in the metatable, then
/// the table attached to the object, then the type's fallback getter. The
/// first that has the key wins.
pub open spec fn spec_index_choice(s: StateView, p: Policy) -> IndexChoice {
    let obj = s.value_at(1);
    let key = s.value_at(2);
    let g = s.lookup(s.accessors().unwrap(), key);
    if g is Function {
        IndexChoice::Getter(g)
    } else if p.index_metatable && s.method_of(obj, key) != Slot::Nil {
        IndexChoice::Method(s.method_of(obj, key))
    } else if p.index_uservalue && s.field_of(obj, key) != Slot::Nil {
        IndexChoice::UserValue(s.field_of(obj, key))
    } else {
        match p.index_getter {
            Some(f) => IndexChoice::Fallback(f),
            None => IndexChoice::Absent,
        }
    }
}

/// The context after the getter stage of the index dispatcher: what the
/// type's table of getters binds to the key is pushed, followed by the
/// object and the key where it is a function to be called.
pub open spec fn spec_getter_stage(s: StateView) -> StateView {
    let g = s.lookup(s.accessors().unwrap(), s.value_at(2));
    if g is Function {
        s.with_stack(s.stack + seq![g, s.value_at(1), s.value_at(2)])
    } else {
        s.pushed(g)
    }
}

/// The context after the method stage: the metatable of the object and
/// what it binds to the key are pushed, where the object has a metatable.
pub open spec fn spec_method_stage(s: StateView) -> StateView {
    match s.meta_of(s.value_at(1)) {
        Some(m) => s.with_stack(
            s.stack + seq![Slot::Table(m), s.method_of(s.value_at(1), s.value_at(2))],
        ),
        None => s,
    }
}

/// The context after the stage of the attached table: the value attached
/// to the object is pushed, followed by what it binds to the key where it
/// is a table.
pub open spec fn spec_field_stage(s: StateView) -> StateView {
    let obj = s.value_at(1);
    if s.uservalue_table(obj).is_some() {
        s.with_stack(s.stack + seq![s.uservalue_of(obj), s.field_of(obj, s.value_at(2))])
    } else {
        s.pushed(s.uservalue_of(obj))
    }
}

/// The context after the fallback stage: the fallback getter, the object
/// and the key are pushed.
pub open spec fn spec_fallback_stage(s: StateView, f: usize) -> StateView {
    StateView {
        stack: s.stack + seq![
            Slot::Function(s.heap.closures.len() as usize),
            s.value_at(1),
            s.value_at(2),
        ],
        heap: s.heap.with_new_closure(f, Seq::empty()),
        ..s
    }
}

/// The context when the index dispatcher is done: the stages are gone
/// through in their order, up to the first that has the key.
pub open spec fn spec_index(s: StateView, p: Policy) -> StateView {
    let a = spec_getter_stage(s);
    if spec_index_choice(s, p) is Getter {
        a
    } else {
        let b = if p.index_metatable {
            spec_method_stage(a)
        } else {
            a
        };
        if spec_index_choice(s, p) is Method {
            b
        } else {
            let c = if p.index_uservalue {
                spec_field_stage(b)
            } else {
                b
            };
            match spec_index_choice(s, p) {
                IndexChoice::Fallback(f) => spec_fallback_stage(c, f),
                _ => c,
            }
        }
    }
}

/// What the index dispatcher asks of its caller.
pub open spec fn spec_index_dispatch(s: StateView, p: Policy) -> Dispatch {
    match spec_index_choice(s, p) {
        IndexChoice::Getter(_) => Dispatch::Call { nargs: 2, nresults: 1 },
        IndexChoice::Method(_) => Dispatch::Return(1),
        IndexChoice::UserValue(_) => Dispatch::Return(1),
        IndexChoice::Fallback(_) => Dispatch::Call { nargs: 2, nresults: 1 },
        IndexChoice::Absent => Dispatch::Return(0),
    }
}

/// A getter takes precedence: where the type has a getter for the key,
/// the read is served by the getter, whatever the policy is and whatever
/// the metatable and the attached table bind to the key.
pub proof fn lemma_getter_takes_precedence(s: StateView, p: Policy)
    requires
        s.lookup(s.accessors().unwrap(), s.value_at(2)) is Function,
    ensures
        spec_index_choice(s, p) == IndexChoice::Getter(
            s.lookup(s.accessors().unwrap(), s.value_at(2)),
        ),
        spec_index_dispatch(s, p) == (Dispatch::Call { nargs: 2, nresults: 1 }),
        spec_index(s, p).stack == s.stack + seq![
            s.lookup(s.accessors().unwrap(), s.value_at(2)),
            s.value_at(1),
            s.value_at(2),
        ],
        spec_index(s, p).heap == s.heap,
{
}

/// A method is found only where no getter has the key, the attached
/// table is asked only after the metatable, and the fallback getter only
/// after the attached table.
pub proof fn lemma_index_order(s: StateView, p: Policy)
    ensures
        spec_index_choice(s, p) is Method ==> !(s.lookup(
            s.accessors().unwrap(),
            s.value_at(2),
        ) is Function),
        spec_index_choice(s, p) is UserValue ==> !(p.index_metatable && s.method_of(
            s.value_at(1),
            s.value_at(2),
        ) != Slot::Nil),
        spec_index_choice(s, p) is Fallback ==> !(p.index_uservalue && s.field_of(
            s.value_at(1),
            s.value_at(2),
        ) != Slot::Nil),
{
}

/// Pushing cells onto a stack of at least two cells changes neither the
/// object nor the key of a dispatcher, nor what the heap holds for them.
pub proof fn lemma_stage_keeps(s: StateView, more: Seq<Slot>)
    requires
        s.top() >= 2,
    ensures
        s.with_stack(s.stack + more).value_at(1) == s.value_at(1),
        s.with_stack(s.stack + more).value_at(2) == s.value_at(2),
        s.with_stack(s.stack + more).top() == s.top() + more.len(),
{
    let r = s.with_stack(s.stack + more);
    assert(r.stack[0] == s.stack[0]);
    assert(r.stack[1] == s.stack[1]);
}

/// The getter stage of the index dispatcher. Returns whether the type has
/// a getter for the key.
fn index_getter_stage(s: &mut State) -> (hit: bool)
    requires
        old(s).wf(),
        old(s)@.top() >= 2,
        old(s)@.has_room(3),
        old(s)@.accessors().is_some(),
    ensures
        final(s)@ == spec_getter_stage(old(s)@),
        hit == (old(s)@.lookup(old(s)@.accessors().unwrap(), old(s)@.value_at(2)) is Function),
        final(s)@.value_at(1) == old(s)@.value_at(1),
        final(s)@.value_at(2) == old(s)@.value_at(2),
        final(s)@.top() <= old(s)@.top() + 3,
        final(s).wf(),
{
    let ghost pre = s@;
    let ghost g = pre.lookup(pre.accessors().unwrap(), pre.value_at(2));
    s.push_value(2);
    let found = s.raw_get(upvalue_index(1));
    proof {
        assert(s@.stack =~= pre.stack + seq![g]);
        lemma_stage_keeps(pre, seq![g]);
        lemma_stage_keeps(pre, seq![g, pre.value_at(1), pre.value_at(2)]);
    }
    if matches!(found, crate::status::Type::Function) {
        s.push_value(1);
        s.push_value(2);
        proof {
            assert(s@.stack =~= pre.stack + seq![g, pre.value_at(1), pre.value_at(2)]);
        }
        true
    } else {
        proof {
            assert(pre.pushed(g).stack =~= pre.stack + seq![g]);
        }
        false
    }
}

/// The method stage of the index dispatcher. Returns whether the
/// metatable binds the key.
fn index_method_stage(s: &mut State) -> (hit: bool)
    requires
        old(s).wf(),
        old(s)@.top() >= 2,
        old(s)@.has_room(3),
    ensures
        final(s)@ == spec_method_stage(old(s)@),
        hit == (old(s)@.method_of(old(s)@.value_at(1), old(s)@.value_at(2)) != Slot::Nil),
        hit ==> final(s)@.peek(0) == old(s)@.method_of(old(s)@.value_at(1), old(s)@.value_at(2)),
        final(s)@.value_at(1) == old(s)@.value_at(1),
        final(s)@.value_at(2) == old(s)@.value_at(2),
        final(s)@.top() <= old(s)@.top() + 2,
        final(s).wf(),
{
    let ghost pre = s@;
    let ghost obj = pre.value_at(1);
    let ghost key = pre.value_at(2);
    if s.get_metatable(1) {
        let ghost m = pre.meta_of(obj).unwrap();
        let t = if s.table_at(-1).is_some() {
            s.push_value(2);
            s.raw_get(-2)
        } else {
            s.push_nil();
            crate::status::Type::Nil
        };
        proof {
            assert(s@.stack =~= pre.stack + seq![Slot::Table(m), pre.method_of(obj, key)]);
            lemma_stage_keeps(pre, seq![Slot::Table(m), pre.method_of(obj, key)]);
        }
        !t.is_none_or_nil()
    } else {
        false
    }
}

/// The stage of the attached table of the index dispatcher. Returns
/// whether the attached table binds the key.
fn index_field_stage(s: &mut State) -> (hit: bool)
    requires
        old(s).wf(),
        old(s)@.top() >= 2,
        old(s)@.has_room(3),
    ensures
        final(s)@ == spec_field_stage(old(s)@),
        hit == (old(s)@.field_of(old(s)@.value_at(1), old(s)@.value_at(2)) != Slot::Nil),
        hit ==> final(s)@.peek(0) == old(s)@.field_of(old(s)@.value_at(1), old(s)@.value_at(2)),
        final(s)@.value_at(1) == old(s)@.value_at(1),
        final(s)@.value_at(2) == old(s)@.value_at(2),
        final(s)@.top() <= old(s)@.top() + 2,
        final(s).wf(),
{
    let ghost pre = s@;
    let ghost obj = pre.value_at(1);
    let ghost key = pre.value_at(2);
    s.get_uservalue(1);
    proof {
        assert(s@.stack =~= pre.stack + seq![pre.uservalue_of(obj)]);
        lemma_stage_keeps(pre, seq![pre.uservalue_of(obj)]);
        lemma_stage_keeps(pre, seq![pre.uservalue_of(obj), pre.field_of(obj, key)]);
    }
    if s.table_at(-1).is_some() {
        s.push_value(2);
        let t = s.raw_get(-2);
        proof {
            assert(s@.stack =~= pre.stack + seq![pre.uservalue_of(obj), pre.field_of(obj, key)]);
        }
        !t.is_none_or_nil()
    } else {
        false
    }
}

/// The fallback stage of the index dispatcher.
fn index_fallback_stage(s: &mut State, f: usize)
    requires
        old(s).wf(),
        old(s)@.top() >= 2,
        old(s)@.has_room(3),
    ensures
        final(s)@ == spec_fallback_stage(old(s)@, f),
        final(s).wf(),
{
    let ghost pre = s@;
    s.push_fn(f);
    proof {
        lemma_stage_keeps(pre, seq![Slot::Function(pre.heap.closures.len() as usize)]);
        assert(s@.stack =~= pre.stack + seq![Slot::Function(pre.heap.closures.len() as usize)]);
    }
    s.push_value(1);
    s.push_value(2);
    proof {
        assert(s@.stack =~= spec_fallback_stage(pre, f).stack);
    }
}

/// A stage of the index dispatcher that pushes only leaves the heap, and
/// so every lookup, as it was.
proof fn lemma_stage_lookups(a: StateView, b: StateView)
    requires
        b.heap == a.heap,
        b.value_at(1) == a.value_at(1),
        b.value_at(2) == a.value_at(2),
    ensures
        b.method_of(b.value_at(1), b.value_at(2)) == a.method_of(a.value_at(1), a.value_at(2)),
        b.field_of(b.value_at(1), b.value_at(2)) == a.field_of(a.value_at(1), a.value_at(2)),
        b.meta_of(b.value_at(1)) == a.meta_of(a.value_at(1)),
{
}

/// Serves the read of a key of an opaque object.
pub fn index(s: &mut State, p: Policy) -> (r: Dispatch)
    requires
        old(s).wf(),
        old(s)@.top() >= 2,
        old(s)@.has_room(MIN_STACK as int),
        old(s)@.accessors().is_some(),
    ensures
        final(s)@ == spec_index(old(s)@, p),
        r == spec_index_dispatch(old(s)@, p),
        spec_index_choice(old(s)@, p) matches IndexChoice::Method(v) ==> final(s)@.peek(0) == v,
        spec_index_choice(old(s)@, p) matches IndexChoice::UserValue(v) ==> final(s)@.peek(0)
            == v,
        final(s).wf(),
{
    let ghost pre = s@;
    if index_getter_stage(s) {
        return Dispatch::Call { nargs: 2, nresults: 1 };
    }
    let ghost a = s@;
    proof {
        lemma_stage_lookups(pre, a);
    }
    if p.index_metatable {
        if index_method_stage(s) {
            return Dispatch::Return(1);
        }
    }
    let ghost b = s@;
    proof {
        lemma_stage_lookups(a, b);
    }
    if p.index_uservalue {
        if index_field_stage(s) {
            return Dispatch::Return(1);
        }
    }
    match p.index_getter {
        Some(f) => {
            index_fallback_stage(s, f);
            Dispatch::Call { nargs: 2, nresults: 1 }
        },
        None => Dispatch::Return(0),
    }
}

/// The context when the dispatcher of writes is done: where the type has
/// a setter for the key, the setter and its arguments (the object, the
/// value, the key) are on top of the stack; otherwise the key is bound in
/// the table attached to the object, where the policy asks for that and a
/// table is attached.
pub open spec fn spec_newindex(s: StateView, p: Policy) -> StateView {
    let obj = s.value_at(1);
    let key = s.value_at(2);
    let val = s.value_at(3);
    let f = s.lookup(s.accessors().unwrap(), key);
    if f is Function {
        s.with_stack(s.stack + seq![f, obj, val, key])
    } else if p.index_uservalue {
        match s.uservalue_table(obj) {
            Some(t) => if spec_key_ok(key) {
                s.stored(t, key, val).with_stack(s.stack + seq![f, s.uservalue_of(obj)])
            } else {
                s.with_stack(s.stack + seq![f, s.uservalue_of(obj)])
            },
            None => s.with_stack(s.stack + seq![f, s.uservalue_of(obj)]),
        }
    } else {
        s.with_stack(s.stack + seq![f])
    }
}

/// Whether the dispatcher of writes has to refuse the key: it would bind
/// it in the attached table, and a table takes neither nil nor NaN.
pub open spec fn spec_newindex_refused(s: StateView, p: Policy) -> bool {
    &&& !(s.lookup(s.accessors().unwrap(), s.value_at(2)) is Function)
    &&& p.index_uservalue
    &&& s.uservalue_table(s.value_at(1)).is_some()
    &&& !spec_key_ok(s.value_at(2))
}

/// Serves the write of a key of an opaque object.
pub fn newindex(s: &mut State, p: Policy) -> (r: Result<Dispatch, Error>)
    requires
        old(s).wf(),
        old(s)@.top() >= 3,
        old(s)@.has_room(MIN_STACK as int),
        old(s)@.accessors().is_some(),
    ensures
        final(s)@ == spec_newindex(old(s)@, p),
        match r {
            Ok(d) => !spec_newindex_refused(old(s)@, p) && d == if old(s)@.lookup(
                old(s)@.accessors().unwrap(),
                old(s)@.value_at(2),
            ) is Function {
                Dispatch::Call { nargs: 3, nresults: 0 }
            } else {
                Dispatch::Return(0)
            },
            Err(e) => spec_newindex_refused(old(s)@, p) && e@ == spec_key_error(
                old(s)@.value_at(2),
            ),
        },
        final(s).wf(),
{
    let ghost pre = s@;
    let ghost obj = pre.value_at(1);
    let ghost key = pre.value_at(2);
    let ghost val = pre.value_at(3);
    let ghost f = pre.lookup(pre.accessors().unwrap(), key);
    // the type's setter for the key
    s.push_value(2);
    let found = s.raw_get(upvalue_index(1));
    proof {
        assert(s@.stack =~= pre.stack + seq![f]);
    }
    if matches!(found, crate::status::Type::Function) {
        s.push_value(1);
        s.push_value(3);
        s.push_value(2);
        proof {
            assert(s@.stack =~= pre.stack + seq![f, obj, val, key]);
        }
        return Ok(Dispatch::Call { nargs: 3, nresults: 0 });
    }
    // the table attached to the object
    if p.index_uservalue {
        s.get_uservalue(1);
        proof {
            assert(s@.stack =~= pre.stack + seq![f, pre.uservalue_of(obj)]);
        }
        if s.table_at(-1).is_some() {
            s.push_value(2);
            s.push_value(3);
            let stored = s.raw_set(-3);
            proof {
                assert(s@.stack =~= pre.stack + seq![f, pre.uservalue_of(obj)]);
            }
            if let Err(e) = stored {
                return Err(e);
            }
        }
    }
    Ok(Dispatch::Return(0))
}

/// What finalizing an opaque object does with the host value.
#[derive(Clone, Copy, Debug, PartialEq, Eq, Structural)]
pub enum Finalize {
    /// The host value at this address is dropped in place.
    Drop(usize),
    /// Nothing is dropped: the interpreter only held an indirection to a
    /// value that the host owns.
    Keep,
}

/// What finalizing the opaque object `o` of a type with policy `p` does:
/// an ordinary object is dropped in place; an object in pointer mode is
/// dropped only if its indirection still points at the body stored in its
/// own block.
pub open spec fn spec_finalize(p: Policy, o: Userdata) -> Finalize {
    if p.is_pointer {
        if o.inline == Some(o.target) {
            Finalize::Drop(o.target)
        } else {
            Finalize::Keep
        }
    } else {
        Finalize::Drop(o.target)
    }
}

/// What finalizing the opaque object `o` of a type with policy `p` does.
pub fn finalize(p: Policy, o: Userdata) -> (f: Finalize)
    ensures
        f == spec_finalize(p, o),
{
    if p.is_pointer {
        if o.inline == Some(o.target) {
            Finalize::Drop(o.target)
        } else {
            Finalize::Keep
        }
    } else {
        Finalize::Drop(o.target)
    }
}

/// Serves the finalization of the opaque object at index 1, which is of
/// the host type `U`.
pub fn gc<U: UserData>(s: &State) -> (r: Result<Finalize, Error>)
    requires
        s.wf(),
    ensures
        match r {
            Ok(f) => {
                &&& s@.userdata_at(1).is_some()
                &&& U::spec_policy().is_pointer || State::spec_is_instance(
                    s@,
                    s@.value_at(1),
                    U::spec_entries().init,
                )
                &&& f == spec_finalize(
                    U::spec_policy(),
                    s@.heap.userdata[s@.userdata_at(1).unwrap() as int],
                )
            },
            Err(e) => if U::spec_policy().is_pointer {
                s@.userdata_at(1).is_none() && e@ == s@.type_error(
                    1,
                    crate::diag::spec_typename(crate::status::Type::Userdata),
                )
            } else {
                !(s@.userdata_at(1).is_some() && State::spec_is_instance(
                    s@,
                    s@.value_at(1),
                    U::spec_entries().init,
                )) && e@ == s@.type_error(1, U::spec_tname())
            },
        },
{
    let p = U::policy();
    if p.is_pointer {
        match s.userdata_at(1) {
            Some(u) => {
                let o = s.heap.get_userdata(u).unwrap();
                Ok(finalize(p, o))
            },
            None => {
                let n = State::typename_of(crate::status::Type::Userdata);
                Err(s.type_error(1, n.as_slice()))
            },
        }
    } else {
        match s.check_userdata::<U>(1) {
            Ok(a) => Ok(Finalize::Drop(a)),
            Err(e) => Err(e),
        }
    }
}

/// Serves the length operator of the opaque object at index 1: pushes its
/// raw length and returns it as the one result.
pub fn len(s: &mut State) -> (r: Dispatch)
    requires
        old(s).wf(),
        old(s)@.has_room(1),
        old(s)@.table_at(1).is_none(),
    ensures
        r == Dispatch::Return(1),
        final(s)@ == old(s)@.pushed(
            Slot::Int(
                crate::intconv::spec_from_unsigned(old(s)@.raw_len_of(old(s)@.value_at(1))) as i64,
            ),
        ),
        final(s).wf(),
{
    let n = s.raw_len(1);
    s.push_integer(crate::intconv::from_unsigned(n as u64));
    Dispatch::Return(1)
}

/// A place where the read of a key looks for its value.
#[derive(Clone, Copy, Debug, PartialEq, Eq, Structural)]
pub enum Stage {
    /// The type's table of getters.
    Getter,
    /// The metatable of the object.
    Method,
    /// The table attached to the object.
    UserValue,
    /// The type's fallback getter.
    Fallback,
}

/// What the read of a key does once it has looked at one place.
#[derive(Clone, Copy, Debug, PartialEq, Eq, Structural)]
pub enum Verdict {
    /// What was found is a function to be called with the object and the
    /// key.
    Call,
    /// What was found is the value of the key.
    Return,
    /// Nothing was found: look at this place next.
    Look(Stage),
    /// Nothing was found, and there is no place left: the key has no
    /// value.
    Absent,
}

/// The place that the read of a key looks at after `stage`, under the
/// policy `p`; `None` where `stage` is the last that the policy admits.
pub open spec fn spec_next_stage(p: Policy, stage: Stage) -> Option<Stage> {
    if stage is Getter && p.index_metatable {
        Some(Stage::Method)
    } else if (stage is Getter || stage is Method) && p.index_uservalue {
        Some(Stage::UserValue)
    } else if !(stage is Fallback) && p.index_getter.is_some() {
        Some(Stage::Fallback)
    } else {
        None
    }
}

/// What the read of a key does once it has found a value of the type
/// `found` at `stage`: a function among the getters is called, anything
/// but nil in the metatable or the attached table is the value, and the
/// fallback getter is called whatever the key.
pub open spec fn spec_verdict(p: Policy, stage: Stage, found: Type) -> Verdict {
    let taken = match stage {
        Stage::Getter => found == Type::Function,
        Stage::Method | Stage::UserValue => found != Type::Nil && found != Type::NoValue,
        Stage::Fallback => true,
    };
    if taken {
        match stage {
            Stage::Getter | Stage::Fallback => Verdict::Call,
            Stage::Method | Stage::UserValue => Verdict::Return,
        }
    } else {
        match spec_next_stage(p, stage) {
            Some(next) => Verdict::Look(next),
            None => Verdict::Absent,
        }
    }
}

/// The place that the read of a key looks at after `stage`.
pub fn next_stage(p: Policy, stage: Stage) -> (r: Option<Stage>)
    ensures
        r == spec_next_stage(p, stage),
{
    let first = matches!(stage, Stage::Getter);
    let second = matches!(stage, Stage::Method);
    let last = matches!(stage, Stage::Fallback);
    if first && p.index_metatable {
        Some(Stage::Method)
    } else if (first || second) && p.index_uservalue {
        Some(Stage::UserValue)
    } else if !last && p.index_getter.is_some() {
        Some(Stage::Fallback)
    } else {
        None
    }
}

/// What the read of a key does once it has found a value of the type
/// `found` at `stage`.
pub fn verdict(p: Policy, stage: Stage, found: Type) -> (r: Verdict)
    ensures
        r == spec_verdict(p, stage, found),
{
    let taken = match stage {
        Stage::Getter => matches!(found, Type::Function),
        Stage::Method | Stage::UserValue => !matches!(found, Type::Nil) && !matches!(
            found,
            Type::NoValue
        ),
        Stage::Fallback => true,
    };
    if taken {
        match stage {
            Stage::Getter | Stage::Fallback => Verdict::Call,
            Stage::Method | Stage::UserValue => Verdict::Return,
        }
    } else {
        match next_stage(p, stage) {
            Some(next) => Verdict::Look(next),
            None => Verdict::Absent,
        }
    }
}

/// What the read of a key finds at `stage` in the context `s` of its
/// dispatcher.
pub open spec fn spec_found(s: StateView, stage: Stage) -> Slot {
    let obj = s.value_at(1);
    let key = s.value_at(2);
    match stage {
        Stage::Getter => s.lookup(s.accessors().unwrap(), key),
        Stage::Method => s.method_of(obj, key),
        Stage::UserValue => s.field_of(obj, key),
        Stage::Fallback => Slot::Nil,
    }
}

/// The number of places that come after `stage`.
pub open spec fn spec_stages_left(stage: Stage) -> nat {
    match stage {
        Stage::Getter => 3,
        Stage::Method => 2,
        Stage::UserValue => 1,
        Stage::Fallback => 0,
    }
}

/// Where the read of a key is served from when it looks at `stage` and
/// follows the verdicts from there.
pub open spec fn spec_settled(s: StateView, p: Policy, stage: Stage) -> IndexChoice
    decreases spec_stages_left(stage),
{
    let found = spec_found(s, stage);
    match spec_verdict(p, stage, found.spec_type_of()) {
        Verdict::Call => match stage {
            Stage::Fallback => match p.index_getter {
                Some(f) => IndexChoice::Fallback(f),
                None => IndexChoice::Absent,
            },
            _ => IndexChoice::Getter(found),
        },
        Verdict::Return => match stage {
            Stage::Method => IndexChoice::Method(found),
            _ => IndexChoice::UserValue(found),
        },
        Verdict::Look(next) => if spec_stages_left(next) < spec_stages_left(stage) {
            spec_settled(s, p, next)
        } else {
            IndexChoice::Absent
        },
        Verdict::Absent => IndexChoice::Absent,
    }
}

/// Following the verdicts from the getters on serves the read of a key
/// from where the dispatcher serves it.
pub proof fn lemma_verdicts_settle(s: StateView, p: Policy)
    ensures
        spec_settled(s, p, Stage::Getter) == spec_index_choice(s, p),
{
    reveal_with_fuel(spec_settled, 5);
}

/// What the write of a key does once it has looked for the type's setter
/// and, where the policy asks for it, at what is attached to the object.
#[derive(Clone, Copy, Debug, PartialEq, Eq, Structural)]
pub enum WriteVerdict {
    /// The setter is called with the object, the value and the key.
    Call,
    /// The key is bound in the table attached to the object.
    Store,
    /// The write is dropped.
    Nothing,
}

/// What the write of a key does: `setter` is the type of what the type's
/// table of setters binds to the key, and `attached` the type of what is
/// attached to the object.
pub open spec fn spec_write_verdict(p: Policy, setter: Type, attached: Type) -> WriteVerdict {
    if setter == Type::Function {
        WriteVerdict::Call
    } else if p.index_uservalue && attached == Type::Table {
        WriteVerdict::Store
    } else {
        WriteVerdict::Nothing
    }
}

/// What the write of a key does.
pub fn write_verdict(p: Policy, setter: Type, attached: Type) -> (r: WriteVerdict)
    ensures
        r == spec_write_verdict(p, setter, attached),
{
    if matches!(setter, Type::Function) {
        WriteVerdict::Call
    } else if p.index_uservalue && matches!(attached, Type::Table) {
        WriteVerdict::Store
    } else {
        WriteVerdict::Nothing
    }
}

/// The verdict on a write is what the dispatcher of writes does: it asks
/// for the setter's call exactly where the verdict is to call; it binds
/// the key in the attached table where the verdict is to store, and
/// refuses exactly the keys that a table does not take; and it leaves
/// every table as it was where the verdict is to do nothing.
pub proof fn lemma_write_verdict(s: StateView, p: Policy)
    requires
        s.uservalue_of(s.value_at(1)) is Table ==> s.uservalue_table(s.value_at(1)).is_some(),
    ensures
        ({
            let obj = s.value_at(1);
            let key = s.value_at(2);
            let val = s.value_at(3);
            let f = s.lookup(s.accessors().unwrap(), key);
            match spec_write_verdict(p, f.spec_type_of(), s.uservalue_of(obj).spec_type_of()) {
                WriteVerdict::Call => f is Function && spec_newindex(s, p).heap == s.heap
                    && !spec_newindex_refused(s, p),
                WriteVerdict::Store => {
                    &&& spec_newindex_refused(s, p) == !spec_key_ok(key)
                    &&& spec_key_ok(key) ==> spec_newindex(s, p).heap == s.stored(
                        s.uservalue_table(obj).unwrap(),
                        key,
                        val,
                    ).heap
                },
                WriteVerdict::Nothing => spec_newindex(s, p).heap == s.heap
                    && !spec_newindex_refused(s, p),
            }
        }),
{
}

} // verus!
